//! What holds of every upload session: laws of seeking and writing, each
//! proved from the definitions.

use crate::api::upload::session::{
    accepted_len, is_completion, is_request, is_step, is_write, FileOp, Frame, IoOutcome, Request,
    Response, SessionError, SessionState, Step,
};
use vstd::prelude::*;

verus! {

/// A block that is longer than what is left of the file is cut to exactly
/// what is left, and that length is what the acknowledgment reports once the
/// write is done; the cursor then stands at the end of the written part,
/// never beyond the file.
pub proof fn lemma_write_is_truncated(
    before: SessionState,
    block: Seq<u8>,
    r: Result<FileOp, SessionError>,
    waiting: SessionState,
    ack: Result<Response, SessionError>,
    after: SessionState,
)
    requires
        before.wf(),
        before.cursor < before.size,
        block.len() > before.size - before.cursor,
        is_write(before, block, r, waiting),
        is_completion(waiting, IoOutcome::Done, ack, after),
    ensures
        r matches Ok(FileOp::Write { offset, data }) && offset == before.cursor && data@
            == block.take(before.size - before.cursor),
        ack == Ok::<Response, SessionError>(
            Response::BlockReceived {
                len: (before.size - before.cursor) as u64,
                cur_pos: before.size,
            },
        ),
        after.cursor == before.size,
        after.wf(),
{
}

/// A block that fits is written whole, and the cursor moves by its length.
pub proof fn lemma_write_that_fits(
    before: SessionState,
    block: Seq<u8>,
    r: Result<FileOp, SessionError>,
    waiting: SessionState,
    ack: Result<Response, SessionError>,
    after: SessionState,
)
    requires
        before.wf(),
        before.cursor < before.size,
        block.len() <= before.size - before.cursor,
        is_write(before, block, r, waiting),
        is_completion(waiting, IoOutcome::Done, ack, after),
    ensures
        r matches Ok(FileOp::Write { offset, data }) && offset == before.cursor && data@ == block,
        ack == Ok::<Response, SessionError>(
            Response::BlockReceived {
                len: block.len() as u64,
                cur_pos: (before.cursor + block.len()) as u64,
            },
        ),
        after.cursor == before.cursor + block.len(),
        after.wf(),
{
    assert(block.take(block.len() as int) =~= block);
}

/// No write leaves the file: what is handed out to be written starts at the
/// cursor and ends within the size of the file.
pub proof fn lemma_write_stays_in_file(
    before: SessionState,
    block: Seq<u8>,
    r: Result<FileOp, SessionError>,
    after: SessionState,
)
    requires
        before.wf(),
        is_write(before, block, r, after),
    ensures
        r matches Ok(FileOp::Write { offset, data }) ==> offset + data.len() <= before.size,
        after.wf(),
{
}

/// At the end of the file a block is refused with `EndOfFile`: nothing is
/// handed out to be written, and the session stays as it is.
pub proof fn lemma_write_at_end_is_refused(
    before: SessionState,
    block: Seq<u8>,
    r: Result<FileOp, SessionError>,
    after: SessionState,
)
    requires
        before.cursor == before.size,
        is_write(before, block, r, after),
    ensures
        r == Err::<FileOp, SessionError>(SessionError::EndOfFile),
        after == before,
{
}

/// A seek is in order exactly up to the size of the file: to the end itself
/// it succeeds, one byte further it is refused with `OutOfRange`.
pub proof fn lemma_seek_bounds(
    before: SessionState,
    pos: u64,
    r: Result<FileOp, SessionError>,
    after: SessionState,
)
    requires
        is_request(before, Request::Seek { pos }, r, after),
    ensures
        r is Ok <==> pos <= before.size,
        pos == before.size ==> r == Ok::<FileOp, SessionError>(FileOp::Seek { pos }),
        pos == before.size + 1 ==> r == Err::<FileOp, SessionError>(SessionError::OutOfRange),
        r is Err ==> after == before,
{
}

/// Whatever frame arrives, a session that is well formed stays so, and the
/// size of its file never changes.
pub proof fn lemma_step_keeps_wf(
    before: SessionState,
    frame: Frame,
    step: Step,
    after: SessionState,
)
    requires
        before.wf(),
        !before.is_busy(),
        is_step(before, frame, step, after),
    ensures
        after.wf(),
        after.size == before.size,
        step is Perform <==> after.is_busy(),
{
}

/// Every frame but a fragment in the middle of its block, a pong or an
/// unknown frame is answered: at once, or after the one file operation it
/// calls for.
pub proof fn lemma_step_answers(
    before: SessionState,
    frame: Frame,
    step: Step,
    after: SessionState,
)
    requires
        before.wf(),
        !before.is_busy(),
        !(before.phase is Closed),
        is_step(before, frame, step, after),
    ensures
        step is Nothing <==> (frame is Pong || frame is Other || (frame is FirstBinary
            && before.partial is None) || (frame is Continue && before.partial is Some)),
        step is Close <==> frame is TransportError,
{
}

/// The content of a file after `op` was carried out on it.
pub open spec fn carried_out(file: Seq<u8>, op: FileOp) -> Seq<u8> {
    match op {
        FileOp::Write { offset, data } => Seq::new(
            file.len(),
            |i: int|
                if offset <= i < offset + data@.len() {
                    data@[i - offset]
                } else {
                    file[i]
                },
        ),
        _ => file,
    }
}

/// The file keeps its size: whatever block arrives, what is written lies
/// within the file as it was created, and every byte outside the written
/// part stays as it was.
pub proof fn lemma_file_keeps_its_size(
    before: SessionState,
    block: Seq<u8>,
    r: Result<FileOp, SessionError>,
    after: SessionState,
    file: Seq<u8>,
)
    requires
        before.wf(),
        file.len() == before.size,
        is_write(before, block, r, after),
        r is Ok,
    ensures
        carried_out(file, r->Ok_0).len() == before.size,
        forall|i: int|
            0 <= i < file.len() && !(before.cursor <= i < before.cursor + accepted_len(
                before.size,
                before.cursor,
                block.len(),
            )) ==> carried_out(file, r->Ok_0)[i] == file[i],
        forall|i: int|
            0 <= i < accepted_len(before.size, before.cursor, block.len()) ==> carried_out(
                file,
                r->Ok_0,
            )[before.cursor + i] == block[i],
{
}

/// A block of the size of the file, written from the start, is the whole
/// content of the file afterwards.
pub proof fn lemma_full_overwrite(
    before: SessionState,
    block: Seq<u8>,
    r: Result<FileOp, SessionError>,
    after: SessionState,
    file: Seq<u8>,
)
    requires
        before.wf(),
        before.cursor == 0,
        before.size > 0,
        block.len() == before.size,
        file.len() == before.size,
        is_write(before, block, r, after),
    ensures
        r is Ok,
        carried_out(file, r->Ok_0) == block,
{
    assert(block.take(block.len() as int) =~= block);
    assert(carried_out(file, r->Ok_0) =~= block);
}

} // verus!
