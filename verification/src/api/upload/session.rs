//! The upload session.
//!
//! A session answers the frames of one channel, one at a time. It never
//! touches the file: where a frame calls for a file operation, the session
//! hands the operation out, waits in the matching phase, and goes on when it
//! is told how the operation went.

use vstd::prelude::*;
use vstd::std_specs::convert::FromSpecImpl;

verus! {

/// A command of the client.
#[derive(Debug, Clone, Copy, PartialEq, Eq, Structural)]
pub enum Request {
    /// Move the cursor to the byte `pos` of the file.
    Seek { pos: u64 },
    /// Flush what was written to storage.
    Finish,
}

/// What a frame is answered with when it went well.
#[derive(Debug, Clone, Copy, PartialEq, Eq, Structural)]
pub enum Response {
    /// A command was carried out.
    Empty,
    /// `len` bytes of a block were written, and the cursor now is at
    /// `cur_pos`.
    BlockReceived { len: u64, cur_pos: u64 },
}

/// Why a frame was not carried out. The session goes on after each of them.
#[derive(Debug, PartialEq, Eq)]
pub enum SessionError {
    /// A seek beyond the size of the file.
    OutOfRange,
    /// A block arrived while the cursor stood at the end of the file.
    EndOfFile,
    /// A control frame that could not be read; the text says why.
    Malformed(String),
    /// A fragment arrived while no block was being put together.
    UnexpectedFragment,
    /// Another frame arrived while a block was being put together. The
    /// fragments received so far are dropped.
    InterruptedBlock,
    /// The file operation failed; the text says how.
    Io(String),
}

impl SessionError {
    /// The words that the client is told.
    pub open spec fn description(self) -> Seq<char> {
        match self {
            SessionError::OutOfRange => "cannot seek past end of file"@,
            SessionError::EndOfFile => "already reached end of file"@,
            SessionError::Malformed(text) => text@,
            SessionError::UnexpectedFragment => "unexpected continuation frame"@,
            SessionError::InterruptedBlock => "data block interrupted by another frame"@,
            SessionError::Io(text) => text@,
        }
    }

    pub fn describe(&self) -> (text: String)
        ensures
            text@ == self.description(),
    {
        match self {
            SessionError::OutOfRange => "cannot seek past end of file".to_owned(),
            SessionError::EndOfFile => "already reached end of file".to_owned(),
            SessionError::Malformed(text) => text.clone(),
            SessionError::UnexpectedFragment => "unexpected continuation frame".to_owned(),
            SessionError::InterruptedBlock => "data block interrupted by another frame".to_owned(),
            SessionError::Io(text) => text.clone(),
        }
    }
}

/// The acknowledgment of one frame: an error, or what was done.
#[derive(Debug, PartialEq, Eq)]
pub struct JsonResponse {
    pub err: Option<SessionError>,
    pub inner: Response,
}

impl From<Result<Response, SessionError>> for JsonResponse {
    fn from(value: Result<Response, SessionError>) -> (r: JsonResponse) {
        match value {
            Ok(resp) => JsonResponse { err: None, inner: resp },
            Err(err) => JsonResponse { err: Some(err), inner: Response::Empty },
        }
    }
}

impl FromSpecImpl<Result<Response, SessionError>> for JsonResponse {
    open spec fn obeys_from_spec() -> bool {
        true
    }

    open spec fn from_spec(value: Result<Response, SessionError>) -> JsonResponse {
        acknowledgment(value)
    }
}

/// The acknowledgment for an outcome: what was done, or the error alone.
pub open spec fn acknowledgment(value: Result<Response, SessionError>) -> JsonResponse {
    match value {
        Ok(resp) => JsonResponse { err: None, inner: resp },
        Err(err) => JsonResponse { err: Some(err), inner: Response::Empty },
    }
}

/// The acknowledgment that reports `e`.
pub open spec fn refusal(e: SessionError) -> JsonResponse {
    JsonResponse { err: Some(e), inner: Response::Empty }
}

/// A frame of the channel, as the session sees it.
#[derive(Debug, PartialEq, Eq)]
pub enum Frame {
    /// A whole block of data.
    Binary(Vec<u8>),
    /// The first fragment of a block.
    FirstBinary(Vec<u8>),
    /// A fragment that is neither the first nor the last of its block.
    Continue(Vec<u8>),
    /// The last fragment of a block.
    Last(Vec<u8>),
    /// A control frame that was read as a command.
    Control(Request),
    /// A control frame that could not be read as a command.
    Malformed(String),
    /// A pong.
    Pong,
    /// Any other frame that the channel delivers.
    Other,
    /// The channel failed.
    TransportError,
}

/// An operation on the file of the session, for its owner to carry out.
#[derive(Debug, PartialEq, Eq)]
pub enum FileOp {
    /// Move the write position to the byte `pos`.
    Seek { pos: u64 },
    /// Flush what was written.
    Flush,
    /// Write all of `data`, its first byte at the byte `offset` of the file.
    Write { offset: u64, data: Vec<u8> },
}

/// How a file operation went.
#[derive(Debug, PartialEq, Eq)]
pub enum IoOutcome {
    Done,
    /// It failed; the text says how.
    Failed(String),
}

/// What the owner of the session is to do after a frame.
#[derive(Debug, PartialEq, Eq)]
pub enum Step {
    /// Send the acknowledgment.
    Reply(JsonResponse),
    /// Carry out the operation, then report how it went.
    Perform(FileOp),
    /// Nothing: wait for the next frame.
    Nothing,
    /// Stop: release the file and close the channel.
    Close,
}

/// Where a session stands between two frames, or within one.
#[derive(Debug, Clone, Copy, PartialEq, Eq, Structural)]
pub enum Phase {
    /// Waiting for a frame.
    Idle,
    /// Waiting for a seek to `pos`.
    Seeking { pos: u64 },
    /// Waiting for a write of `len` bytes at the cursor.
    Writing { len: u64 },
    /// Waiting for a flush.
    Finishing,
    /// The channel has failed. Nothing is carried out any more.
    Closed,
}

/// The state of a session.
pub struct SessionState {
    /// The size that the file was created with.
    pub size: u64,
    /// Where the next block is written.
    pub cursor: u64,
    /// The fragments of the block that is being put together, if one is.
    pub partial: Option<Seq<u8>>,
    pub phase: Phase,
}

impl SessionState {
    /// What holds of every session: the cursor is within the file, and so is
    /// whatever the session waits for.
    pub open spec fn wf(self) -> bool {
        &&& self.cursor <= self.size
        &&& match self.phase {
            Phase::Seeking { pos } => pos <= self.size,
            Phase::Writing { len } => self.cursor + len <= self.size,
            _ => true,
        }
    }

    /// Whether the session waits for the outcome of a file operation.
    pub open spec fn is_busy(self) -> bool {
        self.phase is Seeking || self.phase is Writing || self.phase is Finishing
    }

    pub open spec fn with_phase(self, phase: Phase) -> SessionState {
        SessionState { phase, ..self }
    }

    pub open spec fn with_partial(self, partial: Option<Seq<u8>>) -> SessionState {
        SessionState { partial, ..self }
    }

    pub open spec fn with_cursor(self, cursor: u64) -> SessionState {
        SessionState { cursor, ..self }
    }
}

/// How many bytes of a block of `len` bytes are written at `cursor` in a
/// file of `size` bytes: all of it, or as many as the file still has room
/// for.
pub open spec fn accepted_len(size: u64, cursor: u64, len: nat) -> nat {
    if len <= size - cursor {
        len
    } else {
        (size - cursor) as nat
    }
}

/// Whether `r` and `after` are what the command `req` gives in `before`.
pub open spec fn is_request(
    before: SessionState,
    req: Request,
    r: Result<FileOp, SessionError>,
    after: SessionState,
) -> bool {
    match req {
        Request::Seek { pos } => if pos > before.size {
            r == Err::<FileOp, SessionError>(SessionError::OutOfRange) && after == before
        } else {
            r == Ok::<FileOp, SessionError>(FileOp::Seek { pos }) && after == before.with_phase(
                Phase::Seeking { pos },
            )
        },
        Request::Finish => r == Ok::<FileOp, SessionError>(FileOp::Flush) && after
            == before.with_phase(Phase::Finishing),
    }
}

/// Whether `r` and `after` are what the block `block` gives in `before`: at
/// the end of the file an error; else a write at the cursor of as much of
/// the block as the file has room for.
pub open spec fn is_write(
    before: SessionState,
    block: Seq<u8>,
    r: Result<FileOp, SessionError>,
    after: SessionState,
) -> bool {
    if before.cursor == before.size {
        r == Err::<FileOp, SessionError>(SessionError::EndOfFile) && after == before
    } else {
        let len = accepted_len(before.size, before.cursor, block.len());
        &&& r matches Ok(FileOp::Write { offset, data })
        &&& offset == before.cursor
        &&& data@ == block.take(len as int)
        &&& after == before.with_phase(Phase::Writing { len: len as u64 })
    }
}

/// Whether `r` and `after` are what the outcome of the awaited operation
/// gives in `before`. The session is idle again; the cursor moves only
/// where a seek or a write went well.
pub open spec fn is_completion(
    before: SessionState,
    outcome: IoOutcome,
    r: Result<Response, SessionError>,
    after: SessionState,
) -> bool {
    match outcome {
        IoOutcome::Failed(text) => r == Err::<Response, SessionError>(SessionError::Io(text))
            && after == before.with_phase(Phase::Idle),
        IoOutcome::Done => match before.phase {
            Phase::Seeking { pos } => r == Ok::<Response, SessionError>(Response::Empty) && after
                == before.with_phase(Phase::Idle).with_cursor(pos),
            Phase::Writing { len } => {
                &&& r == Ok::<Response, SessionError>(
                    Response::BlockReceived { len, cur_pos: (before.cursor + len) as u64 },
                )
                &&& after == before.with_phase(Phase::Idle).with_cursor(
                    (before.cursor + len) as u64,
                )
            },
            _ => r == Ok::<Response, SessionError>(Response::Empty) && after == before.with_phase(
                Phase::Idle,
            ),
        },
    }
}

/// The step that hands on what a command or a block gave.
pub open spec fn is_step_of(r: Result<FileOp, SessionError>, step: Step) -> bool {
    match r {
        Ok(op) => step == Step::Perform(op),
        Err(e) => step == Step::Reply(refusal(e)),
    }
}

/// Whether `step` and `after` are what the frame `frame` gives in `before`.
///
/// A closed session stays closed. A failure of the channel closes it. Pongs
/// and unknown frames are passed over. A block is written when it is whole:
/// at once for an unfragmented one, at its last fragment otherwise, and the
/// fragments before that are only kept. A fragment without a block, and any
/// data or control frame inside a block, is refused, and the fragments kept
/// are dropped.
pub open spec fn is_step(before: SessionState, frame: Frame, step: Step, after: SessionState) -> bool {
    if before.phase is Closed {
        step == Step::Close && after == before
    } else {
        match frame {
            Frame::TransportError => step == Step::Close && after == before.with_partial(
                None,
            ).with_phase(Phase::Closed),
            Frame::Pong => step == Step::Nothing && after == before,
            Frame::Other => step == Step::Nothing && after == before,
            Frame::FirstBinary(data) => if before.partial is Some {
                step == Step::Reply(refusal(SessionError::InterruptedBlock)) && after
                    == before.with_partial(None)
            } else {
                step == Step::Nothing && after == before.with_partial(Some(data@))
            },
            Frame::Continue(data) => match before.partial {
                Some(kept) => step == Step::Nothing && after == before.with_partial(
                    Some(kept + data@),
                ),
                None => step == Step::Reply(refusal(SessionError::UnexpectedFragment)) && after
                    == before,
            },
            Frame::Last(data) => match before.partial {
                Some(kept) => exists|r: Result<FileOp, SessionError>|
                    #[trigger] is_write(before.with_partial(None), kept + data@, r, after)
                        && is_step_of(r, step),
                None => step == Step::Reply(refusal(SessionError::UnexpectedFragment)) && after
                    == before,
            },
            Frame::Binary(data) => if before.partial is Some {
                step == Step::Reply(refusal(SessionError::InterruptedBlock)) && after
                    == before.with_partial(None)
            } else {
                exists|r: Result<FileOp, SessionError>|
                    #[trigger] is_write(before, data@, r, after) && is_step_of(r, step)
            },
            Frame::Control(req) => if before.partial is Some {
                step == Step::Reply(refusal(SessionError::InterruptedBlock)) && after
                    == before.with_partial(None)
            } else {
                exists|r: Result<FileOp, SessionError>|
                    #[trigger] is_request(before, req, r, after) && is_step_of(r, step)
            },
            Frame::Malformed(text) => if before.partial is Some {
                step == Step::Reply(refusal(SessionError::InterruptedBlock)) && after
                    == before.with_partial(None)
            } else {
                step == Step::Reply(refusal(SessionError::Malformed(text))) && after == before
            },
        }
    }
}

/// The cursor of a session and what the session waits for.
struct Progress {
    size: u64,
    cursor: u64,
    phase: Phase,
}

impl Progress {
    #[verifier::type_invariant]
    spec fn inv(self) -> bool {
        self.state(None).wf()
    }

    /// The state of a session that has come this far and keeps `partial`.
    spec fn state(self, partial: Option<Seq<u8>>) -> SessionState {
        SessionState { size: self.size, cursor: self.cursor, partial, phase: self.phase }
    }

    fn execute_req(&mut self, req: Request) -> (r: Result<FileOp, SessionError>)
        requires
            old(self).phase is Idle,
        ensures
            forall|partial: Option<Seq<u8>>|
                is_request(
                    #[trigger] old(self).state(partial),
                    req,
                    r,
                    final(self).state(partial),
                ),
    {
        proof {
            use_type_invariant(&*self);
        }
        match req {
            Request::Seek { pos } => {
                if pos > self.size {
                    return Err(SessionError::OutOfRange);
                }
                self.phase = Phase::Seeking { pos };
                Ok(FileOp::Seek { pos })
            },
            Request::Finish => {
                self.phase = Phase::Finishing;
                Ok(FileOp::Flush)
            },
        }
    }

    fn write_data(&mut self, data: Vec<u8>) -> (r: Result<FileOp, SessionError>)
        requires
            old(self).phase is Idle,
        ensures
            forall|partial: Option<Seq<u8>>|
                is_write(#[trigger] old(self).state(partial), data@, r, final(self).state(partial)),
    {
        proof {
            use_type_invariant(&*self);
        }
        let room: u64 = self.size - self.cursor;
        if room == 0 {
            return Err(SessionError::EndOfFile);
        }
        let mut data = data;
        let given: usize = data.len();
        let len: u64 = if given as u64 > room {
            room
        } else {
            given as u64
        };
        data.truncate(len as usize);
        self.phase = Phase::Writing { len };
        Ok(FileOp::Write { offset: self.cursor, data })
    }

    fn complete(&mut self, outcome: IoOutcome) -> (r: Result<Response, SessionError>)
        ensures
            forall|partial: Option<Seq<u8>>|
                is_completion(
                    #[trigger] old(self).state(partial),
                    outcome,
                    r,
                    final(self).state(partial),
                ),
    {
        proof {
            use_type_invariant(&*self);
        }
        let phase = self.phase;
        self.phase = Phase::Idle;
        match outcome {
            IoOutcome::Failed(text) => Err(SessionError::Io(text)),
            IoOutcome::Done => match phase {
                Phase::Seeking { pos } => {
                    self.cursor = pos;
                    Ok(Response::Empty)
                },
                Phase::Writing { len } => {
                    self.cursor = self.cursor + len;
                    Ok(Response::BlockReceived { len, cur_pos: self.cursor })
                },
                _ => Ok(Response::Empty),
            },
        }
    }
}

/// The kept fragments, as bytes.
spec fn kept_bytes(partial: Option<Vec<u8>>) -> Option<Seq<u8>> {
    match partial {
        Some(kept) => Some(kept@),
        None => None,
    }
}

/// The upload session of one channel.
pub struct Session {
    progress: Progress,
    partial: Option<Vec<u8>>,
}

impl View for Session {
    type V = SessionState;

    closed spec fn view(&self) -> SessionState {
        self.progress.state(kept_bytes(self.partial))
    }
}

impl Session {
    /// A session on a file of `size` bytes that was just created: idle, the
    /// cursor at the start.
    pub fn new(size: u64) -> (s: Session)
        ensures
            s@ == (SessionState { size, cursor: 0, partial: None, phase: Phase::Idle }),
    {
        Session { progress: Progress { size, cursor: 0, phase: Phase::Idle }, partial: None }
    }

    /// The size that the file was created with.
    pub fn size(&self) -> (n: u64)
        ensures
            n == self@.size,
    {
        self.progress.size
    }

    /// Where the next block is written.
    pub fn cursor(&self) -> (n: u64)
        ensures
            n == self@.cursor,
            n <= self@.size,
    {
        proof {
            use_type_invariant(&self.progress);
        }
        self.progress.cursor
    }

    /// Where the session stands.
    pub fn phase(&self) -> (p: Phase)
        ensures
            p == self@.phase,
    {
        self.progress.phase
    }

    /// Whether the session waits for the outcome of a file operation.
    pub fn is_busy(&self) -> (b: bool)
        ensures
            b == self@.is_busy(),
    {
        match self.progress.phase {
            Phase::Seeking { .. } => true,
            Phase::Writing { .. } => true,
            Phase::Finishing => true,
            _ => false,
        }
    }

    /// Takes a command: the operation to carry out for it, or why there is
    /// none. A seek is refused where it leads beyond the size of the file,
    /// and to the very end it is in order.
    pub fn execute_req(&mut self, req: Request) -> (r: Result<FileOp, SessionError>)
        requires
            old(self)@.phase is Idle,
        ensures
            is_request(old(self)@, req, r, final(self)@),
            final(self)@.wf(),
    {
        let r = self.progress.execute_req(req);
        proof {
            use_type_invariant(&self.progress);
        }
        r
    }

    /// Takes a whole block: the write to carry out for it, or why there is
    /// none. What the file has no room for is cut off the block.
    pub fn write_data(&mut self, data: Vec<u8>) -> (r: Result<FileOp, SessionError>)
        requires
            old(self)@.phase is Idle,
        ensures
            is_write(old(self)@, data@, r, final(self)@),
            final(self)@.wf(),
    {
        let r = self.progress.write_data(data);
        proof {
            use_type_invariant(&self.progress);
        }
        r
    }

    /// Takes the outcome of the operation that the session waits for, and
    /// says what the client is told.
    pub fn complete(&mut self, outcome: IoOutcome) -> (r: Result<Response, SessionError>)
        requires
            old(self)@.is_busy(),
        ensures
            is_completion(old(self)@, outcome, r, final(self)@),
            final(self)@.wf(),
    {
        let r = self.progress.complete(outcome);
        proof {
            use_type_invariant(&self.progress);
        }
        r
    }

    /// Takes the outcome of the awaited operation and gives the
    /// acknowledgment to send.
    pub fn on_io(&mut self, outcome: IoOutcome) -> (ack: JsonResponse)
        requires
            old(self)@.is_busy(),
        ensures
            exists|r: Result<Response, SessionError>|
                #[trigger] is_completion(old(self)@, outcome, r, final(self)@) && ack
                    == acknowledgment(r),
            final(self)@.wf(),
    {
        let r = self.complete(outcome);
        JsonResponse::from(r)
    }

    /// Takes the next frame of the channel and says what is to be done.
    pub fn on_frame(&mut self, frame: Frame) -> (step: Step)
        requires
            !old(self)@.is_busy(),
        ensures
            is_step(old(self)@, frame, step, final(self)@),
            final(self)@.wf(),
    {
        proof {
            use_type_invariant(&self.progress);
        }
        if let Phase::Closed = self.progress.phase {
            return Step::Close;
        }
        match frame {
            Frame::TransportError => {
                self.partial = None;
                self.progress.phase = Phase::Closed;
                Step::Close
            },
            Frame::Pong => Step::Nothing,
            Frame::Other => Step::Nothing,
            Frame::FirstBinary(data) => {
                if self.partial.is_some() {
                    self.partial = None;
                    return Step::Reply(JsonResponse::from(Err(SessionError::InterruptedBlock)));
                }
                self.partial = Some(data);
                Step::Nothing
            },
            Frame::Continue(data) => {
                match self.partial.take() {
                    Some(kept) => {
                        let mut kept = kept;
                        let mut data = data;
                        kept.append(&mut data);
                        self.partial = Some(kept);
                        Step::Nothing
                    },
                    None => Step::Reply(JsonResponse::from(Err(SessionError::UnexpectedFragment))),
                }
            },
            Frame::Last(data) => {
                match self.partial.take() {
                    Some(kept) => {
                        let mut kept = kept;
                        let mut data = data;
                        kept.append(&mut data);
                        let r = self.write_data(kept);
                        Session::hand_on(r)
                    },
                    None => Step::Reply(JsonResponse::from(Err(SessionError::UnexpectedFragment))),
                }
            },
            Frame::Binary(data) => {
                if self.partial.is_some() {
                    self.partial = None;
                    return Step::Reply(JsonResponse::from(Err(SessionError::InterruptedBlock)));
                }
                let r = self.write_data(data);
                Session::hand_on(r)
            },
            Frame::Control(req) => {
                if self.partial.is_some() {
                    self.partial = None;
                    return Step::Reply(JsonResponse::from(Err(SessionError::InterruptedBlock)));
                }
                let r = self.execute_req(req);
                Session::hand_on(r)
            },
            Frame::Malformed(text) => {
                if self.partial.is_some() {
                    self.partial = None;
                    return Step::Reply(JsonResponse::from(Err(SessionError::InterruptedBlock)));
                }
                Step::Reply(JsonResponse::from(Err(SessionError::Malformed(text))))
            },
        }
    }

    /// The step for what a command or a block gave.
    fn hand_on(r: Result<FileOp, SessionError>) -> (step: Step)
        ensures
            is_step_of(r, step),
    {
        match r {
            Ok(op) => Step::Perform(op),
            Err(e) => Step::Reply(JsonResponse::from(Err(e))),
        }
    }
}

} // verus!
