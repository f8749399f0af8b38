use filelink::api::upload::session::{
    FileOp, Frame, IoOutcome, JsonResponse, Phase, Request, Response, Session, SessionError, Step,
};
use filelink::api::upload::{issue_upload, upload};
use filelink::api::Target;
use filelink::state::LinkTable;

/// Stands in for the file: carries out what the session hands out.
fn carry_out(file: &mut Vec<u8>, op: &FileOp) {
    match op {
        FileOp::Seek { pos } => assert!(*pos as usize <= file.len()),
        FileOp::Flush => {}
        FileOp::Write { offset, data } => {
            let start = *offset as usize;
            assert!(start + data.len() <= file.len());
            file[start..start + data.len()].copy_from_slice(data);
        }
    }
}

/// Feeds one frame and, where it calls for a file operation, carries it out.
fn feed(session: &mut Session, file: &mut Vec<u8>, frame: Frame) -> Option<JsonResponse> {
    assert!(!session.is_busy());
    match session.on_frame(frame) {
        Step::Reply(ack) => Some(ack),
        Step::Perform(op) => {
            assert!(session.is_busy());
            carry_out(file, &op);
            let ack = session.on_io(IoOutcome::Done);
            assert!(!session.is_busy());
            Some(ack)
        }
        Step::Nothing => None,
        Step::Close => None,
    }
}

fn done(inner: Response) -> Option<JsonResponse> {
    Some(JsonResponse { err: None, inner })
}

fn refused(e: SessionError) -> Option<JsonResponse> {
    Some(JsonResponse { err: Some(e), inner: Response::Empty })
}

#[test]
fn new_session_is_idle_at_the_start() {
    let s = Session::new(100);
    assert_eq!(s.size(), 100);
    assert_eq!(s.cursor(), 0);
    assert_eq!(s.phase(), Phase::Idle);
    assert!(!s.is_busy());
}

#[test]
fn upload_scenario_with_seek_and_overwrite() {
    let mut table = LinkTable::new();
    let link = issue_upload("reports/q1.csv", 100, Target::Missing, 0, &vec![9], &mut table).unwrap();
    let grant = upload(&link, 1, &mut table).unwrap();
    assert_eq!(grant.file, "files/reports/q1.csv");
    let mut file = vec![0u8; grant.size as usize];
    let mut session = Session::new(grant.size);

    let first: Vec<u8> = (0..60).map(|i| 200 + (i % 50) as u8).collect();
    assert_eq!(
        feed(&mut session, &mut file, Frame::Binary(first.clone())),
        done(Response::BlockReceived { len: 60, cur_pos: 60 })
    );
    assert_eq!(&file[..60], &first[..]);

    assert_eq!(
        feed(&mut session, &mut file, Frame::Control(Request::Seek { pos: 0 })),
        done(Response::Empty)
    );
    assert_eq!(session.cursor(), 0);

    let second: Vec<u8> = (0..100).collect();
    assert_eq!(
        feed(&mut session, &mut file, Frame::Binary(second.clone())),
        done(Response::BlockReceived { len: 100, cur_pos: 100 })
    );
    assert_eq!(file.len(), 100);
    assert_eq!(file, second);
}

#[test]
fn block_is_cut_to_what_is_left() {
    let mut session = Session::new(10);
    let mut file = vec![0u8; 10];
    assert_eq!(
        feed(&mut session, &mut file, Frame::Binary(vec![1; 7])),
        done(Response::BlockReceived { len: 7, cur_pos: 7 })
    );
    let step = session.on_frame(Frame::Binary(vec![2; 8]));
    assert_eq!(step, Step::Perform(FileOp::Write { offset: 7, data: vec![2; 3] }));
    assert_eq!(session.phase(), Phase::Writing { len: 3 });
    assert_eq!(
        session.on_io(IoOutcome::Done),
        JsonResponse { err: None, inner: Response::BlockReceived { len: 3, cur_pos: 10 } }
    );
    assert_eq!(session.cursor(), 10);
}

#[test]
fn write_at_the_end_is_refused() {
    let mut session = Session::new(4);
    let mut file = vec![0u8; 4];
    feed(&mut session, &mut file, Frame::Binary(vec![1; 4]));
    assert_eq!(session.cursor(), 4);
    assert_eq!(session.write_data(vec![9; 3]), Err(SessionError::EndOfFile));
    assert_eq!(feed(&mut session, &mut file, Frame::Binary(vec![9; 3])), refused(SessionError::EndOfFile));
    assert_eq!(feed(&mut session, &mut file, Frame::Binary(vec![])), refused(SessionError::EndOfFile));
    assert_eq!(file, vec![1; 4]);
    assert_eq!(session.cursor(), 4);
    assert_eq!(session.phase(), Phase::Idle);
}

#[test]
fn file_of_no_bytes_takes_no_block() {
    let mut session = Session::new(0);
    assert_eq!(session.write_data(vec![1]), Err(SessionError::EndOfFile));
    assert_eq!(session.execute_req(Request::Seek { pos: 0 }), Ok(FileOp::Seek { pos: 0 }));
}

#[test]
fn empty_block_before_the_end_writes_nothing() {
    let mut session = Session::new(4);
    let mut file = vec![7u8; 4];
    assert_eq!(
        feed(&mut session, &mut file, Frame::Binary(vec![])),
        done(Response::BlockReceived { len: 0, cur_pos: 0 })
    );
    assert_eq!(file, vec![7; 4]);
}

#[test]
fn seek_to_the_end_is_in_order() {
    let mut session = Session::new(100);
    assert_eq!(session.execute_req(Request::Seek { pos: 100 }), Ok(FileOp::Seek { pos: 100 }));
    assert_eq!(session.phase(), Phase::Seeking { pos: 100 });
    assert_eq!(session.complete(IoOutcome::Done), Ok(Response::Empty));
    assert_eq!(session.cursor(), 100);
}

#[test]
fn seek_beyond_the_end_is_out_of_range() {
    let mut session = Session::new(100);
    assert_eq!(session.execute_req(Request::Seek { pos: 101 }), Err(SessionError::OutOfRange));
    assert_eq!(session.execute_req(Request::Seek { pos: u64::MAX }), Err(SessionError::OutOfRange));
    assert_eq!(session.phase(), Phase::Idle);
    assert_eq!(session.cursor(), 0);
    let mut file = vec![0u8; 100];
    assert_eq!(
        feed(&mut session, &mut file, Frame::Control(Request::Seek { pos: 101 })),
        refused(SessionError::OutOfRange)
    );
}

#[test]
fn finish_flushes_and_leaves_the_cursor() {
    let mut session = Session::new(10);
    let mut file = vec![0u8; 10];
    feed(&mut session, &mut file, Frame::Binary(vec![1; 3]));
    assert_eq!(session.on_frame(Frame::Control(Request::Finish)), Step::Perform(FileOp::Flush));
    assert_eq!(session.phase(), Phase::Finishing);
    assert_eq!(session.on_io(IoOutcome::Done), JsonResponse { err: None, inner: Response::Empty });
    assert_eq!(session.cursor(), 3);
    // the channel stays open: more data is taken
    assert_eq!(
        feed(&mut session, &mut file, Frame::Binary(vec![2; 2])),
        done(Response::BlockReceived { len: 2, cur_pos: 5 })
    );
}

#[test]
fn fragments_are_put_together_before_they_are_written() {
    let mut session = Session::new(10);
    let mut file = vec![0u8; 10];
    assert_eq!(feed(&mut session, &mut file, Frame::FirstBinary(vec![1, 2])), None);
    assert_eq!(feed(&mut session, &mut file, Frame::Continue(vec![3])), None);
    assert_eq!(feed(&mut session, &mut file, Frame::Pong), None);
    assert_eq!(feed(&mut session, &mut file, Frame::Continue(vec![])), None);
    assert_eq!(file, vec![0; 10]);
    assert_eq!(session.cursor(), 0);
    assert_eq!(
        feed(&mut session, &mut file, Frame::Last(vec![4, 5])),
        done(Response::BlockReceived { len: 5, cur_pos: 5 })
    );
    assert_eq!(file, vec![1, 2, 3, 4, 5, 0, 0, 0, 0, 0]);
}

#[test]
fn fragmented_block_is_cut_as_a_whole() {
    let mut session = Session::new(4);
    let mut file = vec![0u8; 4];
    feed(&mut session, &mut file, Frame::FirstBinary(vec![1, 2, 3]));
    assert_eq!(
        session.on_frame(Frame::Last(vec![4, 5, 6])),
        Step::Perform(FileOp::Write { offset: 0, data: vec![1, 2, 3, 4] })
    );
}

#[test]
fn fragment_without_a_block_is_refused() {
    let mut session = Session::new(10);
    let mut file = vec![0u8; 10];
    assert_eq!(
        feed(&mut session, &mut file, Frame::Continue(vec![1])),
        refused(SessionError::UnexpectedFragment)
    );
    assert_eq!(
        feed(&mut session, &mut file, Frame::Last(vec![1])),
        refused(SessionError::UnexpectedFragment)
    );
    assert_eq!(file, vec![0; 10]);
    assert_eq!(session.cursor(), 0);
}

#[test]
fn frame_inside_a_block_drops_the_block() {
    let frames = [
        || Frame::Binary(vec![9]),
        || Frame::FirstBinary(vec![9]),
        || Frame::Control(Request::Seek { pos: 1 }),
        || Frame::Control(Request::Finish),
        || Frame::Malformed("parse JSON: eof".to_string()),
    ];
    for make in frames {
        let mut session = Session::new(10);
        let mut file = vec![0u8; 10];
        feed(&mut session, &mut file, Frame::FirstBinary(vec![1, 2]));
        assert_eq!(feed(&mut session, &mut file, make()), refused(SessionError::InterruptedBlock));
        assert_eq!(
            feed(&mut session, &mut file, Frame::Last(vec![3])),
            refused(SessionError::UnexpectedFragment)
        );
        assert_eq!(file, vec![0; 10]);
        assert_eq!(session.cursor(), 0);
    }
}

#[test]
fn malformed_control_frame_is_reported_and_the_session_goes_on() {
    let mut session = Session::new(10);
    let mut file = vec![0u8; 10];
    assert_eq!(
        feed(&mut session, &mut file, Frame::Malformed("parse JSON: expected value".to_string())),
        refused(SessionError::Malformed("parse JSON: expected value".to_string()))
    );
    assert_eq!(
        feed(&mut session, &mut file, Frame::Binary(vec![1])),
        done(Response::BlockReceived { len: 1, cur_pos: 1 })
    );
}

#[test]
fn pongs_and_unknown_frames_are_passed_over() {
    let mut session = Session::new(10);
    assert_eq!(session.on_frame(Frame::Pong), Step::Nothing);
    assert_eq!(session.on_frame(Frame::Other), Step::Nothing);
    assert_eq!(session.phase(), Phase::Idle);
}

#[test]
fn failed_write_is_reported_and_leaves_the_cursor() {
    let mut session = Session::new(10);
    let mut file = vec![0u8; 10];
    feed(&mut session, &mut file, Frame::Binary(vec![1; 4]));
    assert!(matches!(session.on_frame(Frame::Binary(vec![2; 4])), Step::Perform(_)));
    assert_eq!(
        session.on_io(IoOutcome::Failed("disk full".to_string())),
        JsonResponse { err: Some(SessionError::Io("disk full".to_string())), inner: Response::Empty }
    );
    assert_eq!(session.cursor(), 4);
    assert_eq!(session.phase(), Phase::Idle);
    // the next block goes where the failed one was meant to go
    assert_eq!(
        session.on_frame(Frame::Binary(vec![3; 2])),
        Step::Perform(FileOp::Write { offset: 4, data: vec![3; 2] })
    );
}

#[test]
fn failed_seek_and_flush_are_reported() {
    let mut session = Session::new(10);
    session.execute_req(Request::Seek { pos: 5 }).unwrap();
    assert_eq!(
        session.complete(IoOutcome::Failed("bad handle".to_string())),
        Err(SessionError::Io("bad handle".to_string()))
    );
    assert_eq!(session.cursor(), 0);
    session.execute_req(Request::Finish).unwrap();
    assert_eq!(
        session.complete(IoOutcome::Failed("io".to_string())),
        Err(SessionError::Io("io".to_string()))
    );
    assert_eq!(session.phase(), Phase::Idle);
}

#[test]
fn transport_failure_closes_the_session() {
    let mut session = Session::new(10);
    let mut file = vec![0u8; 10];
    feed(&mut session, &mut file, Frame::FirstBinary(vec![1]));
    assert_eq!(session.on_frame(Frame::TransportError), Step::Close);
    assert_eq!(session.phase(), Phase::Closed);
    for frame in [Frame::Binary(vec![1]), Frame::Last(vec![2]), Frame::Control(Request::Finish), Frame::Pong] {
        assert_eq!(session.on_frame(frame), Step::Close);
    }
    assert_eq!(session.cursor(), 0);
}

#[test]
fn acknowledgment_holds_an_error_or_a_payload() {
    assert_eq!(
        JsonResponse::from(Ok(Response::BlockReceived { len: 1, cur_pos: 2 })),
        JsonResponse { err: None, inner: Response::BlockReceived { len: 1, cur_pos: 2 } }
    );
    assert_eq!(
        JsonResponse::from(Err(SessionError::EndOfFile)),
        JsonResponse { err: Some(SessionError::EndOfFile), inner: Response::Empty }
    );
}

#[test]
fn errors_are_described_in_words() {
    assert_eq!(SessionError::OutOfRange.describe(), "cannot seek past end of file");
    assert_eq!(SessionError::EndOfFile.describe(), "already reached end of file");
    assert_eq!(SessionError::Malformed("parse JSON: x".to_string()).describe(), "parse JSON: x");
    assert_eq!(SessionError::Io("disk".to_string()).describe(), "disk");
    assert_eq!(SessionError::UnexpectedFragment.describe(), "unexpected continuation frame");
    assert_eq!(SessionError::InterruptedBlock.describe(), "data block interrupted by another frame");
}

#[test]
fn cursor_never_passes_the_size() {
    let mut session = Session::new(37);
    let mut file = vec![0u8; 37];
    let mut state: u64 = 7;
    for _ in 0..500 {
        state = state.wrapping_mul(6364136223846793005).wrapping_add(1442695040888963407);
        let pick = (state >> 33) % 4;
        let amount = (state >> 40) % 50;
        let frame = match pick {
            0 => Frame::Binary(vec![1; amount as usize]),
            1 => Frame::Control(Request::Seek { pos: amount }),
            2 => Frame::Control(Request::Finish),
            _ => Frame::Pong,
        };
        feed(&mut session, &mut file, frame);
        assert!(session.cursor() <= session.size());
        assert_eq!(file.len(), 37);
    }
}
