use lighthouse::{
    Command, DeviceID, DispatchError, Frame, ResponseCode, Session, SessionState,
};

fn device() -> DeviceID {
    DeviceID::from_bytes([1u8; 16])
}

#[test]
fn fresh_session_is_idle() {
    let s = Session::new(device());
    assert_eq!(s.state(), SessionState::Idle);
    assert!(s.device_id().equals(&device()));
}

#[test]
fn begin_execute_claims_slot_and_numbers_requests() {
    let mut s = Session::new(device());
    let f = s.begin_execute(Command::OnOff { on: true }).unwrap();
    assert_eq!(
        f,
        Frame::Execute {
            id: 0,
            command: Command::OnOff { on: true }
        }
    );
    assert_eq!(s.state(), SessionState::AwaitingResponse { request_id: 0 });
}

#[test]
fn second_execute_fails_fast_with_busy() {
    let mut s = Session::new(device());
    s.begin_execute(Command::OnOff { on: true }).unwrap();
    // consistently: a pending slot refuses any further command, repeatedly
    assert_eq!(
        s.begin_execute(Command::OnOff { on: false }),
        Err(DispatchError::Busy)
    );
    assert_eq!(
        s.begin_execute(Command::OpenPercent { open_percent: 3 }),
        Err(DispatchError::Busy)
    );
    assert_eq!(s.state(), SessionState::AwaitingResponse { request_id: 0 });
}

#[test]
fn matching_response_resolves_slot() {
    let mut s = Session::new(device());
    s.begin_execute(Command::OnOff { on: true }).unwrap();
    let resp = Frame::ExecuteResponse {
        id: 0,
        response_code: ResponseCode::Accepted,
    };
    assert_eq!(s.handle_frame(resp), Some(resp));
    assert_eq!(s.state(), SessionState::Idle);
}

#[test]
fn stray_frames_are_discarded_not_fatal() {
    let mut s = Session::new(device());
    s.begin_execute(Command::OnOff { on: true }).unwrap();
    // wrong request id
    assert_eq!(
        s.handle_frame(Frame::ExecuteResponse {
            id: 9,
            response_code: ResponseCode::Accepted
        }),
        None
    );
    // unexpected opcode
    assert_eq!(
        s.handle_frame(Frame::ConnACK {
            response_code: ResponseCode::Accepted
        }),
        None
    );
    // still pending, still answerable
    assert_eq!(s.state(), SessionState::AwaitingResponse { request_id: 0 });
}

#[test]
fn timeout_releases_slot_and_late_answer_is_discarded() {
    let mut s = Session::new(device());
    s.begin_execute(Command::OnOff { on: true }).unwrap();
    assert!(s.on_timeout());
    assert_eq!(s.state(), SessionState::Idle);
    // the late answer to request 0 arrives after the caller moved on
    assert_eq!(
        s.handle_frame(Frame::ExecuteResponse {
            id: 0,
            response_code: ResponseCode::Accepted
        }),
        None
    );
    // the session stays usable, and the next request has a fresh id
    let f = s.begin_execute(Command::OnOff { on: false }).unwrap();
    assert_eq!(
        f,
        Frame::Execute {
            id: 1,
            command: Command::OnOff { on: false }
        }
    );
}

#[test]
fn timeout_without_pending_request_is_a_no_op() {
    let mut s = Session::new(device());
    assert!(!s.on_timeout());
    assert_eq!(s.state(), SessionState::Idle);
}

#[test]
fn close_reports_whether_a_caller_was_pending() {
    let mut idle = Session::new(device());
    assert!(!idle.close());
    assert_eq!(idle.state(), SessionState::Closed);

    let mut pending = Session::new(device());
    pending.begin_execute(Command::OnOff { on: true }).unwrap();
    assert!(pending.close());
    assert_eq!(pending.state(), SessionState::Closed);
    // closed is terminal
    assert_eq!(
        pending.begin_execute(Command::OnOff { on: true }),
        Err(DispatchError::Disconnected)
    );
}

#[test]
fn feed_reassembles_frames_across_chunks() {
    let mut s = Session::new(device());
    let f1 = Frame::ConnACK {
        response_code: ResponseCode::Accepted,
    };
    let f2 = Frame::ExecuteResponse {
        id: 3,
        response_code: ResponseCode::Rejected,
    };
    let mut stream = f1.encode();
    stream.extend_from_slice(&f2.encode());
    let cut: usize = 4; // inside the second frame
    let (frames, err) = s.feed(&stream[..cut]);
    assert_eq!(frames, vec![f1]);
    assert!(err.is_none());
    let (frames, err) = s.feed(&stream[cut..]);
    assert_eq!(frames, vec![f2]);
    assert!(err.is_none());
}

#[test]
fn feed_surfaces_fatal_decode_errors_after_whole_frames() {
    let mut s = Session::new(device());
    let f1 = Frame::ConnACK {
        response_code: ResponseCode::Accepted,
    };
    let mut stream = f1.encode();
    stream.push(0xee); // unknown opcode right after a whole frame
    let (frames, err) = s.feed(&stream);
    assert_eq!(frames, vec![f1]);
    assert_eq!(err, Some(lighthouse::Error::InvalidOpcode(0xee)));
}
