use lighthouse::{
    parse_authorization_header, AuthError, Broker, Command, CommandOutcome, DeviceID,
    DevicePassword, DispatchError, Error, Frame, ResponseCode,
};

fn device(b: u8) -> DeviceID {
    DeviceID::from_bytes([b; 16])
}

fn secret(s: &str) -> DevicePassword {
    DevicePassword::from_bytes(s.as_bytes().to_vec())
}

fn broker_with(entries: &[(u8, &str)]) -> Broker {
    let table = entries
        .iter()
        .map(|(b, s)| (device(*b), secret(s)))
        .collect();
    Broker::new(table)
}

#[test]
fn scenario_connect_execute_disconnect() {
    let mut broker = broker_with(&[(1, "s3cret")]);
    let d1 = device(1);

    // device connects with its identity and valid secret
    assert_eq!(broker.connect(&d1, &secret("s3cret")), Ok(None));
    assert!(broker.is_connected(&d1));

    // an internal caller executes a command on it
    let frame = broker
        .execute_command(&d1, Command::OnOff { on: true })
        .unwrap();
    assert_eq!(
        frame,
        Frame::Execute {
            id: 0,
            command: Command::OnOff { on: true }
        }
    );

    // the device echoes a result frame over its connection
    let answer = Frame::ExecuteResponse {
        id: 0,
        response_code: ResponseCode::Accepted,
    };
    let delivery = broker.deliver_bytes(&d1, &answer.encode());
    assert_eq!(delivery.error, None);
    let outcome = delivery.outcome.expect("the caller should be resolved");
    assert_eq!(outcome, CommandOutcome::Completed(answer));
    assert_eq!(outcome.into_result(), Ok(answer));

    // the device's connection closes; nobody was waiting
    assert_eq!(broker.disconnect(&d1), None);
    assert!(!broker.is_connected(&d1));

    // a subsequent execute finds no device
    assert_eq!(
        broker.execute_command(&d1, Command::OnOff { on: false }),
        Err(DispatchError::DeviceNotConnected)
    );
}

#[test]
fn scenario_timeout_then_late_answer_is_discarded() {
    let mut broker = broker_with(&[(1, "pw")]);
    let d1 = device(1);
    broker.connect(&d1, &secret("pw")).unwrap();

    // the device never answers; the bounded wait fires
    broker.execute_command(&d1, Command::OnOff { on: true }).unwrap();
    let outcome = broker.deliver_timeout(&d1).expect("a caller was waiting");
    assert_eq!(outcome, CommandOutcome::TimedOut);
    assert_eq!(outcome.into_result(), Err(DispatchError::Timeout));

    // the late answer finally arrives and is discarded
    let late = Frame::ExecuteResponse {
        id: 0,
        response_code: ResponseCode::Accepted,
    };
    let delivery = broker.deliver_bytes(&d1, &late.encode());
    assert_eq!(delivery.outcome, None);
    assert_eq!(delivery.error, None);

    // the session stayed usable for a following command
    let frame = broker
        .execute_command(&d1, Command::OpenPercent { open_percent: 80 })
        .unwrap();
    assert_eq!(
        frame,
        Frame::Execute {
            id: 1,
            command: Command::OpenPercent { open_percent: 80 }
        }
    );
    let answer = Frame::ExecuteResponse {
        id: 1,
        response_code: ResponseCode::Accepted,
    };
    let delivery = broker.deliver_bytes(&d1, &answer.encode());
    assert_eq!(delivery.outcome, Some(CommandOutcome::Completed(answer)));
}

#[test]
fn scenario_bad_authentication_creates_no_session() {
    let mut broker = broker_with(&[(1, "pw")]);
    let unknown = device(9);

    // unknown identity: rejected before any session is created
    assert_eq!(
        broker.connect(&unknown, &secret("pw")),
        Err(AuthError::UnknownDevice)
    );
    assert!(!broker.is_connected(&unknown));

    // known identity, wrong secret: same, and lookup stays absent
    let d1 = device(1);
    assert_eq!(
        broker.connect(&d1, &secret("wrong")),
        Err(AuthError::InvalidPassword)
    );
    assert!(!broker.is_connected(&d1));
}

#[test]
fn busy_while_a_command_is_in_flight() {
    let mut broker = broker_with(&[(1, "pw")]);
    let d1 = device(1);
    broker.connect(&d1, &secret("pw")).unwrap();
    broker.execute_command(&d1, Command::OnOff { on: true }).unwrap();
    assert_eq!(
        broker.execute_command(&d1, Command::OnOff { on: false }),
        Err(DispatchError::Busy)
    );
}

#[test]
fn reconnect_evicts_and_fails_the_pending_caller() {
    let mut broker = broker_with(&[(1, "pw")]);
    let d1 = device(1);
    broker.connect(&d1, &secret("pw")).unwrap();
    broker.execute_command(&d1, Command::OnOff { on: true }).unwrap();

    // the device reconnects: the old session is evicted and its pending
    // caller observes Disconnected
    assert_eq!(
        broker.connect(&d1, &secret("pw")),
        Ok(Some(CommandOutcome::Disconnected))
    );
    assert!(broker.is_connected(&d1));

    // the new session starts clean
    let frame = broker.execute_command(&d1, Command::OnOff { on: true }).unwrap();
    assert_eq!(
        frame,
        Frame::Execute {
            id: 0,
            command: Command::OnOff { on: true }
        }
    );
}

#[test]
fn protocol_error_tears_the_session_down() {
    let mut broker = broker_with(&[(1, "pw")]);
    let d1 = device(1);
    broker.connect(&d1, &secret("pw")).unwrap();
    broker.execute_command(&d1, Command::OnOff { on: true }).unwrap();

    // the device sends garbage: fatal, the pending caller is failed
    let delivery = broker.deliver_bytes(&d1, &[0xff, 0xff]);
    assert_eq!(delivery.error, Some(Error::InvalidOpcode(0xff)));
    assert_eq!(delivery.outcome, Some(CommandOutcome::Disconnected));
    assert!(!broker.is_connected(&d1));
    assert_eq!(
        broker.execute_command(&d1, Command::OnOff { on: true }),
        Err(DispatchError::DeviceNotConnected)
    );
}

#[test]
fn answer_and_garbage_in_one_chunk_resolves_then_tears_down() {
    let mut broker = broker_with(&[(1, "pw")]);
    let d1 = device(1);
    broker.connect(&d1, &secret("pw")).unwrap();
    broker.execute_command(&d1, Command::OnOff { on: true }).unwrap();

    let answer = Frame::ExecuteResponse {
        id: 0,
        response_code: ResponseCode::Accepted,
    };
    let mut chunk = answer.encode();
    chunk.push(0x00); // unknown opcode after the whole answer
    let delivery = broker.deliver_bytes(&d1, &chunk);
    // frames are processed in arrival order: the answer lands first
    assert_eq!(delivery.outcome, Some(CommandOutcome::Completed(answer)));
    assert_eq!(delivery.error, Some(Error::InvalidOpcode(0x00)));
    assert!(!broker.is_connected(&d1));
}

#[test]
fn stray_frames_before_the_answer_are_skipped() {
    let mut broker = broker_with(&[(1, "pw")]);
    let d1 = device(1);
    broker.connect(&d1, &secret("pw")).unwrap();
    broker.execute_command(&d1, Command::OnOff { on: true }).unwrap();

    let stray = Frame::ConnACK {
        response_code: ResponseCode::Accepted,
    };
    let wrong_id = Frame::ExecuteResponse {
        id: 41,
        response_code: ResponseCode::Rejected,
    };
    let answer = Frame::ExecuteResponse {
        id: 0,
        response_code: ResponseCode::Accepted,
    };
    let mut chunk = stray.encode();
    chunk.extend_from_slice(&wrong_id.encode());
    chunk.extend_from_slice(&answer.encode());

    let delivery = broker.deliver_bytes(&d1, &chunk);
    assert_eq!(delivery.outcome, Some(CommandOutcome::Completed(answer)));
    assert_eq!(delivery.error, None);
    // the stray frames were discarded, not fatal: the session lives on
    assert!(broker.is_connected(&d1));
}

#[test]
fn only_the_first_matching_answer_counts() {
    let mut broker = broker_with(&[(1, "pw")]);
    let d1 = device(1);
    broker.connect(&d1, &secret("pw")).unwrap();
    broker.execute_command(&d1, Command::OnOff { on: true }).unwrap();

    let first = Frame::ExecuteResponse {
        id: 0,
        response_code: ResponseCode::Rejected,
    };
    let second = Frame::ExecuteResponse {
        id: 0,
        response_code: ResponseCode::Accepted,
    };
    let mut chunk = first.encode();
    chunk.extend_from_slice(&second.encode());

    let delivery = broker.deliver_bytes(&d1, &chunk);
    assert_eq!(delivery.outcome, Some(CommandOutcome::Completed(first)));
    assert_eq!(delivery.error, None);
}

#[test]
fn answer_split_across_reads_still_resolves_the_caller() {
    let mut broker = broker_with(&[(1, "pw")]);
    let d1 = device(1);
    broker.connect(&d1, &secret("pw")).unwrap();
    broker.execute_command(&d1, Command::OnOff { on: true }).unwrap();

    let answer = Frame::ExecuteResponse {
        id: 0,
        response_code: ResponseCode::Accepted,
    };
    let bytes = answer.encode();

    // the first read ends inside the frame: nothing resolves yet
    let first = broker.deliver_bytes(&d1, &bytes[..3]);
    assert_eq!(first.outcome, None);
    assert_eq!(first.error, None);

    // the rest arrives: the buffered prefix completes the frame
    let second = broker.deliver_bytes(&d1, &bytes[3..]);
    assert_eq!(second.outcome, Some(CommandOutcome::Completed(answer)));
    assert_eq!(second.error, None);
}

#[test]
fn bytes_for_an_unknown_device_are_dropped() {
    let mut broker = broker_with(&[(1, "pw")]);
    let delivery = broker.deliver_bytes(&device(9), &[0xff]);
    assert_eq!(delivery.outcome, None);
    assert_eq!(delivery.error, None);
}

#[test]
fn timeout_without_session_or_pending_is_none() {
    let mut broker = broker_with(&[(1, "pw")]);
    let d1 = device(1);
    assert_eq!(broker.deliver_timeout(&d1), None);
    broker.connect(&d1, &secret("pw")).unwrap();
    assert_eq!(broker.deliver_timeout(&d1), None);
}

#[test]
fn parse_authorization_header_accepts_basic_credentials() {
    let header = b"Basic 000102030405060708090a0b0c0d0e0f:hunter2";
    let (id, pw) = parse_authorization_header(header).unwrap();
    assert!(id.equals(&DeviceID::from_bytes([
        0, 1, 2, 3, 4, 5, 6, 7, 8, 9, 10, 11, 12, 13, 14, 15
    ])));
    assert!(pw.equals(&secret("hunter2")));
}

#[test]
fn parse_authorization_header_stops_the_secret_at_a_colon() {
    let header = b"Basic 000102030405060708090a0b0c0d0e0f:pw:ignored";
    let (_, pw) = parse_authorization_header(header).unwrap();
    assert!(pw.equals(&secret("pw")));
}

#[test]
fn parse_authorization_header_rejects_malformed_headers() {
    assert_eq!(
        parse_authorization_header(b""),
        Err(AuthError::MissingAuthType)
    );
    assert_eq!(
        parse_authorization_header(b"Bearer abc:def"),
        Err(AuthError::InvalidAuthType)
    );
    assert_eq!(
        parse_authorization_header(b"Basic"),
        Err(AuthError::MissingCredentials)
    );
    assert_eq!(
        parse_authorization_header(b"Basic "),
        Err(AuthError::MissingCredentials)
    );
    assert_eq!(
        parse_authorization_header(b"Basic 000102030405060708090a0b0c0d0e0f"),
        Err(AuthError::MissingPassword)
    );
    assert_eq!(
        parse_authorization_header(b"Basic 000102030405060708090a0b0c0d0e0f:"),
        Err(AuthError::MissingPassword)
    );
    assert_eq!(
        parse_authorization_header(b"Basic short:pw"),
        Err(AuthError::InvalidDeviceId(Error::InvalidSize {
            expected: 16,
            received: 2
        }))
    );
}
