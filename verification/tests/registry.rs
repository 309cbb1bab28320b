use lighthouse::{
    Command, CommandOutcome, DeviceID, Registry, Session, SessionState,
};

fn device(b: u8) -> DeviceID {
    DeviceID::from_bytes([b; 16])
}

#[test]
fn lookup_on_empty_registry_is_absent() {
    let r = Registry::new();
    assert!(r.lookup(&device(1)).is_none());
    assert!(!r.contains(&device(1)));
}

#[test]
fn register_then_lookup_finds_the_session() {
    let mut r = Registry::new();
    let id = device(1);
    assert_eq!(r.register(&id, Session::new(id)), None);
    let s = r.lookup(&id).expect("session should be registered");
    assert!(s.device_id().equals(&id));
    assert_eq!(s.state(), SessionState::Idle);
}

#[test]
fn reregister_replaces_and_tears_down_the_old_session() {
    let mut r = Registry::new();
    let id = device(1);

    // s1 goes in and gets a command in flight
    let mut s1 = Session::new(id);
    s1.begin_execute(Command::OnOff { on: true }).unwrap();
    assert_eq!(r.register(&id, s1), None);

    // s2 replaces it: s1's pending caller observes Disconnected
    let s2 = Session::new(id);
    assert_eq!(r.register(&id, s2), Some(CommandOutcome::Disconnected));

    // lookup now returns s2: idle, request ids from zero again
    let s = r.lookup(&id).expect("replacement should be registered");
    assert_eq!(s.state(), SessionState::Idle);
}

#[test]
fn reregister_without_pending_caller_reports_nothing() {
    let mut r = Registry::new();
    let id = device(1);
    assert_eq!(r.register(&id, Session::new(id)), None);
    // the evicted session was idle: nobody to notify
    assert_eq!(r.register(&id, Session::new(id)), None);
}

#[test]
fn registries_keep_identities_apart() {
    let mut r = Registry::new();
    let a = device(1);
    let b = device(2);
    r.register(&a, Session::new(a));
    let mut sb = Session::new(b);
    sb.begin_execute(Command::OnOff { on: true }).unwrap();
    r.register(&b, sb);

    // replacing b leaves a untouched
    assert_eq!(r.register(&b, Session::new(b)), Some(CommandOutcome::Disconnected));
    assert!(r.contains(&a));
    assert_eq!(r.lookup(&a).unwrap().state(), SessionState::Idle);
}

#[test]
fn remove_is_idempotent() {
    let mut r = Registry::new();
    let id = device(1);
    assert_eq!(r.remove(&id), None); // absent: a no-op, not an error
    r.register(&id, Session::new(id));
    assert_eq!(r.remove(&id), None); // present but idle: nobody waiting
    assert!(!r.contains(&id));
    assert_eq!(r.remove(&id), None); // gone again: still a no-op
}

#[test]
fn remove_fails_the_pending_caller() {
    let mut r = Registry::new();
    let id = device(1);
    let mut s = Session::new(id);
    s.begin_execute(Command::OnOff { on: true }).unwrap();
    r.register(&id, s);
    assert_eq!(r.remove(&id), Some(CommandOutcome::Disconnected));
    assert!(!r.contains(&id));
}

#[test]
fn take_hands_the_live_session_out() {
    let mut r = Registry::new();
    let id = device(1);
    r.register(&id, Session::new(id));
    let s = r.take(&id).expect("session was registered");
    assert_eq!(s.state(), SessionState::Idle);
    assert!(!r.contains(&id));
    assert!(r.take(&id).is_none());
}
