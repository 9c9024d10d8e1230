use portrelay::relay::{
    CloseReason, Direction, ReadOutcome, RelayAction, RelaySession, RELAY_BUFFER_SIZE,
};

fn expect_forward(a: RelayAction) -> Vec<u8> {
    match a {
        RelayAction::Forward(bytes) => bytes,
        RelayAction::Shutdown => panic!("expected a forward, got a shutdown"),
    }
}

#[test]
fn buffer_size_is_fixed() {
    assert_eq!(RELAY_BUFFER_SIZE, 1024);
}

#[test]
fn bytes_are_forwarded_unchanged_and_in_order() {
    let mut s = RelaySession::new();
    let out = expect_forward(s.on_read(Direction::ClientToServer, ReadOutcome::Data(b"ping".to_vec())));
    assert_eq!(out, b"ping".to_vec());
    assert!(s.on_write_result(Direction::ClientToServer, true));
    let out = expect_forward(s.on_read(Direction::ClientToServer, ReadOutcome::Data(b" again".to_vec())));
    assert_eq!(out, b" again".to_vec());
    assert!(s.on_write_result(Direction::ClientToServer, true));
    assert!(s.is_open());
}

#[test]
fn echo_reply_travels_back_unchanged() {
    let mut s = RelaySession::new();
    let out = expect_forward(s.on_read(Direction::ClientToServer, ReadOutcome::Data(b"ping".to_vec())));
    assert_eq!(out, b"ping".to_vec());
    assert!(s.on_write_result(Direction::ClientToServer, true));
    let out = expect_forward(s.on_read(Direction::ServerToClient, ReadOutcome::Data(b"ECHO:ping".to_vec())));
    assert_eq!(out, b"ECHO:ping".to_vec());
    assert!(s.on_write_result(Direction::ServerToClient, true));
    assert!(s.is_open());
    assert!(matches!(
        s.on_read(Direction::ClientToServer, ReadOutcome::Data(Vec::new())),
        RelayAction::Shutdown
    ));
    assert!(!s.is_open());
    assert_eq!(s.close_reason(), Some(CloseReason::Eof));
}

#[test]
fn zero_byte_read_ends_the_session() {
    let mut s = RelaySession::new();
    let a = s.on_read(Direction::ServerToClient, ReadOutcome::Data(Vec::new()));
    assert!(matches!(a, RelayAction::Shutdown));
    assert!(!s.is_open());
    assert_eq!(s.close_reason(), Some(CloseReason::Eof));
}

#[test]
fn read_failure_ends_the_session() {
    let mut s = RelaySession::new();
    let a = s.on_read(Direction::ClientToServer, ReadOutcome::Failed);
    assert!(matches!(a, RelayAction::Shutdown));
    assert!(!s.is_open());
    assert_eq!(s.close_reason(), Some(CloseReason::IoFailure));
}

#[test]
fn write_failure_ends_the_session() {
    let mut s = RelaySession::new();
    let out = expect_forward(s.on_read(Direction::ClientToServer, ReadOutcome::Data(b"data".to_vec())));
    assert_eq!(out, b"data".to_vec());
    assert!(!s.on_write_result(Direction::ClientToServer, false));
    assert!(!s.is_open());
    assert_eq!(s.close_reason(), Some(CloseReason::IoFailure));
}

#[test]
fn two_sessions_do_not_share_data() {
    let mut a = RelaySession::new();
    let mut b = RelaySession::new();
    let out_a = expect_forward(a.on_read(Direction::ClientToServer, ReadOutcome::Data(b"from a".to_vec())));
    let out_b = expect_forward(b.on_read(Direction::ClientToServer, ReadOutcome::Data(b"from b".to_vec())));
    assert_eq!(out_a, b"from a".to_vec());
    assert_eq!(out_b, b"from b".to_vec());
    assert!(a.on_write_result(Direction::ClientToServer, true));
    assert!(b.on_write_result(Direction::ClientToServer, true));
    let _ = b.on_read(Direction::ServerToClient, ReadOutcome::Failed);
    assert!(a.is_open());
    assert!(!b.is_open());
}
