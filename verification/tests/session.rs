use dicedb_rs::commands::{Command, ExecutionMode};
use dicedb_rs::errors::{CommandStreamError, StreamError};
use dicedb_rs::session::{Session, SessionState};
use dicedb_rs::values::ScalarValue;

fn ready_session() -> Session {
    let mut s = Session::new(ExecutionMode::Command);
    s.on_connected();
    s.handshake_reply(ScalarValue::VStr("OK".to_string())).unwrap();
    s
}

#[test]
fn test_session_identifier_shape() {
    let s = Session::new(ExecutionMode::Command);
    assert_eq!(s.id.len(), 36);
    assert_eq!(s.state, SessionState::Unconnected);
    assert!(!s.in_flight);
    let other = Session::new(ExecutionMode::Command);
    assert_ne!(s.id, other.id);
}

#[test]
fn test_handshake_request_carries_identity() {
    let mut s = Session::new(ExecutionMode::Watch);
    s.on_connected();
    match s.handshake_request() {
        Command::HANDSHAKE { client_id, execution_mode } => {
            assert_eq!(client_id, s.id);
            assert_eq!(execution_mode, ExecutionMode::Watch);
        }
        other => panic!("expected a handshake, got {:?}", other),
    }
}

#[test]
fn test_handshake_ok_readies_session() {
    let mut s = Session::new(ExecutionMode::Command);
    s.on_connected();
    assert!(s.handshake_reply(ScalarValue::VStr("OK".to_string())).is_ok());
    assert_eq!(s.state, SessionState::Ready);
}

#[test]
fn test_handshake_err_string_breaks_session() {
    let mut s = Session::new(ExecutionMode::Command);
    s.on_connected();
    let r = s.handshake_reply(ScalarValue::VStr("ERR".to_string()));
    assert_eq!(
        r,
        Err(CommandStreamError::HandshakeError(ScalarValue::VStr(
            "ERR".to_string()
        )))
    );
    assert_eq!(s.state, SessionState::Broken);
}

#[test]
fn test_handshake_null_breaks_session() {
    let mut s = Session::new(ExecutionMode::Command);
    s.on_connected();
    let r = s.handshake_reply(ScalarValue::VNull);
    assert_eq!(
        r,
        Err(CommandStreamError::HandshakeError(ScalarValue::VNull))
    );
    assert_eq!(s.state, SessionState::Broken);
}

#[test]
fn test_handshake_integer_breaks_session() {
    let mut s = Session::new(ExecutionMode::Command);
    s.on_connected();
    let r = s.handshake_reply(ScalarValue::VInt(1));
    assert_eq!(r, Err(CommandStreamError::HandshakeError(ScalarValue::VInt(1))));
    assert_eq!(s.state, SessionState::Broken);
}

#[test]
fn test_exchange_discipline() {
    let mut s = ready_session();
    s.begin_exchange();
    assert!(s.in_flight);
    s.end_exchange();
    assert!(!s.in_flight);
}

#[test]
fn test_reconnect_succeeds_within_budget() {
    // Two failures, then a success: the budget of ten admits it, and the
    // session identifier survives the reconnect.
    let mut s = ready_session();
    s.on_io_failure();
    let id_before = s.id.clone();
    let outcomes = vec![false, false, true];
    assert_eq!(s.reconnect(&outcomes, 10), Ok(2));
    assert_eq!(s.state, SessionState::Connected);
    assert_eq!(s.id, id_before);
}

#[test]
fn test_reconnect_budget_exhausted() {
    let mut s = ready_session();
    s.on_io_failure();
    let id_before = s.id.clone();
    // Three failures against a budget of three: the fourth outcome is
    // never reached.
    let outcomes = vec![false, false, false, true];
    assert_eq!(
        s.reconnect(&outcomes, 3),
        Err(StreamError::ConnectionError("failed to reconnect".to_string()))
    );
    assert_eq!(s.state, SessionState::Broken);
    assert_eq!(s.id, id_before);
}

#[test]
fn test_reconnect_immediate_success() {
    let mut s = ready_session();
    s.on_io_failure();
    let outcomes = vec![true];
    assert_eq!(s.reconnect(&outcomes, 1), Ok(0));
    assert_eq!(s.state, SessionState::Connected);
}

#[test]
fn test_reconnect_after_success_needs_new_handshake() {
    let mut s = ready_session();
    s.on_io_failure();
    s.reconnect(&vec![true], 10).unwrap();
    // The fresh socket must be validated again before exchanges resume.
    assert_eq!(s.state, SessionState::Connected);
    assert!(s.handshake_reply(ScalarValue::VStr("OK".to_string())).is_ok());
    assert_eq!(s.state, SessionState::Ready);
}
