use dicedb_rs::commands::{Command, ExecutionMode};
use dicedb_rs::session::SessionState;
use dicedb_rs::values::ScalarValue;
use dicedb_rs::watch::{WatchEnd, WatchState, WatchStream};

fn registered_stream(key: &str) -> WatchStream {
    let mut w = WatchStream::new();
    w.handshake_reply(ScalarValue::VStr("OK".to_string())).unwrap();
    let request = w.registration_request(key);
    assert_eq!(request, Command::GETWATCH { key: key.to_string() });
    w.on_registered(key.to_string());
    w
}

#[test]
fn test_watch_lifecycle() {
    let mut w = WatchStream::new();
    assert_eq!(w.state, WatchState::Created);
    assert_eq!(w.fingerprint, None);
    assert_eq!(w.session.mode, ExecutionMode::Watch);
    assert_eq!(w.session.id.len(), 36);
    w.handshake_reply(ScalarValue::VStr("OK".to_string())).unwrap();
    assert_eq!(w.state, WatchState::HandshakeOk);
    w.on_registered("k".to_string());
    assert_eq!(w.state, WatchState::Registered);
    assert_eq!(w.fingerprint, Some("k".to_string()));
    w.on_event();
    assert_eq!(w.state, WatchState::Streaming);
}

#[test]
fn test_watch_handshake_failure_closes() {
    let mut w = WatchStream::new();
    let r = w.handshake_reply(ScalarValue::VStr("NO".to_string()));
    assert!(r.is_err());
    assert_eq!(w.state, WatchState::Closed);
    assert_eq!(w.session.state, SessionState::Broken);
}

#[test]
fn test_watch_teardown_issues_one_unwatch() {
    // A live subscription with a fingerprint yields exactly one UNWATCH
    // for it; tearing down again yields nothing.
    let mut w = registered_stream("watchkey");
    let first = w.teardown_request();
    assert_eq!(
        first,
        Some(Command::UNWATCH {
            key: "watchkey".to_string()
        })
    );
    assert_eq!(w.state, WatchState::Closed);
    let second = w.teardown_request();
    assert_eq!(second, None);
}

#[test]
fn test_watch_teardown_after_stream_end_still_unwatches() {
    let mut w = registered_stream("k2");
    w.on_event();
    w.on_stream_end(WatchEnd::ReadFailed);
    assert_eq!(w.end_reason, Some(WatchEnd::ReadFailed));
    // Even after an error end, dropping still attempts the one
    // best-effort unwatch for the registered fingerprint.
    assert_eq!(
        w.teardown_request(),
        Some(Command::UNWATCH { key: "k2".to_string() })
    );
    assert_eq!(w.teardown_request(), None);
}

#[test]
fn test_watch_teardown_without_fingerprint() {
    let mut w = WatchStream::new();
    w.handshake_reply(ScalarValue::VStr("OK".to_string())).unwrap();
    // Registration never completed: nothing to unwatch.
    assert_eq!(w.teardown_request(), None);
    assert_eq!(w.state, WatchState::Closed);
}

#[test]
fn test_watch_end_reasons_distinguished() {
    let mut a = registered_stream("ka");
    a.on_stream_end(WatchEnd::DecodeFailed);
    let mut b = registered_stream("kb");
    b.on_stream_end(WatchEnd::ReadFailed);
    assert_ne!(a.end_reason, b.end_reason);
}
