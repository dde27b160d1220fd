use fand::client::{
    bad_response, check_response, mutating_failure, version_mismatch_message, ClientError, ConfigSnapshot,
};
use fand::proto::{ConfigVersion, ErrorCode, PROTOCOL_VERSION};

#[test]
fn daemon_refusal_becomes_daemon_error() {
    match check_response(PROTOCOL_VERSION, false, Some("nope".to_string()), None) {
        Err(ClientError::Daemon(msg)) => assert_eq!(msg, "nope"),
        other => panic!("expected Daemon error, got {other:?}"),
    }
    match check_response(PROTOCOL_VERSION, false, None, None) {
        Err(ClientError::Daemon(msg)) => assert_eq!(msg, "unknown error"),
        other => panic!("expected Daemon error, got {other:?}"),
    }
}

#[test]
fn outcome_unknown_code_is_kept() {
    match check_response(PROTOCOL_VERSION, false, Some("timed out".to_string()), Some(ErrorCode::OutcomeUnknown)) {
        Err(ClientError::OutcomeUnknown(msg)) => assert_eq!(msg, "timed out"),
        other => panic!("expected OutcomeUnknown, got {other:?}"),
    }
}

#[test]
fn other_protocol_version_is_a_clean_refusal() {
    match check_response(PROTOCOL_VERSION + 1, true, None, None) {
        Err(ClientError::VersionMismatch(msg)) => assert_eq!(msg, version_mismatch_message(PROTOCOL_VERSION + 1)),
        other => panic!("expected VersionMismatch, got {other:?}"),
    }
    assert_eq!(
        version_mismatch_message(2),
        "daemon speaks protocol version 2 but this tool speaks 1 \u{2014} fand, fanctl and the GUI must be installed together"
    );
    assert!(check_response(PROTOCOL_VERSION, true, None, None).is_ok());
}

#[test]
fn garbage_becomes_protocol_error() {
    match bad_response("not json\n") {
        ClientError::Protocol(msg) => assert_eq!(msg, "bad response: not json"),
        other => panic!("expected Protocol error, got {other:?}"),
    }
}

#[test]
fn mutating_failures_after_send_are_outcome_unknown() {
    match mutating_failure(ClientError::Disconnected) {
        ClientError::OutcomeUnknown(m) => assert_eq!(m, "connection closed by daemon"),
        other => panic!("got {other:?}"),
    }
    match mutating_failure(ClientError::Protocol("bad response: x".to_string())) {
        ClientError::OutcomeUnknown(m) => assert_eq!(m, "bad response: x"),
        other => panic!("got {other:?}"),
    }
    let io = std::io::Error::new(std::io::ErrorKind::TimedOut, "timed out");
    assert!(matches!(mutating_failure(ClientError::Io(io)), ClientError::OutcomeUnknown(_)));
}

#[test]
fn known_refusals_stay_as_they_are() {
    assert!(matches!(mutating_failure(ClientError::Daemon("no".to_string())), ClientError::Daemon(m) if m == "no"));
    assert!(matches!(
        mutating_failure(ClientError::VersionMismatch("v".to_string())),
        ClientError::VersionMismatch(m) if m == "v"
    ));
    assert!(matches!(
        mutating_failure(ClientError::OutcomeUnknown("u".to_string())),
        ClientError::OutcomeUnknown(m) if m == "u"
    ));
}

#[test]
fn error_messages() {
    assert_eq!(ClientError::Disconnected.message(), "connection closed by daemon");
    assert_eq!(ClientError::Daemon("x".to_string()).message(), "daemon: x");
    assert_eq!(ClientError::OutcomeUnknown("lost".to_string()).message(), "outcome unknown (lost)");
    assert_eq!(ClientError::Protocol("p".to_string()).message(), "p");
    let io = std::io::Error::new(std::io::ErrorKind::Other, "boom");
    assert_eq!(ClientError::Io(io).message(), "boom");
}

#[test]
fn snapshot_carries_text_and_version() {
    let s = ConfigSnapshot { toml: "x = 1\n".to_string(), version: ConfigVersion { instance: 7, generation: 2 } };
    assert_eq!(s.clone(), s);
}
