use fand::proto::{may_mutate, Command, ErrorCode, Request, PROTOCOL_VERSION, SOCKET_PATH};
use fand::server::{
    claimed_version, engine_timeout_reply, fand_group_gid, line_action, unsupported_version_message, LineAction,
};

#[test]
fn eof_truncated_record_is_never_executed() {
    assert_eq!(line_action(0, ""), LineAction::Eof);
    assert_eq!(line_action(17, "{\"cmd\":\"reload\"}"), LineAction::Truncated);
    assert_eq!(line_action(3, "  \n"), LineAction::Blank);
    assert_eq!(line_action(5, "{x}\n"), LineAction::Request);
    assert_eq!(line_action(4, "\r\n"), LineAction::Blank);
}

#[test]
fn version_refusal_names_both_versions() {
    assert_eq!(claimed_version(Some(7)), 7);
    assert_eq!(claimed_version(None), PROTOCOL_VERSION);
    assert_eq!(unsupported_version_message(7), "unsupported protocol version 7 (daemon speaks 1)");
}

#[test]
fn timed_out_mutation_is_reported_as_outcome_unknown() {
    assert_eq!(
        engine_timeout_reply(true),
        (
            "control loop did not respond in time (the command may still apply)".to_string(),
            Some(ErrorCode::OutcomeUnknown)
        )
    );
    assert_eq!(engine_timeout_reply(false), ("control loop did not respond in time".to_string(), None));
}

#[test]
fn reads_are_listed_and_everything_else_may_mutate() {
    assert!(!may_mutate(&Command::GetStatus));
    assert!(!may_mutate(&Command::SubscribeStatus));
    assert!(!may_mutate(&Command::GetConfig));
    assert!(may_mutate(&Command::ReloadConfig));
    assert!(may_mutate(&Command::SetConfig { toml: String::new() }));
    assert!(may_mutate(&Command::SetOverride { channel: "pwm2".to_string(), pwm: 100, ttl_seconds: 60 }));
    assert!(may_mutate(&Command::ClearOverride { channel: "pwm2".to_string() }));
}

#[test]
fn requests_carry_the_protocol_version() {
    let r = Request::new(Command::GetConfig);
    assert_eq!(r.version, PROTOCOL_VERSION);
    assert_eq!(r.cmd, Command::GetConfig);
    assert_eq!(SOCKET_PATH, "/run/fand/fand.sock");
}

#[test]
fn fand_group_gid_from_group_file() {
    let groups = "root:x:0:\nwheel:x:10:alice\nfand:x:977:alice,bob\nfand:x:5:\n";
    assert_eq!(fand_group_gid(groups), Some(977));
    assert_eq!(fand_group_gid("root:x:0:\n"), None);
    assert_eq!(fand_group_gid("fand:x\n"), None);
    assert_eq!(fand_group_gid("fand:x:notanumber:\n"), None);
    assert_eq!(fand_group_gid("fand:x:12:\r\nother:x:1:"), Some(12));
    assert_eq!(fand_group_gid("fandx:x:12:"), None);
    assert_eq!(fand_group_gid(""), None);
}
