//! The socket client's verdicts on what came back: which replies are
//! errors, which errors are known refusals, and when a mutating command's
//! outcome must be reported as unknown. Sending and receiving lines is the
//! caller's part.

use vstd::prelude::*;
use crate::proto::{ConfigVersion, ErrorCode, PROTOCOL_VERSION};
use crate::text::{chars_of, decimal, push_char, push_decimal, trim, trim_chars};

verus! {

#[verifier::external_type_specification]
#[verifier::external_body]
pub struct ExIoError(std::io::Error);

/// The text `std::io::Error` displays: calls its `to_string`. What it says
/// comes from the operating system, so nothing is stated of it.
#[verifier::external_body]
fn io_error_text(e: &std::io::Error) -> String {
    e.to_string()
}

#[derive(Debug)]
pub enum ClientError {
    /// Socket-level failure (send/receive).
    Io(std::io::Error),
    /// The daemon closed the connection.
    Disconnected,
    /// The daemon sent something we could not interpret.
    Protocol(String),
    /// The daemon understood the request and refused it.
    Daemon(String),
    /// The peer speaks a different protocol version — a known, clean
    /// refusal (nothing was applied), kept apart from `Protocol` so
    /// mutating requests never blur it into "outcome unknown".
    VersionMismatch(String),
    /// The request may or may not have taken effect: the daemon said so,
    /// or the connection failed after a mutating command was sent.
    /// Callers must report it as "may or may not have applied".
    OutcomeUnknown(String),
}

/// What an error displays, for every variant but `Io` (whose text comes
/// from the operating system).
pub open spec fn error_text(e: ClientError) -> Seq<char> {
    match e {
        ClientError::Io(_) => Seq::empty(),
        ClientError::Disconnected => "connection closed by daemon"@,
        ClientError::Protocol(m) => m@,
        ClientError::Daemon(m) => "daemon: "@ + m@,
        ClientError::VersionMismatch(m) => m@,
        ClientError::OutcomeUnknown(c) => "outcome unknown ("@ + c@ + ")"@,
    }
}

impl ClientError {
    /// The error as shown to the user.
    pub fn message(&self) -> (m: String)
        ensures
            !(*self is Io) ==> m@ == error_text(*self),
    {
        match self {
            ClientError::Io(e) => io_error_text(e),
            ClientError::Disconnected => {
                let mut m = String::new();
                m.append("connection closed by daemon");
                m
            },
            ClientError::Protocol(msg) => msg.clone(),
            ClientError::Daemon(msg) => {
                let mut m = String::new();
                m.append("daemon: ");
                m.append(msg.as_str());
                m
            },
            ClientError::VersionMismatch(msg) => msg.clone(),
            ClientError::OutcomeUnknown(cause) => {
                let mut m = String::new();
                m.append("outcome unknown (");
                m.append(cause.as_str());
                m.append(")");
                m
            },
        }
    }
}

/// What [`crate::proto::Command::GetConfig`] returns: the applied config
/// text and the version identifying exactly which config state it is.
#[derive(Debug, Clone, PartialEq, Eq)]
pub struct ConfigSnapshot {
    pub toml: String,
    pub version: ConfigVersion,
}

pub open spec fn version_mismatch_text(daemon_version: u32) -> Seq<char> {
    "daemon speaks protocol version "@ + decimal(daemon_version as nat) + " but this tool speaks "@ + decimal(
        PROTOCOL_VERSION as nat,
    ) + " \u{2014} fand, fanctl and the GUI must be installed together"@
}

/// The refusal for a reply of another protocol version.
pub fn version_mismatch_message(daemon_version: u32) -> (m: String)
    ensures
        m@ == version_mismatch_text(daemon_version),
{
    let mut m = String::new();
    m.append("daemon speaks protocol version ");
    push_decimal(&mut m, daemon_version as u64);
    m.append(" but this tool speaks ");
    push_decimal(&mut m, PROTOCOL_VERSION as u64);
    m.append(" \u{2014} fand, fanctl and the GUI must be installed together");
    m
}

pub open spec fn refusal_text(error: Option<String>) -> Seq<char> {
    match error {
        Some(e) => e@,
        None => "unknown error"@,
    }
}

/// The verdict on a decoded reply, from its version, its `ok` flag, its
/// error text and its error code: a reply of another protocol version is a
/// version mismatch; a refusal flagged outcome-unknown stays that, any
/// other refusal is the daemon's error; otherwise the reply stands.
pub fn check_response(version: u32, ok: bool, error: Option<String>, code: Option<ErrorCode>) -> (r: Result<
    (),
    ClientError,
>)
    ensures
        version != PROTOCOL_VERSION ==> (r matches Err(ClientError::VersionMismatch(m)) && m@
            == version_mismatch_text(version)),
        version == PROTOCOL_VERSION && ok ==> r is Ok,
        version == PROTOCOL_VERSION && !ok && code is Some ==> (r matches Err(ClientError::OutcomeUnknown(m)) && m@
            == refusal_text(error)),
        version == PROTOCOL_VERSION && !ok && code is None ==> (r matches Err(ClientError::Daemon(m)) && m@
            == refusal_text(error)),
{
    if version != PROTOCOL_VERSION {
        return Err(ClientError::VersionMismatch(version_mismatch_message(version)));
    }
    if !ok {
        let message = match error {
            Some(e) => e,
            None => {
                let mut m = String::new();
                m.append("unknown error");
                m
            },
        };
        return match code {
            Some(ErrorCode::OutcomeUnknown) => Err(ClientError::OutcomeUnknown(message)),
            None => Err(ClientError::Daemon(message)),
        };
    }
    Ok(())
}

/// A reply line that is not a response: what it held, trimmed.
pub fn bad_response(line: &str) -> (e: ClientError)
    ensures
        e matches ClientError::Protocol(m) && m@ == "bad response: "@ + trim(line@),
{
    let v = chars_of(line);
    let t = trim_chars(&v);
    let mut m = String::new();
    m.append("bad response: ");
    let ghost start = m@;
    let mut i: usize = 0;
    while i < t.len()
        invariant
            0 <= i <= t.len(),
            m@ == start + t@.take(i as int),
        decreases t.len() - i,
    {
        push_char(&mut m, t[i]);
        assert(m@ =~= start + t@.take(i + 1));
        i = i + 1;
    }
    assert(t@.take(t.len() as int) =~= t@);
    ClientError::Protocol(m)
}

/// A known refusal: nothing was applied (or the daemon already said the
/// outcome is unknown).
pub open spec fn is_known_refusal(e: ClientError) -> bool {
    e is Daemon || e is VersionMismatch || e is OutcomeUnknown
}

/// What a failed mutating request reports once the command was sent:
/// explicit refusals stay as they are; any other failure (lost connection,
/// timeout, garbage) becomes outcome-unknown, because the daemon may have
/// applied the command without the reply getting through.
pub fn mutating_failure(e: ClientError) -> (r: ClientError)
    ensures
        is_known_refusal(e) ==> r == e,
        !is_known_refusal(e) ==> r is OutcomeUnknown,
        !is_known_refusal(e) && !(e is Io) ==> (r matches ClientError::OutcomeUnknown(m) && m@ == error_text(e)),
{
    match e {
        ClientError::Daemon(_) | ClientError::VersionMismatch(_) | ClientError::OutcomeUnknown(_) => e,
        _ => {
            let m = e.message();
            ClientError::OutcomeUnknown(m)
        },
    }
}

} // verus!
