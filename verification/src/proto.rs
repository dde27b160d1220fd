//! Socket protocol types shared by daemon, CLI and GUI backend.
//!
//! Transport: Unix socket, newline-delimited JSON; every message carries a
//! protocol version. `SubscribeStatus` turns the connection into a one-way
//! push stream (one status frame per daemon tick); everything else is
//! request/response. The JSON framing itself is done by the caller.

use vstd::prelude::*;

verus! {

/// Protocol version stamped into every message.
pub const PROTOCOL_VERSION: u32 = 1;

/// Default socket path.
pub const SOCKET_PATH: &'static str = "/run/fand/fand.sock";

/// Which config state a config text is: a daemon lifetime (`instance`, a
/// random per-process token) and a generation counter within it.
/// Generations are only ever compared within one instance.
#[derive(Debug, Clone, Copy, PartialEq, Eq)]
pub struct ConfigVersion {
    pub instance: u64,
    pub generation: u64,
}

#[derive(Debug, Clone, PartialEq, Eq)]
pub enum Command {
    GetStatus,
    SubscribeStatus,
    /// Current applied config as TOML text (comments preserved).
    GetConfig,
    /// Validate, hot-apply, then persist to the daemon's config path.
    SetConfig { toml: String },
    /// Re-read the config file from disk and hot-apply it.
    ReloadConfig,
    /// Pin a channel to a fixed PWM until the TTL expires. The daemon
    /// enforces the channel's safety floor; this is not a raw write.
    SetOverride { channel: String, pwm: u8, ttl_seconds: u64 },
    ClearOverride { channel: String },
}

#[derive(Debug, Clone, PartialEq, Eq)]
pub struct Request {
    pub version: u32,
    pub cmd: Command,
}

impl Request {
    pub fn new(cmd: Command) -> (r: Self)
        ensures
            r.version == PROTOCOL_VERSION,
            r.cmd == cmd,
    {
        Request { version: PROTOCOL_VERSION, cmd }
    }
}

/// Whether a timed-out command could have changed daemon state. Reads are
/// listed explicitly so any future command defaults to mutating — the safe
/// direction is over-warning, never misreporting an applied change.
pub open spec fn may_mutate_spec(cmd: Command) -> bool {
    !(cmd is GetStatus || cmd is SubscribeStatus || cmd is GetConfig)
}

pub fn may_mutate(cmd: &Command) -> (b: bool)
    ensures
        b == may_mutate_spec(*cmd),
{
    match cmd {
        Command::GetStatus | Command::SubscribeStatus | Command::GetConfig => false,
        _ => true,
    }
}

/// Structured error codes a refusal may carry.
#[derive(Debug, Clone, Copy, PartialEq, Eq)]
pub enum ErrorCode {
    /// The command may or may not have been applied.
    OutcomeUnknown,
}

/// PWM values are raw 0-255. Clients display them as duty percentages.
#[derive(Debug, Clone, PartialEq, Eq)]
pub struct ChannelStatus {
    pub rpm: u32,
    /// PWM actually written this tick (ramp output).
    pub current_pwm: u8,
    /// Raw curve/mix target this tick, before deadband/ramping. Reports
    /// the curve value even while an override is active.
    pub target_pwm: u8,
    /// "curve" (following its curve) or "override" (pinned).
    pub mode: String,
    /// Seconds until an active override expires; absent in curve mode.
    pub override_remaining_s: Option<u64>,
}

} // verus!
