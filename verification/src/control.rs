//! The control loop's per-channel decisions: manual overrides (their
//! safety floor, TTL and expiry), which duty the ramp chases each tick, and
//! whether a duty needs writing. Timestamps are monotonic nanoseconds.
//!
//! Any tick error drives every controlled fan to [`FAILSAFE_PWM`] and
//! hands the fans back to firmware (`pwmN_enable = FIRMWARE_AUTO`).

use vstd::prelude::*;
use crate::ramp::{apply_offset, offset_spec, step_spec, Ramp};
use crate::text::{chars_of, parses_unsigned, push_char, unsigned_value};
use crate::trigger::NANOS_PER_SECOND;

verus! {

/// On failure every controlled fan is driven to full before exiting.
pub const FAILSAFE_PWM: u8 = 255;

/// `pwmN_enable` value for manual control.
pub const MANUAL: u8 = 1;

/// `pwmN_enable` value for firmware auto control.
pub const FIRMWARE_AUTO: u8 = 5;

/// Longest allowed override TTL; a forgotten override must always hand
/// control back to the curves eventually.
pub const MAX_OVERRIDE_TTL_S: u64 = 3600;

/// A client-requested pin: the channel follows `pwm` (through the ramp)
/// instead of its curve until `expires_at`.
#[derive(Debug, Clone, Copy, PartialEq, Eq)]
pub struct Override {
    pub pwm: u8,
    pub expires_at: u64,
}

/// An override below the channel's floor is refused.
#[derive(Debug, Clone, Copy, PartialEq, Eq)]
pub struct BelowFloor {
    pub pwm: u8,
    pub floor: u8,
}

pub open spec fn clamp_ttl_spec(ttl_seconds: u64) -> int {
    if ttl_seconds < 1 {
        1
    } else if ttl_seconds > MAX_OVERRIDE_TTL_S {
        MAX_OVERRIDE_TTL_S as int
    } else {
        ttl_seconds as int
    }
}

/// The TTL actually applied: between 1 s and [`MAX_OVERRIDE_TTL_S`].
pub fn clamp_ttl(ttl_seconds: u64) -> (t: u64)
    ensures
        t == clamp_ttl_spec(ttl_seconds),
{
    if ttl_seconds < 1 {
        1
    } else if ttl_seconds > MAX_OVERRIDE_TTL_S {
        MAX_OVERRIDE_TTL_S
    } else {
        ttl_seconds
    }
}

/// Validate an override request against the channel's floor (its
/// `min_pwm`) and stamp its expiry. The floor check is the safety-critical
/// part: a channel can never be pinned below its `min_pwm`. On success
/// returns the override and the clamped TTL actually applied.
pub fn plan_override(pwm: u8, ttl_seconds: u64, min_pwm: u8, now: u64) -> (r: Result<(Override, u64), BelowFloor>)
    requires
        now + MAX_OVERRIDE_TTL_S * NANOS_PER_SECOND <= u64::MAX,
    ensures
        pwm < min_pwm ==> r == Err::<(Override, u64), BelowFloor>(BelowFloor { pwm, floor: min_pwm }),
        pwm >= min_pwm ==> (r matches Ok((o, ttl)) && ttl == clamp_ttl_spec(ttl_seconds) && o.pwm == pwm
            && o.expires_at == now + ttl * NANOS_PER_SECOND),
{
    if pwm < min_pwm {
        return Err(BelowFloor { pwm, floor: min_pwm });
    }
    let ttl = clamp_ttl(ttl_seconds);
    Ok((Override { pwm, expires_at: now + ttl * NANOS_PER_SECOND }, ttl))
}

#[derive(Debug, Clone, Copy, PartialEq, Eq)]
pub enum ChannelMode {
    /// Following its curve.
    Curve,
    /// Pinned by an override.
    Override,
}

impl ChannelMode {
    pub fn as_str(self) -> (s: &'static str)
        ensures
            s@ == match self {
                ChannelMode::Curve => "curve"@,
                ChannelMode::Override => "override"@,
            },
    {
        proof {
            reveal_strlit("curve");
            reveal_strlit("override");
        }
        match self {
            ChannelMode::Curve => "curve",
            ChannelMode::Override => "override",
        }
    }
}

/// What a channel chases this tick.
#[derive(Debug, Clone, Copy, PartialEq, Eq)]
pub struct TickTarget {
    pub ramp_target: u8,
    pub mode: ChannelMode,
    pub override_remaining_s: Option<u64>,
    /// The override has expired and must be dropped.
    pub expired: bool,
}

pub open spec fn resolve_target_spec(o: Option<Override>, raw_target: u8, now: u64) -> TickTarget {
    match o {
        Some(ov) => if now >= ov.expires_at {
            TickTarget { ramp_target: raw_target, mode: ChannelMode::Curve, override_remaining_s: None, expired: true }
        } else {
            let secs = (ov.expires_at - now) / NANOS_PER_SECOND as int;
            TickTarget {
                ramp_target: ov.pwm,
                mode: ChannelMode::Override,
                override_remaining_s: Some(if secs < 1 { 1 } else { secs as u64 }),
                expired: false,
            }
        },
        None => TickTarget { ramp_target: raw_target, mode: ChannelMode::Curve, override_remaining_s: None, expired: false },
    }
}

/// The duty a channel's ramp chases this tick: its curve's output, or an
/// unexpired override's pin (with the whole seconds it has left, at least
/// 1). An expired override is reported for removal and the curve takes
/// over on the same tick.
pub fn resolve_target(o: Option<Override>, raw_target: u8, now: u64) -> (t: TickTarget)
    ensures
        t == resolve_target_spec(o, raw_target, now),
{
    match o {
        Some(ov) => {
            if now >= ov.expires_at {
                TickTarget { ramp_target: raw_target, mode: ChannelMode::Curve, override_remaining_s: None, expired: true }
            } else {
                let secs = (ov.expires_at - now) / NANOS_PER_SECOND;
                TickTarget {
                    ramp_target: ov.pwm,
                    mode: ChannelMode::Override,
                    override_remaining_s: Some(if secs < 1 { 1 } else { secs }),
                    expired: false,
                }
            }
        },
        None => TickTarget { ramp_target: raw_target, mode: ChannelMode::Curve, override_remaining_s: None, expired: false },
    }
}

/// A duty is written only when it differs from the last one written.
pub fn needs_write(last_written: Option<u8>, pwm: u8) -> (b: bool)
    ensures
        b == (last_written != Some(pwm)),
{
    match last_written {
        Some(w) => w != pwm,
        None => true,
    }
}

/// Whether an override survives a config reload: its channel still exists
/// (with the new `min_pwm`) and its pin is still legal under the new floor.
pub fn override_survives(pwm: u8, new_min_pwm: Option<u8>) -> (b: bool)
    ensures
        b == (new_min_pwm matches Some(m) && pwm >= m),
{
    match new_min_pwm {
        Some(m) => pwm >= m,
        None => false,
    }
}

pub open spec fn pwm_index_spec(name: Seq<char>) -> Option<nat> {
    if name.len() >= 3 && name[0] == 'p' && name[1] == 'w' && name[2] == 'm' && parses_unsigned(
        name.skip(3),
        u32::MAX as int,
    ) {
        Some(unsigned_value(name.skip(3)))
    } else {
        None
    }
}

/// The hwmon index of a channel name `pwmN` (what `str::parse::<u32>`
/// makes of the text after `pwm`).
pub fn pwm_index(name: &str) -> (r: Option<u32>)
    ensures
        match r {
            Some(n) => pwm_index_spec(name@) == Some(n as nat),
            None => pwm_index_spec(name@) is None,
        },
{
    let v = chars_of(name);
    if v.len() < 3 || !(v[0] == 'p' && v[1] == 'w' && v[2] == 'm') {
        return None;
    }
    let mut rest = String::new();
    let mut i: usize = 3;
    while i < v.len()
        invariant
            3 <= i <= v.len(),
            v@ == name@,
            rest@ == v@.subrange(3, i as int),
        decreases v.len() - i,
    {
        let c = v[i];
        push_char(&mut rest, c);
        assert(rest@ =~= v@.subrange(3, i + 1));
        i = i + 1;
    }
    assert(rest@ =~= name@.skip(3));
    match crate::text::parse_unsigned(rest.as_str(), u32::MAX as u64) {
        Some(n) => Some(n as u32),
        None => None,
    }
}

/// An override that was accepted is never below the channel's floor, and
/// hands control back to the curve no later than [`MAX_OVERRIDE_TTL_S`]
/// seconds after it was set.
pub proof fn lemma_override_bounded(pwm: u8, ttl_seconds: u64, min_pwm: u8, now: u64, o: Override, ttl: u64, later: u64, raw: u8)
    requires
        pwm >= min_pwm,
        ttl == clamp_ttl_spec(ttl_seconds),
        o.pwm == pwm,
        o.expires_at == now + ttl * NANOS_PER_SECOND,
        later >= now + MAX_OVERRIDE_TTL_S * NANOS_PER_SECOND,
    ensures
        o.pwm >= min_pwm,
        1 <= ttl <= MAX_OVERRIDE_TTL_S,
        resolve_target_spec(Some(o), raw, later) == (TickTarget {
            ramp_target: raw,
            mode: ChannelMode::Curve,
            override_remaining_s: None,
            expired: true,
        }),
{
    assert(ttl * NANOS_PER_SECOND <= MAX_OVERRIDE_TTL_S * NANOS_PER_SECOND) by (nonlinear_arith)
        requires
            ttl <= MAX_OVERRIDE_TTL_S,
    ;
}

/// What one control tick does on a channel.
#[derive(Debug, Clone, Copy, PartialEq, Eq)]
pub struct ChannelTick {
    /// The duty the ramp produced.
    pub pwm: u8,
    /// Whether it differs from the last one written (and must be written).
    pub write: bool,
    /// What the ramp chased, and why.
    pub target: TickTarget,
}

/// One tick of a channel: the curve output shifted by the channel's
/// offset, replaced by an unexpired override's pin, chased by the ramp;
/// the duty is written only when it changed. Records the duty as written.
pub fn channel_tick(
    ramp: &mut Ramp,
    last_written: &mut Option<u8>,
    o: Option<Override>,
    raw_target: u8,
    offset_pwm: i16,
    now: u64,
) -> (t: ChannelTick)
    ensures
        t.target == resolve_target_spec(o, offset_spec(raw_target, offset_pwm) as u8, now),
        t.pwm == step_spec(old(ramp).config(), old(ramp).current_spec(), t.target.ramp_target),
        final(ramp).current_spec() == t.pwm,
        final(ramp).config() == old(ramp).config(),
        t.write == (*old(last_written) != Some(t.pwm)),
        *final(last_written) == Some(t.pwm),
{
    let curve_target = apply_offset(raw_target, offset_pwm);
    let target = resolve_target(o, curve_target, now);
    let pwm = ramp.step(target.ramp_target);
    let write = needs_write(*last_written, pwm);
    *last_written = Some(pwm);
    ChannelTick { pwm, write, target }
}

/// Whatever the curve asks, whatever override is pinned and wherever the
/// fan started, a tick's duty is at or above the ramp's floor; an
/// unexpired override is what the ramp chases, and an expired one is
/// reported for removal with the curve (plus offset) taking over.
pub proof fn lemma_tick_respects_floor_and_override(
    ramp_cfg: crate::ramp::RampConfig,
    current: u8,
    o: Option<Override>,
    raw_target: u8,
    offset_pwm: i16,
    now: u64,
)
    ensures
        ({
            let target = resolve_target_spec(o, offset_spec(raw_target, offset_pwm) as u8, now);
            &&& ramp_cfg.min_pwm <= step_spec(ramp_cfg, current, target.ramp_target) <= 255
            &&& o matches Some(ov) ==> (now < ov.expires_at ==> target.ramp_target == ov.pwm && target.mode
                == ChannelMode::Override)
            &&& o matches Some(ov) ==> (now >= ov.expires_at ==> target.expired && target.ramp_target
                == offset_spec(raw_target, offset_pwm))
            &&& o is None ==> target.ramp_target == offset_spec(raw_target, offset_pwm) && !target.expired
        }),
{
    crate::ramp::lemma_offset_in_range(raw_target, offset_pwm);
}

} // verus!
