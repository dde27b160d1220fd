//! Ramp state machine: turns a raw curve output into the PWM actually
//! written each tick.
//!
//! - Deadband: target changes smaller than the deadband are ignored.
//! - Ramp: asymmetric — fast up (heat is urgent), slow down (quiet decay).
//! - Floor: a fan never goes below `min_pwm`; fans never stop.

use vstd::prelude::*;

verus! {

#[derive(Debug, Clone, Copy, PartialEq, Eq)]
pub struct RampConfig {
    pub min_pwm: u8,
    pub max_step_up: u8,
    pub max_step_down: u8,
    pub deadband: u8,
}

/// The curve output shifted by a signed offset, clamped to 0..=255.
pub open spec fn offset_spec(raw: u8, offset: i16) -> int {
    let v = raw + offset;
    if v < 0 {
        0
    } else if v > 255 {
        255
    } else {
        v
    }
}

/// Add a signed per-channel offset to a curve output, clamped to 0..=255.
/// This runs *before* the ramp's `min_pwm` floor, so the floor still wins:
/// a negative offset can never push a fan below its minimum duty.
pub fn apply_offset(raw: u8, offset: i16) -> (out: u8)
    ensures
        out == offset_spec(raw, offset),
{
    let v: i32 = raw as i32 + offset as i32;
    if v < 0 {
        0
    } else if v > 255 {
        255
    } else {
        v as u8
    }
}

pub open spec fn max_int(a: int, b: int) -> int {
    if a >= b {
        a
    } else {
        b
    }
}

pub open spec fn min_int(a: int, b: int) -> int {
    if a <= b {
        a
    } else {
        b
    }
}

pub open spec fn abs_diff(a: int, b: int) -> int {
    if a >= b {
        a - b
    } else {
        b - a
    }
}

/// The duty the ramp aims at for a raw target: never below the floor.
pub open spec fn desired_spec(cfg: RampConfig, raw_target: u8) -> int {
    max_int(raw_target as int, cfg.min_pwm as int)
}

/// One ramp tick from `current` toward `raw_target`.
pub open spec fn step_spec(cfg: RampConfig, current: u8, raw_target: u8) -> int {
    let desired = desired_spec(cfg, raw_target);
    if current >= cfg.min_pwm && abs_diff(current as int, desired) < cfg.deadband {
        current as int
    } else if desired > current {
        max_int(min_int(min_int(current + cfg.max_step_up, 255), desired), cfg.min_pwm as int)
    } else {
        max_int(max_int(max_int(current - cfg.max_step_down, 0), desired), cfg.min_pwm as int)
    }
}

#[derive(Debug, Clone)]
pub struct Ramp {
    cfg: RampConfig,
    current: u8,
}

impl Ramp {
    pub closed spec fn config(&self) -> RampConfig {
        self.cfg
    }

    pub closed spec fn current_spec(&self) -> u8 {
        self.current
    }

    pub fn new(cfg: RampConfig, initial_pwm: u8) -> (r: Self)
        ensures
            r.config() == cfg,
            r.current_spec() == initial_pwm,
    {
        Ramp { cfg, current: initial_pwm }
    }

    pub fn current(&self) -> (c: u8)
        ensures
            c == self.current_spec(),
    {
        self.current
    }

    /// Advance one tick toward `raw_target` (the curve/mix output) and
    /// return the PWM to write.
    pub fn step(&mut self, raw_target: u8) -> (out: u8)
        ensures
            out == step_spec(old(self).config(), old(self).current_spec(), raw_target),
            final(self).current_spec() == out,
            final(self).config() == old(self).config(),
    {
        let cfg = self.cfg;
        let desired: u8 = if raw_target >= cfg.min_pwm { raw_target } else { cfg.min_pwm };
        let cur: u8 = self.current;
        let diff: u8 = if cur >= desired { cur - desired } else { desired - cur };
        // Deadband: don't chase small changes, but never hold a value below
        // the floor (the initial pwm comes from firmware and may sit under it).
        if cur >= cfg.min_pwm && diff < cfg.deadband {
            return cur;
        }
        let next: u8 = if desired > cur {
            let up: u8 = if cur as u16 + cfg.max_step_up as u16 > 255 { 255 } else { cur + cfg.max_step_up };
            if up < desired { up } else { desired }
        } else {
            let down: u8 = if cur < cfg.max_step_down { 0 } else { cur - cfg.max_step_down };
            if down > desired { down } else { desired }
        };
        let next: u8 = if next >= cfg.min_pwm { next } else { cfg.min_pwm };
        self.current = next;
        next
    }
}

/// Whatever the target, a ramp tick never leaves the fan below its floor
/// or above full duty.
pub proof fn lemma_step_within_floor_and_full(cfg: RampConfig, current: u8, raw_target: u8)
    ensures
        cfg.min_pwm <= step_spec(cfg, current, raw_target) <= 255,
{
}

/// A ramp tick never overshoots: the new duty lies between the current
/// duty and the (floored) target.
pub proof fn lemma_step_never_overshoots(cfg: RampConfig, current: u8, raw_target: u8)
    ensures
        min_int(current as int, desired_spec(cfg, raw_target)) <= step_spec(cfg, current, raw_target),
        step_spec(cfg, current, raw_target) <= max_int(current as int, desired_spec(cfg, raw_target)),
{
}

/// From at or above the floor, one tick moves the duty by at most
/// `max_step_up` upward and at most `max_step_down` downward.
pub proof fn lemma_step_rate_limited(cfg: RampConfig, current: u8, raw_target: u8)
    requires
        current >= cfg.min_pwm,
    ensures
        step_spec(cfg, current, raw_target) <= current + cfg.max_step_up,
        step_spec(cfg, current, raw_target) >= current - cfg.max_step_down,
{
}

/// From any duty, one tick moves by at most `max_step_down` downward, and
/// upward by at most `max_step_up`, except that a duty below the floor may
/// be lifted to the floor: it never rises above `max(current +
/// max_step_up, min_pwm)`.
pub proof fn lemma_step_bounded_from_any_duty(cfg: RampConfig, current: u8, raw_target: u8)
    ensures
        step_spec(cfg, current, raw_target) <= max_int(current + cfg.max_step_up, cfg.min_pwm as int),
        step_spec(cfg, current, raw_target) >= current - cfg.max_step_down,
{
}

/// At or above the floor, a target within the deadband of the current duty
/// leaves the duty unchanged.
pub proof fn lemma_deadband_holds(cfg: RampConfig, current: u8, raw_target: u8)
    requires
        current >= cfg.min_pwm,
        abs_diff(current as int, desired_spec(cfg, raw_target)) < cfg.deadband,
    ensures
        step_spec(cfg, current, raw_target) == current,
{
}

/// With non-zero step sizes, a tick that is not held by the deadband
/// strictly closes the gap to the (floored) target.
pub proof fn lemma_step_makes_progress(cfg: RampConfig, current: u8, raw_target: u8)
    requires
        cfg.max_step_up >= 1,
        cfg.max_step_down >= 1,
        current < cfg.min_pwm || abs_diff(current as int, desired_spec(cfg, raw_target)) >= cfg.deadband,
        current != desired_spec(cfg, raw_target),
    ensures
        abs_diff(step_spec(cfg, current, raw_target), desired_spec(cfg, raw_target))
            < abs_diff(current as int, desired_spec(cfg, raw_target)),
{
}

/// The duty after `k` ramp ticks from `current`, all toward `raw_target`.
pub open spec fn steps_spec(cfg: RampConfig, current: u8, raw_target: u8, k: nat) -> u8
    decreases k,
{
    if k == 0 {
        current
    } else {
        steps_spec(cfg, step_spec(cfg, current, raw_target) as u8, raw_target, (k - 1) as nat)
    }
}

/// The ramp has settled on `raw_target`: at or above the floor and within
/// the deadband of the (floored) target, or on it exactly.
pub open spec fn settled(cfg: RampConfig, current: u8, raw_target: u8) -> bool {
    current >= cfg.min_pwm && abs_diff(current as int, desired_spec(cfg, raw_target)) < max_int(cfg.deadband as int, 1)
}

/// How many more ticks an unsettled ramp can take: one more than its gap
/// to the target (none once settled).
pub open spec fn ticks_left(cfg: RampConfig, current: u8, raw_target: u8) -> int {
    if settled(cfg, current, raw_target) {
        0
    } else {
        abs_diff(current as int, desired_spec(cfg, raw_target)) + 1
    }
}

proof fn lemma_settled_is_fixed(cfg: RampConfig, current: u8, raw_target: u8, k: nat)
    requires
        settled(cfg, current, raw_target),
    ensures
        step_spec(cfg, current, raw_target) == current,
        steps_spec(cfg, current, raw_target, k) == current,
    decreases k,
{
    if k > 0 {
        lemma_settled_is_fixed(cfg, current, raw_target, (k - 1) as nat);
    }
}

proof fn lemma_settles_within(cfg: RampConfig, current: u8, raw_target: u8, k: nat)
    requires
        cfg.max_step_up >= 1,
        cfg.max_step_down >= 1,
        k >= ticks_left(cfg, current, raw_target),
    ensures
        settled(cfg, steps_spec(cfg, current, raw_target, k), raw_target),
    decreases k,
{
    if settled(cfg, current, raw_target) {
        lemma_settled_is_fixed(cfg, current, raw_target, k);
    } else {
        lemma_step_makes_progress(cfg, current, raw_target);
        lemma_step_within_floor_and_full(cfg, current, raw_target);
        let next = step_spec(cfg, current, raw_target) as u8;
        lemma_settles_within(cfg, next, raw_target, (k - 1) as nat);
    }
}

/// With non-zero step sizes, repeated ticks toward one target settle
/// within 256 ticks: the duty is then at or above the floor and within
/// `max(deadband, 1)` of the floored target, and every further tick
/// returns that same duty.
pub proof fn lemma_ramp_settles(cfg: RampConfig, current: u8, raw_target: u8, k: nat)
    requires
        cfg.max_step_up >= 1,
        cfg.max_step_down >= 1,
        k >= 256,
    ensures
        settled(cfg, steps_spec(cfg, current, raw_target, k), raw_target),
        steps_spec(cfg, current, raw_target, k) >= cfg.min_pwm,
        step_spec(cfg, steps_spec(cfg, current, raw_target, k), raw_target) == steps_spec(
            cfg,
            current,
            raw_target,
            k,
        ),
{
    lemma_settles_within(cfg, current, raw_target, k);
    lemma_settled_is_fixed(cfg, steps_spec(cfg, current, raw_target, k), raw_target, 0);
}

/// The offset result is always a valid duty and never exceeds the clamp
/// bounds; a zero offset is the identity.
pub proof fn lemma_offset_in_range(raw: u8, offset: i16)
    ensures
        0 <= offset_spec(raw, offset) <= 255,
        offset == 0 ==> offset_spec(raw, offset) == raw,
{
}

} // verus!
