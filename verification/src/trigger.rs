//! Trigger curves: a two-state latch that steps between an idle duty and a
//! load duty across a temperature deadband.
//!
//! The gap between the idle and load thresholds is the hysteresis — once
//! latched, the curve holds its state until the temperature crosses the
//! *far* threshold, so it never oscillates on a sensor hovering in the
//! middle. A crossing must also persist `response_seconds` before the latch
//! flips.
//!
//! The thresholds are floating point; each sample arrives here already
//! compared against them (`at_or_above_load`, `at_or_below_idle`).
//! Timestamps are monotonic nanoseconds.
//!
//! First-sample rule: latch to load only when the first sample is already
//! at/above the load threshold, otherwise idle.

use vstd::prelude::*;

verus! {

pub const NANOS_PER_SECOND: u64 = 1_000_000_000;

/// Time from `since` to `now`, saturating at zero.
pub open spec fn elapsed(now: u64, since: u64) -> int {
    if now >= since {
        now - since
    } else {
        0
    }
}

/// A dwell that started at `since` has lasted `response_seconds` by `now`.
pub open spec fn dwell_done(now: u64, since: u64, response_seconds: u64) -> bool {
    elapsed(now, since) >= response_seconds * NANOS_PER_SECOND
}

pub fn dwell_elapsed(now: u64, since: u64, response_seconds: u64) -> (b: bool)
    ensures
        b == dwell_done(now, since, response_seconds),
{
    let e: u64 = if now >= since { now - since } else { 0 };
    proof {
        assert(e / NANOS_PER_SECOND >= response_seconds <==> e >= response_seconds * NANOS_PER_SECOND) by (nonlinear_arith)
            requires
                NANOS_PER_SECOND == 1_000_000_000,
        {
            let q = e / NANOS_PER_SECOND;
            assert(e == NANOS_PER_SECOND * q + e % NANOS_PER_SECOND);
            if q >= response_seconds {
                assert(NANOS_PER_SECOND * q >= NANOS_PER_SECOND * response_seconds);
            } else {
                assert(NANOS_PER_SECOND * q + NANOS_PER_SECOND <= NANOS_PER_SECOND * response_seconds);
            }
        }
    }
    e / NANOS_PER_SECOND >= response_seconds
}

#[derive(Debug, Clone, Copy, PartialEq, Eq)]
pub struct LatchState {
    /// Latched to the load duty.
    pub loaded: bool,
    /// Set while the far threshold is crossed but the dwell has not yet
    /// elapsed; cleared the moment the temperature retreats.
    pub pending_since: Option<u64>,
}

/// The state after one sample.
pub open spec fn latch_next(
    state: Option<LatchState>,
    response_seconds: u64,
    at_or_above_load: bool,
    at_or_below_idle: bool,
    now: u64,
) -> LatchState {
    let s = match state {
        Some(s) => s,
        None => LatchState { loaded: at_or_above_load, pending_since: None },
    };
    let crossed = if s.loaded { at_or_below_idle } else { at_or_above_load };
    if crossed {
        let since = match s.pending_since {
            Some(t) => t,
            None => now,
        };
        if dwell_done(now, since, response_seconds) {
            LatchState { loaded: !s.loaded, pending_since: None }
        } else {
            LatchState { loaded: s.loaded, pending_since: Some(since) }
        }
    } else {
        LatchState { loaded: s.loaded, pending_since: None }
    }
}

#[derive(Debug, Clone)]
pub struct Latch {
    idle_pwm: u8,
    load_pwm: u8,
    response_seconds: u64,
    state: Option<LatchState>,
}

impl Latch {
    pub closed spec fn idle_pwm_spec(&self) -> u8 {
        self.idle_pwm
    }

    pub closed spec fn load_pwm_spec(&self) -> u8 {
        self.load_pwm
    }

    pub closed spec fn response_spec(&self) -> u64 {
        self.response_seconds
    }

    /// `None` before the first sample.
    pub closed spec fn state_spec(&self) -> Option<LatchState> {
        self.state
    }

    pub fn new(idle_pwm: u8, load_pwm: u8, response_seconds: u64) -> (l: Self)
        ensures
            l.idle_pwm_spec() == idle_pwm,
            l.load_pwm_spec() == load_pwm,
            l.response_spec() == response_seconds,
            l.state_spec() is None,
    {
        Latch { idle_pwm, load_pwm, response_seconds, state: None }
    }

    /// Feed one (smoothed) sample, already compared against the two
    /// thresholds; returns the latched duty.
    pub fn apply(&mut self, at_or_above_load: bool, at_or_below_idle: bool, now: u64) -> (pwm: u8)
        ensures
            final(self).state_spec() == Some(
                latch_next(old(self).state_spec(), old(self).response_spec(), at_or_above_load, at_or_below_idle, now),
            ),
            final(self).idle_pwm_spec() == old(self).idle_pwm_spec(),
            final(self).load_pwm_spec() == old(self).load_pwm_spec(),
            final(self).response_spec() == old(self).response_spec(),
            pwm == if final(self).state_spec()->0.loaded { old(self).load_pwm_spec() } else { old(self).idle_pwm_spec() },
    {
        let s = match self.state {
            Some(s) => s,
            None => LatchState { loaded: at_or_above_load, pending_since: None },
        };
        let crossed = if s.loaded { at_or_below_idle } else { at_or_above_load };
        let next = if crossed {
            let since = match s.pending_since {
                Some(t) => t,
                None => now,
            };
            if dwell_elapsed(now, since, self.response_seconds) {
                LatchState { loaded: !s.loaded, pending_since: None }
            } else {
                LatchState { loaded: s.loaded, pending_since: Some(since) }
            }
        } else {
            LatchState { loaded: s.loaded, pending_since: None }
        };
        self.state = Some(next);
        if next.loaded {
            self.load_pwm
        } else {
            self.idle_pwm
        }
    }
}

/// Inside the deadband (neither threshold crossed) a latched state holds
/// and any pending dwell is cancelled.
pub proof fn lemma_deadband_holds_latch(s: LatchState, response_seconds: u64, now: u64)
    ensures
        latch_next(Some(s), response_seconds, false, false, now) == (LatchState {
            loaded: s.loaded,
            pending_since: None,
        }),
{
}

/// The latch only flips on a crossing of the far threshold that has
/// persisted `response_seconds`, counted from the sample that first crossed
/// (or from now, for a dwell of zero).
pub proof fn lemma_flip_needs_dwell(
    s: LatchState,
    response_seconds: u64,
    at_or_above_load: bool,
    at_or_below_idle: bool,
    now: u64,
)
    requires
        latch_next(Some(s), response_seconds, at_or_above_load, at_or_below_idle, now).loaded != s.loaded,
    ensures
        s.loaded ==> at_or_below_idle,
        !s.loaded ==> at_or_above_load,
        dwell_done(now, match s.pending_since { Some(t) => t, None => now }, response_seconds),
{
}

/// With no dwell, a crossing of the far threshold flips the latch on the
/// same sample.
pub proof fn lemma_zero_response_flips_immediately(s: LatchState, at_or_above_load: bool, at_or_below_idle: bool, now: u64)
    requires
        if s.loaded { at_or_below_idle } else { at_or_above_load },
    ensures
        latch_next(Some(s), 0, at_or_above_load, at_or_below_idle, now).loaded == !s.loaded,
{
}

/// A sample crosses the far threshold of a latch in state `loaded`.
pub open spec fn crossed(loaded: bool, at_or_above_load: bool, at_or_below_idle: bool) -> bool {
    if loaded {
        at_or_below_idle
    } else {
        at_or_above_load
    }
}

/// The latch state after the first `k` samples of a run (sample `i`
/// compared against the thresholds as `above[i]`, `below[i]`, taken at
/// `times[i]`), starting before any sample.
pub open spec fn latch_run(
    response_seconds: u64,
    above: Seq<bool>,
    below: Seq<bool>,
    times: Seq<u64>,
    k: nat,
) -> Option<LatchState>
    decreases k,
{
    if k == 0 {
        None
    } else {
        Some(
            latch_next(
                latch_run(response_seconds, above, below, times, (k - 1) as nat),
                response_seconds,
                above[k - 1],
                below[k - 1],
                times[k - 1],
            ),
        )
    }
}

/// The first sample latches to load exactly when it is at or above the
/// load threshold (the thresholds cannot both be crossed at once).
pub proof fn lemma_first_sample_latch(response_seconds: u64, at_or_above_load: bool, at_or_below_idle: bool, now: u64)
    requires
        !(at_or_above_load && at_or_below_idle),
    ensures
        latch_next(None, response_seconds, at_or_above_load, at_or_below_idle, now).loaded == at_or_above_load,
{
}

/// While a dwell is pending after `k` samples, it started at some sample
/// `j` and every sample from `j` on crossed the far threshold of the
/// current state.
proof fn lemma_pending_is_sustained(
    response_seconds: u64,
    above: Seq<bool>,
    below: Seq<bool>,
    times: Seq<u64>,
    k: nat,
)
    requires
        1 <= k <= above.len(),
        above.len() <= below.len(),
        above.len() <= times.len(),
    ensures
        ({
            let s = latch_run(response_seconds, above, below, times, k)->0;
            s.pending_since matches Some(t) ==> exists|j: int|
                0 <= j < k && times[j] == t && forall|i: int| j <= i < k ==> #[trigger] crossed(s.loaded, above[i], below[i])
        }),
    decreases k,
{
    let s = latch_run(response_seconds, above, below, times, k)->0;
    let prev = latch_run(response_seconds, above, below, times, (k - 1) as nat);
    if let Some(t) = s.pending_since {
        let x = (k - 1) as int;
        match prev {
            Some(p) => {
                assert(crossed(p.loaded, above[x], below[x]));
                assert(s.loaded == p.loaded);
                match p.pending_since {
                    Some(t0) => {
                        lemma_pending_is_sustained(response_seconds, above, below, times, (k - 1) as nat);
                        let j = choose|j: int|
                            0 <= j < k - 1 && times[j] == t0 && forall|i: int|
                                j <= i < k - 1 ==> #[trigger] crossed(p.loaded, above[i], below[i]);
                        assert forall|i: int| j <= i < k implies #[trigger] crossed(s.loaded, above[i], below[i]) by {
                            if i < k - 1 {
                                assert(crossed(p.loaded, above[i], below[i]));
                            }
                        }
                    },
                    None => {
                        assert(times[x] == t);
                        assert forall|i: int| x <= i < k implies #[trigger] crossed(s.loaded, above[i], below[i]) by {
                            assert(i == x);
                        }
                    },
                }
            },
            None => {
                assert(times[x] == t);
                assert forall|i: int| x <= i < k implies #[trigger] crossed(s.loaded, above[i], below[i]) by {
                    assert(i == x);
                }
            },
        }
    }
}

/// Over consecutive samples, the latch flips on sample `k` only when
/// every sample from some `j <= k` through `k` crossed the far threshold of
/// the state it held, and `response_seconds` had passed from sample `j` to
/// sample `k`; a sample between the thresholds in that stretch would have
/// cancelled the dwell.
pub proof fn lemma_flip_after_sustained_crossing(
    response_seconds: u64,
    above: Seq<bool>,
    below: Seq<bool>,
    times: Seq<u64>,
    k: nat,
)
    requires
        1 <= k < above.len(),
        above.len() <= below.len(),
        above.len() <= times.len(),
        latch_run(response_seconds, above, below, times, k + 1)->0.loaded != latch_run(
            response_seconds,
            above,
            below,
            times,
            k,
        )->0.loaded,
    ensures
        exists|j: int|
            0 <= j <= k && dwell_done(times[k as int], times[j], response_seconds) && forall|i: int|
                j <= i <= k ==> #[trigger] crossed(
                    latch_run(response_seconds, above, below, times, k)->0.loaded,
                    above[i],
                    below[i],
                ),
{
    let s = latch_run(response_seconds, above, below, times, k)->0;
    let x = k as int;
    assert(crossed(s.loaded, above[x], below[x]));
    match s.pending_since {
        Some(t) => {
            lemma_pending_is_sustained(response_seconds, above, below, times, k);
            let j = choose|j: int|
                0 <= j < k && times[j] == t && forall|i: int| j <= i < k ==> #[trigger] crossed(s.loaded, above[i], below[i]);
            assert(dwell_done(times[x], times[j], response_seconds));
            assert forall|i: int| j <= i <= k implies #[trigger] crossed(s.loaded, above[i], below[i]) by {
                if i < k {
                    assert(crossed(s.loaded, above[i], below[i]));
                }
            }
        },
        None => {
            assert(dwell_done(times[x], times[x], response_seconds));
            assert forall|i: int| x <= i <= k implies #[trigger] crossed(s.loaded, above[i], below[i]) by {
                assert(i == x);
            }
        },
    }
}

} // verus!
