//! Smoothing window sizing. The rolling average itself averages floating
//! point temperatures and lives with the caller; its window is sized in
//! ticks, not seconds.

use vstd::prelude::*;

verus! {

/// Window size in ticks for a smoothing duration: the duration divided by
/// the tick (a zero tick counts as one second), rounded up, at least 1.
pub open spec fn window_ticks_spec(smoothing_seconds: u64, tick_seconds: u64) -> int {
    let tick: int = if tick_seconds == 0 { 1 } else { tick_seconds as int };
    let q: int = (smoothing_seconds as int + tick - 1) / tick;
    if q < 1 {
        1
    } else {
        q
    }
}

/// Window size in ticks for a smoothing duration (rounds up, minimum 1).
pub fn window_ticks(smoothing_seconds: u64, tick_seconds: u64) -> (w: usize)
    ensures
        window_ticks_spec(smoothing_seconds, tick_seconds) <= usize::MAX ==> w == window_ticks_spec(
            smoothing_seconds,
            tick_seconds,
        ),
{
    let tick: u64 = if tick_seconds == 0 { 1 } else { tick_seconds };
    let d: u64 = smoothing_seconds / tick;
    let rem: u64 = smoothing_seconds % tick;
    proof {
        let s = smoothing_seconds as int;
        let t = tick as int;
        assert(s == t * d + rem && 0 <= rem < t) by (nonlinear_arith)
            requires
                t >= 1,
                d == s / t,
                rem == s % t,
        ;
        assert(rem != 0 ==> d < u64::MAX) by (nonlinear_arith)
            requires
                t >= 1,
                s == t * d + rem,
                0 <= rem < t,
                s <= u64::MAX,
        ;
    }
    let q: u64 = if rem != 0 { d + 1 } else { d };
    proof {
        let s = smoothing_seconds as int;
        let t = tick as int;
        assert(q == (s + t - 1) / t) by (nonlinear_arith)
            requires
                t >= 1,
                s == t * d + rem,
                0 <= rem < t,
                q == if rem != 0 { d + 1 } else { d as int },
        {
            if rem != 0 {
                assert(s + t - 1 == t * (d + 1) + (rem - 1));
            } else {
                assert(s + t - 1 == t * d + (t - 1));
            }
        }
    }
    if q < 1 {
        1
    } else {
        #[verifier::truncate]
        (q as usize)
    }
}

} // verus!
