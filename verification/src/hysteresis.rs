//! Input-side hysteresis + response time for graph curves.
//!
//! The filter sits between the smoothed sensor temperature and curve
//! interpolation. It holds an *accepted* temperature and only moves it when
//! the incoming temperature has departed by at least the rising or falling
//! threshold AND stayed departed for `response_seconds`. Small wiggles
//! inside the band — or excursions that retreat before the dwell elapses —
//! never reach the curve, so the fan speed stays put.
//!
//! Safety: with `ignore_at_extremes`, a temperature at or beyond the
//! curve's endpoint temperatures is accepted immediately — a spike past the
//! last point must reach full duty without waiting out a dwell timer.
//!
//! Temperatures are floating point; each sample arrives here already
//! classified against the accepted temperature and the endpoints, and the
//! filter answers whether to accept the new sample (the caller then
//! remembers it as the accepted temperature) or to keep the accepted one.

use vstd::prelude::*;
use crate::trigger::{dwell_done, dwell_elapsed};

verus! {

/// One sample, as seen from the accepted temperature.
#[derive(Debug, Clone, Copy, PartialEq, Eq)]
pub struct Sample {
    /// At or below the curve's first point, or at or beyond its last.
    pub beyond_endpoints: bool,
    /// Above the accepted temperature by at least the rising threshold.
    pub rising: bool,
    /// Below the accepted temperature by at least the falling threshold.
    pub falling: bool,
}

/// An excursion beyond the band that has not yet survived the dwell.
#[derive(Debug, Clone, Copy, PartialEq, Eq)]
pub struct Pending {
    pub rising: bool,
    pub since: u64,
}

#[derive(Debug, Clone, Copy, PartialEq, Eq)]
pub struct FilterState {
    /// A first sample has anchored the accepted temperature.
    pub anchored: bool,
    pub pending: Option<Pending>,
}

/// Whether to accept the sample, and the state afterwards.
pub open spec fn filter_next(
    st: FilterState,
    response_seconds: u64,
    ignore_at_extremes: bool,
    x: Sample,
    now: u64,
) -> (bool, FilterState) {
    if !st.anchored {
        (true, FilterState { anchored: true, pending: None })
    } else if ignore_at_extremes && x.beyond_endpoints {
        (true, FilterState { anchored: true, pending: None })
    } else if !x.rising && !x.falling {
        (false, FilterState { anchored: true, pending: None })
    } else if response_seconds == 0 {
        (true, st)
    } else {
        match st.pending {
            Some(p) if p.rising == x.rising => if dwell_done(now, p.since, response_seconds) {
                (true, FilterState { anchored: true, pending: None })
            } else {
                (false, st)
            },
            _ => (false, FilterState { anchored: true, pending: Some(Pending { rising: x.rising, since: now }) }),
        }
    }
}

#[derive(Debug, Clone)]
pub struct FilterCore {
    response_seconds: u64,
    ignore_at_extremes: bool,
    state: FilterState,
}

impl FilterCore {
    pub closed spec fn response_spec(&self) -> u64 {
        self.response_seconds
    }

    pub closed spec fn ignore_spec(&self) -> bool {
        self.ignore_at_extremes
    }

    pub closed spec fn state_spec(&self) -> FilterState {
        self.state
    }

    pub fn new(response_seconds: u64, ignore_at_extremes: bool) -> (f: Self)
        ensures
            f.response_spec() == response_seconds,
            f.ignore_spec() == ignore_at_extremes,
            f.state_spec() == (FilterState { anchored: false, pending: None }),
    {
        FilterCore { response_seconds, ignore_at_extremes, state: FilterState { anchored: false, pending: None } }
    }

    /// Feed one classified sample; `true` means the curve should see the
    /// new sample (which becomes the accepted temperature), `false` that it
    /// should keep seeing the accepted one.
    pub fn apply(&mut self, x: Sample, now: u64) -> (accept: bool)
        ensures
            (accept, final(self).state_spec()) == filter_next(
                old(self).state_spec(),
                old(self).response_spec(),
                old(self).ignore_spec(),
                x,
                now,
            ),
            final(self).response_spec() == old(self).response_spec(),
            final(self).ignore_spec() == old(self).ignore_spec(),
    {
        let st = self.state;
        if !st.anchored {
            self.state = FilterState { anchored: true, pending: None };
            return true;
        }
        if self.ignore_at_extremes && x.beyond_endpoints {
            self.state = FilterState { anchored: true, pending: None };
            return true;
        }
        if !x.rising && !x.falling {
            self.state = FilterState { anchored: true, pending: None };
            return false;
        }
        if self.response_seconds == 0 {
            return true;
        }
        match st.pending {
            Some(p) => {
                if p.rising == x.rising {
                    if dwell_elapsed(now, p.since, self.response_seconds) {
                        self.state = FilterState { anchored: true, pending: None };
                        true
                    } else {
                        false
                    }
                } else {
                    self.state = FilterState { anchored: true, pending: Some(Pending { rising: x.rising, since: now }) };
                    false
                }
            },
            None => {
                self.state = FilterState { anchored: true, pending: Some(Pending { rising: x.rising, since: now }) };
                false
            },
        }
    }
}

/// Once anchored, a sample inside the band (neither rising nor falling
/// past its threshold, and not bypassed at the extremes) is never accepted,
/// and it cancels any pending excursion.
pub proof fn lemma_band_holds(st: FilterState, response_seconds: u64, ignore: bool, x: Sample, now: u64)
    requires
        st.anchored,
        !x.rising && !x.falling,
        !(ignore && x.beyond_endpoints),
    ensures
        !filter_next(st, response_seconds, ignore, x, now).0,
        filter_next(st, response_seconds, ignore, x, now).1.pending is None,
{
}

/// With a response time, an excursion is only accepted once the same
/// direction has been pending for `response_seconds` — unless it is
/// bypassed at the curve's extremes.
pub proof fn lemma_accept_needs_dwell(st: FilterState, response_seconds: u64, ignore: bool, x: Sample, now: u64)
    requires
        st.anchored,
        response_seconds > 0,
        !(ignore && x.beyond_endpoints),
        filter_next(st, response_seconds, ignore, x, now).0,
    ensures
        st.pending matches Some(p) && p.rising == x.rising && dwell_done(now, p.since, response_seconds),
{
}

/// With the bypass enabled, a sample beyond the curve's endpoints is
/// accepted at once and clears any pending excursion.
pub proof fn lemma_extremes_bypass(st: FilterState, response_seconds: u64, x: Sample, now: u64)
    requires
        x.beyond_endpoints,
    ensures
        filter_next(st, response_seconds, true, x, now).0,
        filter_next(st, response_seconds, true, x, now).1.pending is None,
{
}

/// Accepting a sample clears any pending excursion, so the next excursion
/// starts its own dwell. (A filter without a response time never holds a
/// pending excursion, which the `requires` admits.)
pub proof fn lemma_accept_clears_pending(st: FilterState, response_seconds: u64, ignore: bool, x: Sample, now: u64)
    requires
        response_seconds > 0 || st.pending is None,
        filter_next(st, response_seconds, ignore, x, now).0,
    ensures
        filter_next(st, response_seconds, ignore, x, now).1.pending is None,
{
}

/// The filter's state after the first `k` samples of a run (sample `i`
/// classified as `xs[i]`, taken at `times[i]`), from a fresh filter.
pub open spec fn filter_run(
    response_seconds: u64,
    ignore: bool,
    xs: Seq<Sample>,
    times: Seq<u64>,
    k: nat,
) -> FilterState
    decreases k,
{
    if k == 0 {
        FilterState { anchored: false, pending: None }
    } else {
        filter_next(
            filter_run(response_seconds, ignore, xs, times, (k - 1) as nat),
            response_seconds,
            ignore,
            xs[k - 1],
            times[k - 1],
        ).1
    }
}

/// Whether sample `i` of a run is accepted.
pub open spec fn accepted_at(response_seconds: u64, ignore: bool, xs: Seq<Sample>, times: Seq<u64>, i: int) -> bool {
    filter_next(filter_run(response_seconds, ignore, xs, times, i as nat), response_seconds, ignore, xs[i], times[i]).0
}

/// A pending excursion after `k` samples began at some sample `j` taken at
/// its start time; every sample since then left the band in its direction
/// and none was accepted.
proof fn lemma_pending_run(response_seconds: u64, ignore: bool, xs: Seq<Sample>, times: Seq<u64>, k: nat)
    requires
        k <= xs.len(),
        xs.len() <= times.len(),
    ensures
        filter_run(response_seconds, ignore, xs, times, k).pending matches Some(p) ==> {
            &&& response_seconds > 0
            &&& exists|j: int|
                0 <= j < k && times[j] == p.since && forall|i: int|
                    j <= i < k ==> #[trigger] xs[i].rising == p.rising && (xs[i].rising || xs[i].falling)
                        && !accepted_at(response_seconds, ignore, xs, times, i)
        },
    decreases k,
{
    if k > 0 {
        let km = (k - 1) as nat;
        lemma_pending_run(response_seconds, ignore, xs, times, km);
        let st = filter_run(response_seconds, ignore, xs, times, km);
        let x = xs[km as int];
        let now = times[km as int];
        let next = filter_next(st, response_seconds, ignore, x, now);
        if let Some(p) = next.1.pending {
            assert(!next.0);
            if next.1 == st {
                let q = st.pending->0;
                let j = choose|j: int|
                    0 <= j < km && times[j] == q.since && forall|i: int|
                        j <= i < km ==> #[trigger] xs[i].rising == q.rising && (xs[i].rising || xs[i].falling)
                            && !accepted_at(response_seconds, ignore, xs, times, i);
                assert forall|i: int| j <= i < k implies #[trigger] xs[i].rising == p.rising && (xs[i].rising
                    || xs[i].falling) && !accepted_at(response_seconds, ignore, xs, times, i) by {
                    if i < km {
                    } else {
                        assert(i == km);
                    }
                }
            } else {
                assert(p.since == now && p.rising == x.rising);
                assert forall|i: int| km <= i < k implies #[trigger] xs[i].rising == p.rising && (xs[i].rising
                    || xs[i].falling) && !accepted_at(response_seconds, ignore, xs, times, i) by {
                    assert(i == km);
                }
            }
        }
    }
}

/// Over a run from a fresh filter with a response time, a sample that is
/// accepted (not the first, not bypassed at the extremes) ends an excursion
/// that began at some earlier sample `j`, after the last accepted sample:
/// every sample from `j` on left the band in the same direction, none of
/// them was accepted, and `response_seconds` passed from `j` to `k`.
pub proof fn lemma_accept_after_fresh_dwell(
    response_seconds: u64,
    ignore: bool,
    xs: Seq<Sample>,
    times: Seq<u64>,
    k: int,
)
    requires
        0 <= k < xs.len(),
        xs.len() <= times.len(),
        response_seconds > 0,
        filter_run(response_seconds, ignore, xs, times, k as nat).anchored,
        !(ignore && xs[k].beyond_endpoints),
        accepted_at(response_seconds, ignore, xs, times, k),
    ensures
        exists|j: int|
            0 <= j < k && dwell_done(times[k], times[j], response_seconds) && forall|i: int|
                j <= i < k ==> #[trigger] xs[i].rising == xs[k].rising && (xs[i].rising || xs[i].falling)
                    && !accepted_at(response_seconds, ignore, xs, times, i),
{
    let st = filter_run(response_seconds, ignore, xs, times, k as nat);
    lemma_accept_needs_dwell(st, response_seconds, ignore, xs[k], times[k]);
    lemma_pending_run(response_seconds, ignore, xs, times, k as nat);
}

} // verus!
