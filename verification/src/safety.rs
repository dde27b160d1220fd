//! What a configuration that passes validation guarantees, stated
//! directly rather than as an absence of errors.

use vstd::prelude::*;
use crate::config::{
    has_key, is_pwm_name_spec, ChannelConfig, Config, CurveConfig, GraphCurve, MixCurve, SensorConfig, TriggerCurve,
    ValidationError, MAX_RESPONSE_SECONDS, MIN_PWM_FLOOR, PUMP_MIN_PWM_FLOOR,
};
use crate::curve_graph::{cycle_report_ok, has_cycle, reaches_trigger_spec};
use crate::validate::{
    channel_errors, channels_errors, curve_errors, curves_errors, earlier_duplicate, is_pump_channel, member_errors,
    point_pwm_errors, reported, unsorted_errors, validation_errors,
};

verus! {

/// A graph curve that can be evaluated: at least two points with strictly
/// rising temperatures, every duty a valid PWM, a configured sensor, and
/// hysteresis and response settings in range.
/// The point at `i` is hotter than the one before it.
pub open spec fn rises_at(pts: Seq<(i32, u16)>, i: int) -> bool {
    pts[i].0 > pts[i - 1].0
}

pub open spec fn graph_ok(sensors: Seq<(String, SensorConfig)>, g: GraphCurve) -> bool {
    let pts = g.points@;
    &&& pts.len() >= 2
    &&& forall|i: int| 1 <= i < pts.len() ==> #[trigger] rises_at(pts, i)
    &&& forall|i: int| 0 <= i < pts.len() ==> (#[trigger] pts[i]).1 <= 255
    &&& has_key(sensors, g.sensor@)
    &&& g.hysteresis_up_in_range
    &&& g.hysteresis_down_in_range
    &&& g.response_seconds <= MAX_RESPONSE_SECONDS
}

/// A mix with at least one member, every member a configured curve, and no
/// member named twice.
pub open spec fn mix_ok(curves: Seq<(String, CurveConfig)>, m: MixCurve) -> bool {
    let ms = m.curves@;
    &&& ms.len() >= 1
    &&& forall|i: int| 0 <= i < ms.len() ==> has_key(curves, (#[trigger] ms[i])@)
    &&& forall|j: int, k: int| 0 <= j < k < ms.len() ==> (#[trigger] ms[j])@ != (#[trigger] ms[k])@
}

pub open spec fn trigger_ok(sensors: Seq<(String, SensorConfig)>, t: TriggerCurve) -> bool {
    &&& t.thresholds_ordered
    &&& t.idle_pwm <= 255
    &&& t.load_pwm <= 255
    &&& has_key(sensors, t.sensor@)
    &&& t.response_seconds <= MAX_RESPONSE_SECONDS
}

pub open spec fn curve_ok(cfg: Config, c: CurveConfig) -> bool {
    match c {
        CurveConfig::Graph(g) => graph_ok(cfg.sensors@, g),
        CurveConfig::Mix(m) => mix_ok(cfg.curves@, m),
        CurveConfig::Flat(f) => f.pwm <= 255,
        CurveConfig::Trigger(t) => trigger_ok(cfg.sensors@, t),
    }
}

/// The duty floor of a channel: the pump header's is higher.
pub open spec fn channel_floor(name: Seq<char>) -> u8 {
    if is_pump_channel(name) {
        PUMP_MIN_PWM_FLOOR
    } else {
        MIN_PWM_FLOOR
    }
}

/// A channel that can be driven safely: a `pwmN` name, a configured curve,
/// a `min_pwm` at or above its floor, no trigger curve anywhere under the
/// pump, an offset within one full duty span, non-zero ramp steps and a
/// non-zero smoothing window.
pub open spec fn channel_ok(cfg: Config, name: String, ch: ChannelConfig) -> bool {
    &&& is_pwm_name_spec(name@)
    &&& has_key(cfg.curves@, ch.curve@)
    &&& ch.min_pwm >= channel_floor(name@)
    &&& !(is_pump_channel(name@) && reaches_trigger_spec(cfg.curves@, ch.curve@))
    &&& -255 <= ch.offset_pwm <= 255
    &&& ch.max_step_up >= 1
    &&& ch.max_step_down >= 1
    &&& ch.smoothing_seconds >= 1
}

/// Everything validation checks, stated directly.
pub open spec fn config_ok(cfg: Config) -> bool {
    &&& cfg.daemon.tick_seconds >= 1
    &&& forall|i: int| 0 <= i < cfg.curves@.len() ==> curve_ok(cfg, (#[trigger] cfg.curves@[i]).1)
    &&& !has_cycle(cfg.curves@)
    &&& forall|i: int|
        0 <= i < cfg.channels@.len() ==> channel_ok(cfg, (#[trigger] cfg.channels@[i]).0, cfg.channels@[i].1)
}

proof fn lemma_unsorted_empty(name: String, pts: Seq<(i32, u16)>, k: int)
    requires
        k <= pts.len(),
    ensures
        unsorted_errors(name, pts, k).len() == 0 <==> forall|i: int| 1 <= i < k ==> #[trigger] rises_at(pts, i),
    decreases k,
{
    if k > 1 {
        lemma_unsorted_empty(name, pts, k - 1);
        if unsorted_errors(name, pts, k).len() == 0 {
            assert forall|i: int| 1 <= i < k implies #[trigger] rises_at(pts, i) by {
                if i < k - 1 {
                    assert(unsorted_errors(name, pts, k - 1).len() == 0);
                }
            }
        } else if forall|i: int| 1 <= i < k ==> #[trigger] rises_at(pts, i) {
            assert(rises_at(pts, k - 1));
        }
    }
}

proof fn lemma_point_pwm_empty(name: String, pts: Seq<(i32, u16)>, k: int)
    requires
        k <= pts.len(),
    ensures
        point_pwm_errors(name, pts, k).len() == 0 <==> forall|i: int| 0 <= i < k ==> (#[trigger] pts[i]).1 <= 255,
    decreases k,
{
    if k > 0 {
        lemma_point_pwm_empty(name, pts, k - 1);
        if point_pwm_errors(name, pts, k).len() == 0 {
            assert forall|i: int| 0 <= i < k implies (#[trigger] pts[i]).1 <= 255 by {
                if i < k - 1 {
                    assert(point_pwm_errors(name, pts, k - 1).len() == 0);
                }
            }
        }
    }
}

proof fn lemma_member_empty(curves: Seq<(String, CurveConfig)>, name: String, ms: Seq<String>, k: int)
    requires
        k <= ms.len(),
    ensures
        member_errors(curves, name, ms, k).len() == 0 <==> (forall|i: int| 0 <= i < k ==> has_key(curves, (#[trigger] ms[i])@))
            && (forall|j: int, i: int| 0 <= j < i < k ==> (#[trigger] ms[j])@ != (#[trigger] ms[i])@),
    decreases k,
{
    if k > 0 {
        lemma_member_empty(curves, name, ms, k - 1);
        if member_errors(curves, name, ms, k).len() == 0 {
            assert(!earlier_duplicate(ms, k - 1));
            assert forall|j: int, i: int| 0 <= j < i < k implies (#[trigger] ms[j])@ != (#[trigger] ms[i])@ by {
                if i == k - 1 {
                    if ms[j]@ == ms[i]@ {
                        assert(earlier_duplicate(ms, k - 1));
                    }
                }
            }
            assert forall|i: int| 0 <= i < k implies has_key(curves, (#[trigger] ms[i])@) by {
                if i < k - 1 {
                    assert(member_errors(curves, name, ms, k - 1).len() == 0);
                }
            }
        } else {
            if (forall|i: int| 0 <= i < k ==> has_key(curves, (#[trigger] ms[i])@)) && (forall|j: int, i: int|
                0 <= j < i < k ==> (#[trigger] ms[j])@ != (#[trigger] ms[i])@) {
                assert(has_key(curves, ms[k - 1]@));
                if earlier_duplicate(ms, k - 1) {
                    let j = choose|j: int| 0 <= j < k - 1 && (#[trigger] ms[j])@ == ms[k - 1]@;
                    assert(ms[j]@ != ms[k - 1]@);
                }
            }
        }
    }
}

proof fn lemma_curve_errors_empty(cfg: Config, name: String, c: CurveConfig)
    ensures
        curve_errors(cfg, name, c).len() == 0 <==> curve_ok(cfg, c),
{
    match c {
        CurveConfig::Graph(g) => {
            lemma_unsorted_empty(name, g.points@, g.points@.len() as int);
            lemma_point_pwm_empty(name, g.points@, g.points@.len() as int);
        },
        CurveConfig::Mix(m) => {
            lemma_member_empty(cfg.curves@, name, m.curves@, m.curves@.len() as int);
        },
        _ => {},
    }
}

proof fn lemma_curves_errors_empty(cfg: Config, k: int)
    requires
        k <= cfg.curves@.len(),
    ensures
        curves_errors(cfg, k).len() == 0 <==> forall|i: int| 0 <= i < k ==> curve_ok(cfg, (#[trigger] cfg.curves@[i]).1),
    decreases k,
{
    if k > 0 {
        lemma_curves_errors_empty(cfg, k - 1);
        lemma_curve_errors_empty(cfg, cfg.curves@[k - 1].0, cfg.curves@[k - 1].1);
        if curves_errors(cfg, k).len() == 0 {
            assert forall|i: int| 0 <= i < k implies curve_ok(cfg, (#[trigger] cfg.curves@[i]).1) by {
                if i < k - 1 {
                    assert(curves_errors(cfg, k - 1).len() == 0);
                }
            }
        }
    }
}

proof fn lemma_channel_errors_empty(cfg: Config, name: String, ch: ChannelConfig)
    ensures
        channel_errors(cfg, name, ch).len() == 0 <==> channel_ok(cfg, name, ch),
{
}

proof fn lemma_channels_errors_empty(cfg: Config, k: int)
    requires
        k <= cfg.channels@.len(),
    ensures
        channels_errors(cfg, k).len() == 0 <==> forall|i: int|
            0 <= i < k ==> channel_ok(cfg, (#[trigger] cfg.channels@[i]).0, cfg.channels@[i].1),
    decreases k,
{
    if k > 0 {
        lemma_channels_errors_empty(cfg, k - 1);
        lemma_channel_errors_empty(cfg, cfg.channels@[k - 1].0, cfg.channels@[k - 1].1);
        if channels_errors(cfg, k).len() == 0 {
            assert forall|i: int| 0 <= i < k implies channel_ok(cfg, (#[trigger] cfg.channels@[i]).0, cfg.channels@[i].1) by {
                if i < k - 1 {
                    assert(channels_errors(cfg, k - 1).len() == 0);
                }
            }
        }
    }
}

/// Validation passes exactly on the configs that satisfy every rule: a
/// non-zero tick; each curve well-formed (graph points sorted with valid
/// duties and a known sensor, mixes non-empty with known, distinct
/// members, flat and trigger duties valid); no mix membership cycle; and
/// each channel safe (a `pwmN` name, a known curve, a `min_pwm` at or above
/// its floor — higher on the pump — no trigger curve under the pump, an
/// offset within ±255, non-zero ramp steps and smoothing).
pub proof fn lemma_validation_passes_iff_safe(cfg: Config, cycle_names: Seq<String>)
    requires
        cycle_report_ok(cfg.curves@, cycle_names),
    ensures
        validation_errors(cfg, cycle_names).len() == 0 <==> config_ok(cfg),
{
    lemma_curves_errors_empty(cfg, cfg.curves@.len() as int);
    lemma_channels_errors_empty(cfg, cfg.channels@.len() as int);
}

/// A config that [`Config::validate`] accepts satisfies every rule.
pub proof fn lemma_accepted_config_is_safe(cfg: Config, r: Result<(), Vec<ValidationError>>, cycle_names: Seq<String>)
    requires
        cycle_report_ok(cfg.curves@, cycle_names),
        reported(r) == validation_errors(cfg, cycle_names),
        r is Ok,
    ensures
        config_ok(cfg),
{
    lemma_validation_passes_iff_safe(cfg, cycle_names);
}

} // verus!
