//! Full validation of a [`Config`] before it may be applied. Validation
//! collects *all* problems rather than stopping at the first, so a client
//! can show the user everything wrong with an edit at once.

use vstd::prelude::*;
use crate::config::{
    has_key, find_key, is_pwm_name, is_pwm_name_spec, ChannelConfig, Config, CurveConfig, GraphCurve, MixCurve,
    SensorConfig, TriggerCurve, ValidationError, MAX_HYSTERESIS_C, MAX_RESPONSE_SECONDS, MIN_PWM_FLOOR, PUMP_CHANNEL,
    PUMP_MIN_PWM_FLOOR,
};
use crate::curve_graph::{
    cycle_report_ok, detect_mix_cycles, mix_cycle_names, name_views, reaches_trigger, reaches_trigger_spec,
};
use crate::text::str_eq;

verus! {

pub open spec fn one_if(c: bool, e: ValidationError) -> Seq<ValidationError> {
    if c {
        seq![e]
    } else {
        Seq::empty()
    }
}

/// `CurveUnsorted` for each of the first `k` points (after the first) whose
/// temperature does not rise above its predecessor's.
pub open spec fn unsorted_errors(name: String, pts: Seq<(i32, u16)>, k: int) -> Seq<ValidationError>
    decreases k,
{
    if k <= 1 {
        Seq::empty()
    } else {
        unsorted_errors(name, pts, k - 1) + one_if(
            pts[k - 1].0 <= pts[k - 2].0,
            ValidationError::CurveUnsorted { curve: name, index: (k - 1) as usize },
        )
    }
}

/// `PwmOutOfRange` for each of the first `k` points whose pwm exceeds 255.
pub open spec fn point_pwm_errors(name: String, pts: Seq<(i32, u16)>, k: int) -> Seq<ValidationError>
    decreases k,
{
    if k <= 0 {
        Seq::empty()
    } else {
        point_pwm_errors(name, pts, k - 1) + one_if(
            pts[k - 1].1 > 255,
            ValidationError::PwmOutOfRange { curve: name, index: (k - 1) as usize, pwm: pts[k - 1].1 },
        )
    }
}

pub open spec fn graph_errors(sensors: Seq<(String, SensorConfig)>, name: String, g: GraphCurve) -> Seq<
    ValidationError,
> {
    let pts = g.points@;
    one_if(pts.len() < 2, ValidationError::CurveTooFewPoints(name)) + unsorted_errors(name, pts, pts.len() as int)
        + point_pwm_errors(name, pts, pts.len() as int) + one_if(
        !has_key(sensors, g.sensor@),
        ValidationError::CurveUnknownSensor { curve: name, sensor: g.sensor },
    ) + one_if(
        !g.hysteresis_up_in_range,
        ValidationError::BadHysteresis { curve: name, field: "hysteresis_up", max: MAX_HYSTERESIS_C },
    ) + one_if(
        !g.hysteresis_down_in_range,
        ValidationError::BadHysteresis { curve: name, field: "hysteresis_down", max: MAX_HYSTERESIS_C },
    ) + one_if(
        g.response_seconds > MAX_RESPONSE_SECONDS,
        ValidationError::BadHysteresis { curve: name, field: "response_seconds", max: MAX_RESPONSE_SECONDS as u32 },
    )
}

/// The name `members[k]` already occurs among `members[..k]`.
pub open spec fn earlier_duplicate(members: Seq<String>, k: int) -> bool {
    exists|j: int| 0 <= j < k && (#[trigger] members[j])@ == members[k]@
}

/// Member errors for the first `k` members of mix `name`.
pub open spec fn member_errors(
    curves: Seq<(String, CurveConfig)>,
    name: String,
    members: Seq<String>,
    k: int,
) -> Seq<ValidationError>
    decreases k,
{
    if k <= 0 {
        Seq::empty()
    } else {
        member_errors(curves, name, members, k - 1) + one_if(
            !has_key(curves, members[k - 1]@),
            ValidationError::MixUnknownCurve { curve: name, member: members[k - 1] },
        ) + one_if(
            earlier_duplicate(members, k - 1),
            ValidationError::DuplicateMixMember { curve: name, member: members[k - 1] },
        )
    }
}

pub open spec fn mix_errors(curves: Seq<(String, CurveConfig)>, name: String, m: MixCurve) -> Seq<ValidationError> {
    one_if(m.curves@.len() == 0, ValidationError::EmptyMix { curve: name }) + member_errors(
        curves,
        name,
        m.curves@,
        m.curves@.len() as int,
    )
}

pub open spec fn trigger_errors(sensors: Seq<(String, SensorConfig)>, name: String, t: TriggerCurve) -> Seq<
    ValidationError,
> {
    one_if(!t.thresholds_ordered, ValidationError::TriggerThresholdsUnordered { curve: name }) + one_if(
        t.idle_pwm > 255,
        ValidationError::TriggerPwmOutOfRange { curve: name, field: "idle", pwm: t.idle_pwm },
    ) + one_if(
        t.load_pwm > 255,
        ValidationError::TriggerPwmOutOfRange { curve: name, field: "load", pwm: t.load_pwm },
    ) + one_if(
        !has_key(sensors, t.sensor@),
        ValidationError::CurveUnknownSensor { curve: name, sensor: t.sensor },
    ) + one_if(
        t.response_seconds > MAX_RESPONSE_SECONDS,
        ValidationError::BadHysteresis { curve: name, field: "response_seconds", max: MAX_RESPONSE_SECONDS as u32 },
    )
}

pub open spec fn curve_errors(cfg: Config, name: String, c: CurveConfig) -> Seq<ValidationError> {
    match c {
        CurveConfig::Graph(g) => graph_errors(cfg.sensors@, name, g),
        CurveConfig::Mix(m) => mix_errors(cfg.curves@, name, m),
        CurveConfig::Flat(f) => one_if(f.pwm > 255, ValidationError::FlatPwmOutOfRange { curve: name, pwm: f.pwm }),
        CurveConfig::Trigger(t) => trigger_errors(cfg.sensors@, name, t),
    }
}

/// Per-curve errors of the first `k` curve entries, in table order.
pub open spec fn curves_errors(cfg: Config, k: int) -> Seq<ValidationError>
    decreases k,
{
    if k <= 0 {
        Seq::empty()
    } else {
        curves_errors(cfg, k - 1) + curve_errors(cfg, cfg.curves@[k - 1].0, cfg.curves@[k - 1].1)
    }
}

pub open spec fn is_pump_channel(name: Seq<char>) -> bool {
    name == PUMP_CHANNEL@
}

/// A channel's name and curve checks.
pub open spec fn channel_ref_errors(cfg: Config, name: String, ch: ChannelConfig) -> Seq<ValidationError> {
    one_if(!is_pwm_name_spec(name@), ValidationError::BadChannelName { channel: name }) + one_if(
        !has_key(cfg.curves@, ch.curve@),
        ValidationError::UnknownCurve { channel: name, curve: ch.curve },
    )
}

/// A channel's floor check: the pump header's floor is higher.
pub open spec fn channel_floor_errors(name: String, ch: ChannelConfig) -> Seq<ValidationError> {
    if is_pump_channel(name@) {
        one_if(
            ch.min_pwm < PUMP_MIN_PWM_FLOOR,
            ValidationError::MinPwmBelowPumpFloor { channel: name, min_pwm: ch.min_pwm, floor: PUMP_MIN_PWM_FLOOR },
        )
    } else {
        one_if(
            ch.min_pwm < MIN_PWM_FLOOR,
            ValidationError::MinPwmBelowFloor { channel: name, min_pwm: ch.min_pwm, floor: MIN_PWM_FLOOR },
        )
    }
}

/// A channel's pump-trigger, offset, step and smoothing checks.
pub open spec fn channel_tuning_errors(cfg: Config, name: String, ch: ChannelConfig) -> Seq<ValidationError> {
    one_if(
        is_pump_channel(name@) && reaches_trigger_spec(cfg.curves@, ch.curve@),
        ValidationError::TriggerOnPumpChannel { channel: name, curve: ch.curve },
    ) + one_if(
        ch.offset_pwm < -255 || ch.offset_pwm > 255,
        ValidationError::OffsetOutOfRange { channel: name, offset: ch.offset_pwm },
    ) + one_if(
        ch.max_step_up == 0 || ch.max_step_down == 0,
        ValidationError::ZeroStep { channel: name },
    ) + one_if(ch.smoothing_seconds == 0, ValidationError::ZeroSmoothing { channel: name })
}

pub open spec fn channel_errors(cfg: Config, name: String, ch: ChannelConfig) -> Seq<ValidationError> {
    channel_ref_errors(cfg, name, ch) + channel_floor_errors(name, ch) + channel_tuning_errors(cfg, name, ch)
}

/// Per-channel errors of the first `k` channel entries, in table order.
pub open spec fn channels_errors(cfg: Config, k: int) -> Seq<ValidationError>
    decreases k,
{
    if k <= 0 {
        Seq::empty()
    } else {
        channels_errors(cfg, k - 1) + channel_errors(cfg, cfg.channels@[k - 1].0, cfg.channels@[k - 1].1)
    }
}

/// Every error of `cfg`, given the names its cycle check reports: the
/// tick check, then each curve's checks in table order, then one
/// `MixCycle` per reported curve, then each channel's checks in table
/// order.
pub open spec fn validation_errors(cfg: Config, cycle_names: Seq<String>) -> Seq<ValidationError> {
    one_if(cfg.daemon.tick_seconds == 0, ValidationError::TickZero) + curves_errors(cfg, cfg.curves@.len() as int)
        + cycle_names.map_values(|c: String| ValidationError::MixCycle { curve: c }) + channels_errors(
        cfg,
        cfg.channels@.len() as int,
    )
}

pub open spec fn reported(r: Result<(), Vec<ValidationError>>) -> Seq<ValidationError> {
    match r {
        Ok(()) => Seq::empty(),
        Err(v) => v@,
    }
}

fn push_if(errs: &mut Vec<ValidationError>, c: bool, e: ValidationError)
    ensures
        final(errs)@ == old(errs)@ + one_if(c, e),
{
    if c {
        errs.push(e);
    } else {
        assert(old(errs)@ + one_if(c, e) =~= old(errs)@);
    }
}

#[verifier::rlimit(60)]
fn validate_graph(
    sensors: &Vec<(String, SensorConfig)>,
    name: &String,
    g: &GraphCurve,
    errs: &mut Vec<ValidationError>,
)
    ensures
        final(errs)@ == old(errs)@ + graph_errors(sensors@, *name, *g),
{
    let ghost e0 = errs@;
    let ghost pts = g.points@;
    push_if(errs, g.points.len() < 2, ValidationError::CurveTooFewPoints(name.clone()));
    let ghost e1 = errs@;
    let mut i: usize = 1;
    while i < g.points.len()
        invariant
            pts == g.points@,
            1 <= i <= pts.len() || (i == 1 && pts.len() == 0),
            errs@ == e1 + unsorted_errors(*name, pts, i as int),
        decreases g.points.len() - i,
    {
        let ghost before = errs@;
        push_if(
            errs,
            g.points[i].0 <= g.points[i - 1].0,
            ValidationError::CurveUnsorted { curve: name.clone(), index: i },
        );
        assert(errs@ =~= e1 + unsorted_errors(*name, pts, i + 1));
        i = i + 1;
    }
    assert(errs@ =~= e1 + unsorted_errors(*name, pts, pts.len() as int)) by {
        if pts.len() == 0 {
            assert(unsorted_errors(*name, pts, 0) =~= unsorted_errors(*name, pts, 1));
        }
    }
    let ghost e2 = errs@;
    let mut i: usize = 0;
    while i < g.points.len()
        invariant
            pts == g.points@,
            0 <= i <= pts.len(),
            errs@ == e2 + point_pwm_errors(*name, pts, i as int),
        decreases g.points.len() - i,
    {
        let pwm = g.points[i].1;
        push_if(errs, pwm > 255, ValidationError::PwmOutOfRange { curve: name.clone(), index: i, pwm });
        assert(errs@ =~= e2 + point_pwm_errors(*name, pts, i + 1));
        i = i + 1;
    }
    let ghost e3 = errs@;
    let known = find_key(sensors, &g.sensor).is_some();
    push_if(errs, !known, ValidationError::CurveUnknownSensor { curve: name.clone(), sensor: g.sensor.clone() });
    let ghost o4 = one_if(!has_key(sensors@, g.sensor@), ValidationError::CurveUnknownSensor { curve: *name, sensor: g.sensor });
    let ghost e4 = errs@;
    push_if(
        errs,
        !g.hysteresis_up_in_range,
        ValidationError::BadHysteresis { curve: name.clone(), field: "hysteresis_up", max: MAX_HYSTERESIS_C },
    );
    let ghost e5 = errs@;
    push_if(
        errs,
        !g.hysteresis_down_in_range,
        ValidationError::BadHysteresis { curve: name.clone(), field: "hysteresis_down", max: MAX_HYSTERESIS_C },
    );
    let ghost e6 = errs@;
    push_if(
        errs,
        g.response_seconds > MAX_RESPONSE_SECONDS,
        ValidationError::BadHysteresis {
            curve: name.clone(),
            field: "response_seconds",
            max: MAX_RESPONSE_SECONDS as u32,
        },
    );
    proof {
        let a = one_if(pts.len() < 2, ValidationError::CurveTooFewPoints(*name));
        let b = unsorted_errors(*name, pts, pts.len() as int);
        let c = point_pwm_errors(*name, pts, pts.len() as int);
        let o5 = one_if(
            !g.hysteresis_up_in_range,
            ValidationError::BadHysteresis { curve: *name, field: "hysteresis_up", max: MAX_HYSTERESIS_C },
        );
        let o6 = one_if(
            !g.hysteresis_down_in_range,
            ValidationError::BadHysteresis { curve: *name, field: "hysteresis_down", max: MAX_HYSTERESIS_C },
        );
        let o7 = one_if(
            g.response_seconds > MAX_RESPONSE_SECONDS,
            ValidationError::BadHysteresis { curve: *name, field: "response_seconds", max: MAX_RESPONSE_SECONDS as u32 },
        );
        assert(e1 == e0 + a);
        assert(e2 == e1 + b);
        assert(e3 == e2 + c);
        assert(e4 == e3 + o4);
        assert(e5 == e4 + o5);
        assert(e6 == e5 + o6);
        assert(errs@ == e6 + o7);
        assert(graph_errors(sensors@, *name, *g) == a + b + c + o4 + o5 + o6 + o7);
        assert(errs@ =~= e0 + (a + b + c + o4 + o5 + o6 + o7));
    }
}

fn validate_mix(
    curves: &Vec<(String, CurveConfig)>,
    name: &String,
    m: &MixCurve,
    errs: &mut Vec<ValidationError>,
)
    ensures
        final(errs)@ == old(errs)@ + mix_errors(curves@, *name, *m),
{
    let ghost e0 = errs@;
    let ghost ms = m.curves@;
    push_if(errs, m.curves.len() == 0, ValidationError::EmptyMix { curve: name.clone() });
    let ghost e1 = errs@;
    let mut i: usize = 0;
    while i < m.curves.len()
        invariant
            ms == m.curves@,
            0 <= i <= ms.len(),
            errs@ == e1 + member_errors(curves@, *name, ms, i as int),
        decreases m.curves.len() - i,
    {
        let member = &m.curves[i];
        let known = find_key(curves, member).is_some();
        push_if(errs, !known, ValidationError::MixUnknownCurve { curve: name.clone(), member: member.clone() });
        let mut dup = false;
        let mut j: usize = 0;
        while j < i
            invariant
                ms == m.curves@,
                0 <= j <= i < ms.len(),
                *member == ms[i as int],
                dup == exists|t: int| 0 <= t < j && (#[trigger] ms[t])@ == ms[i as int]@,
            decreases i - j,
        {
            if m.curves[j] == *member {
                dup = true;
            }
            j = j + 1;
        }
        push_if(errs, dup, ValidationError::DuplicateMixMember { curve: name.clone(), member: member.clone() });
        assert(errs@ =~= e1 + member_errors(curves@, *name, ms, i + 1));
        i = i + 1;
    }
    assert(errs@ =~= e0 + mix_errors(curves@, *name, *m));
}

fn validate_trigger(
    sensors: &Vec<(String, SensorConfig)>,
    name: &String,
    t: &TriggerCurve,
    errs: &mut Vec<ValidationError>,
)
    ensures
        final(errs)@ == old(errs)@ + trigger_errors(sensors@, *name, *t),
{
    let ghost e0 = errs@;
    push_if(errs, !t.thresholds_ordered, ValidationError::TriggerThresholdsUnordered { curve: name.clone() });
    push_if(
        errs,
        t.idle_pwm > 255,
        ValidationError::TriggerPwmOutOfRange { curve: name.clone(), field: "idle", pwm: t.idle_pwm },
    );
    push_if(
        errs,
        t.load_pwm > 255,
        ValidationError::TriggerPwmOutOfRange { curve: name.clone(), field: "load", pwm: t.load_pwm },
    );
    let known = find_key(sensors, &t.sensor).is_some();
    push_if(errs, !known, ValidationError::CurveUnknownSensor { curve: name.clone(), sensor: t.sensor.clone() });
    push_if(
        errs,
        t.response_seconds > MAX_RESPONSE_SECONDS,
        ValidationError::BadHysteresis {
            curve: name.clone(),
            field: "response_seconds",
            max: MAX_RESPONSE_SECONDS as u32,
        },
    );
    assert(errs@ =~= e0 + trigger_errors(sensors@, *name, *t));
}

fn validate_channel_refs(cfg: &Config, name: &String, ch: &ChannelConfig, errs: &mut Vec<ValidationError>)
    ensures
        final(errs)@ == old(errs)@ + channel_ref_errors(*cfg, *name, *ch),
{
    let ghost e0 = errs@;
    push_if(errs, !is_pwm_name(name.as_str()), ValidationError::BadChannelName { channel: name.clone() });
    let known = find_key(&cfg.curves, &ch.curve).is_some();
    push_if(errs, !known, ValidationError::UnknownCurve { channel: name.clone(), curve: ch.curve.clone() });
    assert(errs@ =~= e0 + channel_ref_errors(*cfg, *name, *ch));
}

fn validate_channel_floor(pump: bool, name: &String, ch: &ChannelConfig, errs: &mut Vec<ValidationError>)
    requires
        pump == is_pump_channel(name@),
    ensures
        final(errs)@ == old(errs)@ + channel_floor_errors(*name, *ch),
{
    if pump {
        push_if(
            errs,
            ch.min_pwm < PUMP_MIN_PWM_FLOOR,
            ValidationError::MinPwmBelowPumpFloor {
                channel: name.clone(),
                min_pwm: ch.min_pwm,
                floor: PUMP_MIN_PWM_FLOOR,
            },
        );
    } else {
        push_if(
            errs,
            ch.min_pwm < MIN_PWM_FLOOR,
            ValidationError::MinPwmBelowFloor { channel: name.clone(), min_pwm: ch.min_pwm, floor: MIN_PWM_FLOOR },
        );
    }
}

fn validate_channel_tuning(
    cfg: &Config,
    pump: bool,
    name: &String,
    ch: &ChannelConfig,
    errs: &mut Vec<ValidationError>,
)
    requires
        pump == is_pump_channel(name@),
    ensures
        final(errs)@ == old(errs)@ + channel_tuning_errors(*cfg, *name, *ch),
{
    let ghost e0 = errs@;
    let reaches = if pump {
        reaches_trigger(&cfg.curves, &ch.curve)
    } else {
        false
    };
    push_if(
        errs,
        reaches,
        ValidationError::TriggerOnPumpChannel { channel: name.clone(), curve: ch.curve.clone() },
    );
    push_if(
        errs,
        ch.offset_pwm < -255 || ch.offset_pwm > 255,
        ValidationError::OffsetOutOfRange { channel: name.clone(), offset: ch.offset_pwm },
    );
    push_if(
        errs,
        ch.max_step_up == 0 || ch.max_step_down == 0,
        ValidationError::ZeroStep { channel: name.clone() },
    );
    push_if(errs, ch.smoothing_seconds == 0, ValidationError::ZeroSmoothing { channel: name.clone() });
    assert(errs@ =~= e0 + channel_tuning_errors(*cfg, *name, *ch));
}

fn validate_channel(cfg: &Config, name: &String, ch: &ChannelConfig, errs: &mut Vec<ValidationError>)
    ensures
        final(errs)@ == old(errs)@ + channel_errors(*cfg, *name, *ch),
{
    let ghost e0 = errs@;
    validate_channel_refs(cfg, name, ch, errs);
    let pump = str_eq(name.as_str(), PUMP_CHANNEL);
    validate_channel_floor(pump, name, ch, errs);
    validate_channel_tuning(cfg, pump, name, ch, errs);
    assert(errs@ =~= e0 + channel_errors(*cfg, *name, *ch));
}

impl Config {
    /// Collects *all* problems rather than stopping at the first. `Ok`
    /// exactly when there is none; the daemon must never apply a config
    /// that did not pass here.
    pub fn validate(&self) -> (r: Result<(), Vec<ValidationError>>)
        ensures
            exists|cycle_names: Seq<String>|
                #![trigger validation_errors(*self, cycle_names)]
                cycle_report_ok(self.curves@, cycle_names) && name_views(cycle_names) == mix_cycle_names(self.curves@)
                    && reported(r) == validation_errors(*self, cycle_names),
            r is Err ==> reported(r).len() > 0,
    {
        let mut errs: Vec<ValidationError> = Vec::new();
        push_if(&mut errs, self.daemon.tick_seconds == 0, ValidationError::TickZero);
        let ghost e1 = errs@;
        let mut i: usize = 0;
        while i < self.curves.len()
            invariant
                0 <= i <= self.curves@.len(),
                errs@ == e1 + curves_errors(*self, i as int),
            decreases self.curves.len() - i,
        {
            let name = &self.curves[i].0;
            match &self.curves[i].1 {
                CurveConfig::Graph(g) => validate_graph(&self.sensors, name, g, &mut errs),
                CurveConfig::Mix(m) => validate_mix(&self.curves, name, m, &mut errs),
                CurveConfig::Flat(f) => push_if(
                    &mut errs,
                    f.pwm > 255,
                    ValidationError::FlatPwmOutOfRange { curve: name.clone(), pwm: f.pwm },
                ),
                CurveConfig::Trigger(t) => validate_trigger(&self.sensors, name, t, &mut errs),
            }
            assert(errs@ =~= e1 + curves_errors(*self, i + 1));
            i = i + 1;
        }
        let cyclic = detect_mix_cycles(&self.curves);
        let ghost e2 = errs@;
        let mut k: usize = 0;
        while k < cyclic.len()
            invariant
                0 <= k <= cyclic@.len(),
                errs@ == e2 + cyclic@.take(k as int).map_values(|c: String| ValidationError::MixCycle { curve: c }),
            decreases cyclic.len() - k,
        {
            errs.push(ValidationError::MixCycle { curve: cyclic[k].clone() });
            assert(cyclic@.take(k + 1) =~= cyclic@.take(k as int).push(cyclic@[k as int]));
            assert(errs@ =~= e2 + cyclic@.take(k + 1).map_values(|c: String| ValidationError::MixCycle { curve: c }));
            k = k + 1;
        }
        assert(cyclic@.take(cyclic@.len() as int) =~= cyclic@);
        let ghost e3 = errs@;
        let mut i: usize = 0;
        while i < self.channels.len()
            invariant
                0 <= i <= self.channels@.len(),
                errs@ == e3 + channels_errors(*self, i as int),
            decreases self.channels.len() - i,
        {
            validate_channel(self, &self.channels[i].0, &self.channels[i].1, &mut errs);
            assert(errs@ =~= e3 + channels_errors(*self, i + 1));
            i = i + 1;
        }
        assert(errs@ =~= validation_errors(*self, cyclic@));
        if errs.len() == 0 {
            assert(reported(Ok(())) =~= errs@);
            Ok(())
        } else {
            Err(errs)
        }
    }
}


} // verus!
