//! The daemon's wiring decisions: which hwmon chips and sensor backends a
//! config needs, which fans may be taken over, and — on a hot reload —
//! which channels change hands and which files the failsafe must restore.
//!
//! A reload must never leave a fan that the daemon drives outside the
//! failsafe list: before any `pwmN_enable` write the list is widened to the
//! union of the old and new channels' files.

use vstd::prelude::*;
use crate::config::{ChannelConfig, Config, SensorConfig};
use crate::curve_graph::contains_name;
use crate::eval::{has_name, plan_reads, CurvePlan};
use crate::text::str_eq;
use crate::ramp::{abs_diff, desired_spec, lemma_step_makes_progress, step_spec, RampConfig};
use crate::safety::{channel_floor, config_ok};

verus! {

/// Some string of `v` has the characters `s`.
pub open spec fn in_names(v: Seq<String>, s: Seq<char>) -> bool {
    exists|k: int| 0 <= k < v.len() && (#[trigger] v[k])@ == s
}

/// No two strings of `v` have the same characters.
pub open spec fn distinct_names(v: Seq<String>) -> bool {
    forall|j: int, k: int| 0 <= j < k < v.len() ==> (#[trigger] v[j])@ != (#[trigger] v[k])@
}

pub open spec fn sensor_on_chip(s: SensorConfig, chip: Seq<char>) -> bool {
    s matches SensorConfig::Hwmon(h) && h.hwmon_name@ == chip
}

/// Sensor `i` of `cfg` is one that some curve tree reads (its name is in
/// `used`).
pub open spec fn sensor_used(cfg: Config, used: Seq<String>, i: int) -> bool {
    in_names(used, cfg.sensors@[i].0@)
}

/// A used hwmon sensor or a channel of `cfg` lives on chip `chip`.
pub open spec fn references_chip(cfg: Config, used: Seq<String>, chip: Seq<char>) -> bool {
    ||| exists|i: int|
        0 <= i < cfg.sensors.len() && sensor_used(cfg, used, i) && sensor_on_chip((#[trigger] cfg.sensors@[i]).1, chip)
    ||| exists|i: int| 0 <= i < cfg.channels.len() && (#[trigger] cfg.channels@[i]).1.hwmon_name@ == chip
}

/// Append `s` unless a string with its characters is already there.
fn push_unique(out: &mut Vec<String>, s: &String)
    requires
        distinct_names(old(out)@),
    ensures
        distinct_names(final(out)@),
        forall|t: Seq<char>| #[trigger] in_names(final(out)@, t) <==> (in_names(old(out)@, t) || t == s@),
{
    if contains_name(out, s) {
        return;
    }
    let ghost before = out@;
    out.push(s.clone());
    proof {
        assert forall|t: Seq<char>| #[trigger] in_names(out@, t) <==> (in_names(before, t) || t == s@) by {
            if in_names(before, t) {
                let k = choose|k: int| 0 <= k < before.len() && (#[trigger] before[k])@ == t;
                assert(out@[k] == before[k]);
            }
            if t == s@ {
                assert(out@[before.len() as int]@ == t);
            }
            if in_names(out@, t) {
                let k = choose|k: int| 0 <= k < out@.len() && (#[trigger] out@[k])@ == t;
                if k < before.len() {
                    assert(before[k] == out@[k]);
                }
            }
        }
    }
}

/// The sensors the channels' curve trees read, each once: the sensors
/// startup resolves and each tick reads (a configured sensor no tree
/// reads can neither block startup nor trip the failsafe).
pub fn used_sensors(plans: &Vec<CurvePlan>) -> (out: Vec<String>)
    ensures
        distinct_names(out@),
        forall|s: Seq<char>| #[trigger] in_names(out@, s) <==> exists|p: int|
            0 <= p < plans.len() && plan_reads((#[trigger] plans@[p]).nodes@, s),
{
    let mut out: Vec<String> = Vec::new();
    let mut p: usize = 0;
    while p < plans.len()
        invariant
            0 <= p <= plans.len(),
            distinct_names(out@),
            forall|s: Seq<char>| #[trigger] in_names(out@, s) <==> exists|q: int|
                0 <= q < p && plan_reads((#[trigger] plans@[q]).nodes@, s),
        decreases plans.len() - p,
    {
        let names = plans[p].sensors();
        let ghost before = out@;
        let mut k: usize = 0;
        while k < names.len()
            invariant
                0 <= p < plans.len(),
                0 <= k <= names.len(),
                distinct_names(out@),
                forall|s: Seq<char>| #[trigger] plan_reads(plans@[p as int].nodes@, s) <==> has_name(names@, s),
                forall|s: Seq<char>| #[trigger] in_names(out@, s) <==> (in_names(before, s) || exists|j: int|
                    0 <= j < k && (#[trigger] names@[j])@ == s),
            decreases names.len() - k,
        {
            let ghost mid = out@;
            push_unique(&mut out, &names[k]);
            proof {
                assert forall|s: Seq<char>| #[trigger] in_names(out@, s) <==> (in_names(before, s) || exists|j: int|
                    0 <= j < k + 1 && (#[trigger] names@[j])@ == s) by {
                    if names@[k as int]@ == s {
                        assert(0 <= k < k + 1);
                    }
                    if exists|j: int| 0 <= j < k + 1 && (#[trigger] names@[j])@ == s {
                        let j = choose|j: int| 0 <= j < k + 1 && (#[trigger] names@[j])@ == s;
                        if j < k {
                            assert(exists|j2: int| 0 <= j2 < k && (#[trigger] names@[j2])@ == s);
                        }
                    }
                }
            }
            k = k + 1;
        }
        proof {
            assert forall|s: Seq<char>| #[trigger] in_names(out@, s) <==> exists|q: int|
                0 <= q < p + 1 && plan_reads((#[trigger] plans@[q]).nodes@, s) by {
                if plan_reads(plans@[p as int].nodes@, s) {
                    assert(has_name(names@, s));
                    let j = choose|j: int| 0 <= j < names@.len() && (#[trigger] names@[j])@ == s;
                    assert(0 <= j < k && names@[j]@ == s);
                    assert(0 <= p < p + 1);
                }
                if exists|j: int| 0 <= j < k && (#[trigger] names@[j])@ == s {
                    let j = choose|j: int| 0 <= j < k && (#[trigger] names@[j])@ == s;
                    assert(has_name(names@, s));
                    assert(plan_reads(plans@[p as int].nodes@, s));
                }
                if exists|q: int| 0 <= q < p + 1 && plan_reads((#[trigger] plans@[q]).nodes@, s) {
                    let q = choose|q: int| 0 <= q < p + 1 && plan_reads((#[trigger] plans@[q]).nodes@, s);
                    if q < p {
                        assert(exists|q2: int| 0 <= q2 < p && plan_reads((#[trigger] plans@[q2]).nodes@, s));
                    } else {
                        assert(has_name(names@, s));
                    }
                }
            }
        }
        p = p + 1;
    }
    out
}

/// The hwmon chips a config needs resolved: the chip of every hwmon
/// sensor some curve tree reads (its name is in `used`) and of every
/// channel, each once.
pub fn referenced_chips(cfg: &Config, used: &Vec<String>) -> (out: Vec<String>)
    ensures
        distinct_names(out@),
        forall|chip: Seq<char>| #[trigger] in_names(out@, chip) <==> references_chip(*cfg, used@, chip),
{
    let mut out: Vec<String> = Vec::new();
    let mut i: usize = 0;
    while i < cfg.sensors.len()
        invariant
            0 <= i <= cfg.sensors.len(),
            distinct_names(out@),
            forall|chip: Seq<char>|
                #[trigger] in_names(out@, chip) <==> exists|k: int|
                    0 <= k < i && sensor_used(*cfg, used@, k) && sensor_on_chip((#[trigger] cfg.sensors@[k]).1, chip),
        decreases cfg.sensors.len() - i,
    {
        if contains_name(used, &cfg.sensors[i].0) {
            match &cfg.sensors[i].1 {
                SensorConfig::Hwmon(h) => {
                    push_unique(&mut out, &h.hwmon_name);
                },
                SensorConfig::Nvml(_) => {},
            }
        }
        proof {
            assert forall|chip: Seq<char>| #[trigger] in_names(out@, chip) <==> exists|k: int|
                0 <= k < i + 1 && sensor_used(*cfg, used@, k) && sensor_on_chip((#[trigger] cfg.sensors@[k]).1, chip) by {
                if sensor_used(*cfg, used@, i as int) && sensor_on_chip(cfg.sensors@[i as int].1, chip) {
                    assert(0 <= i < i + 1);
                }
                if exists|k: int|
                    0 <= k < i + 1 && sensor_used(*cfg, used@, k) && sensor_on_chip((#[trigger] cfg.sensors@[k]).1, chip) {
                    let k = choose|k: int|
                        0 <= k < i + 1 && sensor_used(*cfg, used@, k) && sensor_on_chip((#[trigger] cfg.sensors@[k]).1, chip);
                    if k < i {
                        assert(exists|k2: int|
                            0 <= k2 < i && sensor_used(*cfg, used@, k2) && sensor_on_chip((#[trigger] cfg.sensors@[k2]).1, chip));
                    }
                }
            }
        }
        i = i + 1;
    }
    let mut j: usize = 0;
    while j < cfg.channels.len()
        invariant
            0 <= j <= cfg.channels.len(),
            distinct_names(out@),
            forall|chip: Seq<char>|
                #[trigger] in_names(out@, chip) <==> (exists|k: int|
                    0 <= k < cfg.sensors.len() && sensor_used(*cfg, used@, k) && sensor_on_chip((#[trigger] cfg.sensors@[k]).1, chip)) || (exists|
                    k: int,
                | 0 <= k < j && (#[trigger] cfg.channels@[k]).1.hwmon_name@ == chip),
        decreases cfg.channels.len() - j,
    {
        push_unique(&mut out, &cfg.channels[j].1.hwmon_name);
        proof {
            assert forall|chip: Seq<char>| #[trigger] in_names(out@, chip) <==> (exists|k: int|
                0 <= k < cfg.sensors.len() && sensor_used(*cfg, used@, k) && sensor_on_chip((#[trigger] cfg.sensors@[k]).1, chip)) || (exists|
                k: int,
            | 0 <= k < j + 1 && (#[trigger] cfg.channels@[k]).1.hwmon_name@ == chip) by {
                if cfg.channels@[j as int].1.hwmon_name@ == chip {
                    assert(0 <= j < j + 1);
                }
                if exists|k: int| 0 <= k < j + 1 && (#[trigger] cfg.channels@[k]).1.hwmon_name@ == chip {
                    let k = choose|k: int| 0 <= k < j + 1 && (#[trigger] cfg.channels@[k]).1.hwmon_name@ == chip;
                    if k < j {
                        assert(exists|k2: int| 0 <= k2 < j && (#[trigger] cfg.channels@[k2]).1.hwmon_name@ == chip);
                    }
                }
            }
        }
        j = j + 1;
    }
    out
}

/// Whether a sensor some curve tree reads (its name is in `used`) is an
/// NVML one (so the GPU library must load).
pub fn needs_nvml(cfg: &Config, used: &Vec<String>) -> (b: bool)
    ensures
        b == exists|i: int|
            0 <= i < cfg.sensors.len() && sensor_used(*cfg, used@, i) && (#[trigger] cfg.sensors@[i]).1 is Nvml,
{
    let mut i: usize = 0;
    while i < cfg.sensors.len()
        invariant
            0 <= i <= cfg.sensors.len(),
            forall|k: int| 0 <= k < i ==> !(sensor_used(*cfg, used@, k) && (#[trigger] cfg.sensors@[k]).1 is Nvml),
        decreases cfg.sensors.len() - i,
    {
        match &cfg.sensors[i].1 {
            SensorConfig::Nvml(_) => {
                if contains_name(used, &cfg.sensors[i].0) {
                    return true;
                }
            },
            SensorConfig::Hwmon(_) => {},
        }
        i = i + 1;
    }
    false
}

/// Channel `k` of `new` is kept from `old` (same name) but now names a
/// different hwmon chip: a different fan, which a hot reload must not take
/// over (it would skip the liveness probe and strand the old header).
pub open spec fn rebound(old: Seq<(String, String)>, new: Seq<(String, String)>, k: int) -> bool {
    exists|j: int| 0 <= j < old.len() && (#[trigger] old[j]).0@ == new[k].0@ && old[j].1@ != new[k].1@
}

/// The first channel of `new` (as `(name, hwmon_name)`) that a reload
/// would re-bind to another chip, if any; such a reload is refused.
pub fn rebound_channel(old: &Vec<(String, String)>, new: &Vec<(String, String)>) -> (r: Option<usize>)
    ensures
        r matches Some(k) ==> k < new.len() && rebound(old@, new@, k as int) && forall|i: int|
            0 <= i < k ==> !rebound(old@, new@, i),
        r is None ==> forall|i: int| 0 <= i < new.len() ==> !rebound(old@, new@, i),
{
    let mut k: usize = 0;
    while k < new.len()
        invariant
            0 <= k <= new.len(),
            forall|i: int| 0 <= i < k ==> !rebound(old@, new@, i),
        decreases new.len() - k,
    {
        let mut j: usize = 0;
        while j < old.len()
            invariant
                0 <= k < new.len(),
                0 <= j <= old.len(),
                forall|i: int| 0 <= i < k ==> !rebound(old@, new@, i),
                forall|x: int| 0 <= x < j ==> !((#[trigger] old@[x]).0@ == new@[k as int].0@ && old@[x].1@ != new@[k as int].1@),
            decreases old.len() - j,
        {
            if str_eq(old[j].0.as_str(), new[k].0.as_str()) && !str_eq(old[j].1.as_str(), new[k].1.as_str()) {
                assert(old@[j as int].0@ == new@[k as int].0@ && old@[j as int].1@ != new@[k as int].1@);
                return Some(k);
            }
            j = j + 1;
        }
        k = k + 1;
    }
    None
}

/// The liveness probe taken before anything is written: a fan reading
/// 0 RPM under firmware control is a dead header and is refused — unless
/// the daemon already drives the channel (a reload), where a parked fan
/// legitimately reads 0.
pub fn probe_ok(rpm: u32, channel: &String, already_controlled: &Vec<String>) -> (b: bool)
    ensures
        b == (rpm != 0 || in_names(already_controlled@, channel@)),
{
    rpm != 0 || contains_name(already_controlled, channel)
}

/// The positions of `names` whose name `other` lacks, in increasing
/// order: on a reload, the channels to take over (new against old) and the
/// channels to hand back (old against new).
pub fn missing_from(names: &Vec<String>, other: &Vec<String>) -> (out: Vec<usize>)
    ensures
        forall|j: int, k: int| 0 <= j < k < out.len() ==> out@[j] < out@[k],
        forall|k: int| 0 <= k < out.len() ==> out@[k] < names.len() && !in_names(other@, names@[out@[k] as int]@),
        forall|i: int|
            0 <= i < names.len() && !in_names(other@, (#[trigger] names@[i])@) ==> exists|k: int|
                0 <= k < out.len() && out@[k] == i,
{
    let mut out: Vec<usize> = Vec::new();
    let mut i: usize = 0;
    while i < names.len()
        invariant
            0 <= i <= names.len(),
            forall|j: int, k: int| 0 <= j < k < out.len() ==> out@[j] < out@[k],
            forall|k: int| 0 <= k < out.len() ==> out@[k] < i && !in_names(other@, names@[out@[k] as int]@),
            forall|x: int|
                0 <= x < i && !in_names(other@, (#[trigger] names@[x])@) ==> exists|k: int|
                    0 <= k < out.len() && out@[k] == x,
        decreases names.len() - i,
    {
        if !contains_name(other, &names[i]) {
            let ghost before = out@;
            out.push(i);
            proof {
                assert forall|x: int|
                    0 <= x < i + 1 && !in_names(other@, (#[trigger] names@[x])@) implies exists|k: int|
                        0 <= k < out.len() && out@[k] == x by {
                    if x == i {
                        assert(out@[out.len() - 1] == x);
                    } else {
                        let k = choose|k: int| 0 <= k < before.len() && before[k] == x;
                        assert(out@[k] == x);
                    }
                }
            }
        }
        i = i + 1;
    }
    out
}

/// The failsafe list while a reload is in flight: the old channels'
/// files, then each new one not already listed.
pub open spec fn union_upto(old: Seq<Seq<char>>, new: Seq<Seq<char>>, k: nat) -> Seq<Seq<char>>
    decreases k,
{
    if k == 0 {
        old
    } else {
        let u = union_upto(old, new, (k - 1) as nat);
        if u.contains(new[k - 1]) {
            u
        } else {
            u.push(new[k - 1])
        }
    }
}

pub open spec fn views(v: Seq<String>) -> Seq<Seq<char>> {
    v.map_values(|s: String| s@)
}

/// The union of the old and new channels' `pwmN_enable` files.
pub fn union_paths(old: &Vec<String>, new: &Vec<String>) -> (out: Vec<String>)
    ensures
        views(out@) == union_upto(views(old@), views(new@), new.len() as nat),
{
    let mut out: Vec<String> = old.clone();
    proof {
        assert(views(out@) =~= views(old@));
    }
    let mut i: usize = 0;
    while i < new.len()
        invariant
            0 <= i <= new.len(),
            views(out@) == union_upto(views(old@), views(new@), i as nat),
        decreases new.len() - i,
    {
        let ghost u = views(out@);
        let present = contains_name(&out, &new[i]);
        proof {
            assert(views(new@)[i as int] == new@[i as int]@);
            if present {
                let k = choose|k: int| 0 <= k < out.len() && (#[trigger] out@[k])@ == new@[i as int]@;
                assert(u[k] == new@[i as int]@);
                assert(u.contains(new@[i as int]@));
            } else {
                assert forall|k: int| 0 <= k < u.len() implies u[k] != new@[i as int]@ by {
                    assert(u[k] == out@[k]@);
                }
                assert(!u.contains(new@[i as int]@));
            }
        }
        if !present {
            out.push(new[i].clone());
            proof {
                assert(views(out@) =~= u.push(new@[i as int]@));
            }
        }
        i = i + 1;
    }
    out
}

/// Every file the failsafe covered before a reload, and every file of the
/// reloaded channels, is in the in-flight union: a crash mid-transition
/// still restores all of them.
pub proof fn lemma_union_covers(old: Seq<Seq<char>>, new: Seq<Seq<char>>, k: nat)
    requires
        k <= new.len(),
    ensures
        forall|i: int| 0 <= i < old.len() ==> union_upto(old, new, k).contains(#[trigger] old[i]),
        forall|j: int| 0 <= j < k ==> union_upto(old, new, k).contains(#[trigger] new[j]),
        forall|x: Seq<char>|
            #[trigger] union_upto(old, new, k).contains(x) ==> old.contains(x) || new.take(k as int).contains(x),
    decreases k,
{
    if k > 0 {
        lemma_union_covers(old, new, (k - 1) as nat);
        let u = union_upto(old, new, (k - 1) as nat);
        assert forall|i: int| 0 <= i < old.len() implies union_upto(old, new, k).contains(#[trigger] old[i]) by {
            let w = choose|w: int| 0 <= w < u.len() && u[w] == old[i];
            if !u.contains(new[k - 1]) {
                assert(u.push(new[k - 1])[w] == old[i]);
            }
        }
        assert forall|j: int| 0 <= j < k implies union_upto(old, new, k).contains(#[trigger] new[j]) by {
            if j < k - 1 {
                let w = choose|w: int| 0 <= w < u.len() && u[w] == new[j];
                if !u.contains(new[k - 1]) {
                    assert(u.push(new[k - 1])[w] == new[j]);
                }
            } else if !u.contains(new[k - 1]) {
                assert(u.push(new[k - 1])[u.len() as int] == new[j]);
            }
        }
        assert forall|x: Seq<char>| #[trigger] union_upto(old, new, k).contains(x) implies old.contains(x)
            || new.take(k as int).contains(x) by {
            if u.contains(x) {
                let t = new.take(k - 1);
                if t.contains(x) {
                    let w = choose|w: int| 0 <= w < t.len() && #[trigger] t[w] == x;
                    assert(new.take(k as int)[w] == x);
                }
            } else {
                assert(x == new[k - 1]);
                assert(new.take(k as int)[k - 1] == x);
            }
        }
    }
}

/// The ramp settings a channel's config gives.
pub open spec fn ramp_config_spec(ch: ChannelConfig) -> RampConfig {
    RampConfig {
        min_pwm: ch.min_pwm,
        max_step_up: ch.max_step_up,
        max_step_down: ch.max_step_down,
        deadband: ch.deadband,
    }
}

pub fn ramp_config(ch: &ChannelConfig) -> (r: RampConfig)
    ensures
        r == ramp_config_spec(*ch),
{
    RampConfig {
        min_pwm: ch.min_pwm,
        max_step_up: ch.max_step_up,
        max_step_down: ch.max_step_down,
        deadband: ch.deadband,
    }
}

/// Under a config that passed validation, every duty a channel's ramp
/// produces — whatever the curve asks and wherever the fan started — is at
/// or above the channel's floor: never under the pump floor on the pump
/// header, never under the general floor elsewhere. And a tick the
/// deadband does not hold strictly closes the gap to the target, so the
/// ramp never stalls.
pub proof fn lemma_validated_channel_duty(cfg: Config, i: int, current: u8, raw_target: u8)
    requires
        config_ok(cfg),
        0 <= i < cfg.channels@.len(),
    ensures
        step_spec(ramp_config_spec(cfg.channels@[i].1), current, raw_target) >= channel_floor(cfg.channels@[i].0@),
        step_spec(ramp_config_spec(cfg.channels@[i].1), current, raw_target) <= 255,
        ({
            let rc = ramp_config_spec(cfg.channels@[i].1);
            let d = desired_spec(rc, raw_target);
            (current < rc.min_pwm || abs_diff(current as int, d) >= rc.deadband) && current != d ==> abs_diff(
                step_spec(rc, current, raw_target),
                d,
            ) < abs_diff(current as int, d)
        }),
{
    let rc = ramp_config_spec(cfg.channels@[i].1);
    assert(crate::safety::channel_ok(cfg, cfg.channels@[i].0, cfg.channels@[i].1));
    let d = desired_spec(rc, raw_target);
    if (current < rc.min_pwm || abs_diff(current as int, d) >= rc.deadband) && current != d {
        lemma_step_makes_progress(rc, current, raw_target);
    }
}

/// One step of a hot reload, in the order the daemon performs them.
#[derive(Debug, Clone)]
pub enum ReloadStep {
    /// Set the failsafe restore list to these `pwmN_enable` files.
    Failsafe(Vec<String>),
    /// Take manual control of channel `i` of the new config.
    TakeManual(usize),
    /// Hand channel `i` of the old config, which the new one drops, back
    /// to firmware control.
    HandBack(usize),
    /// Undo a take-over: hand channel `i` of the new config back to
    /// firmware control after a later take-over failed.
    UndoManual(usize),
}

/// The order of a hot reload, from the old and new channel names and
/// their `pwmN_enable` files (position by position): first widen the
/// failsafe list to the union of both, then take over each new channel,
/// then hand back each dropped one, and last narrow the list to the new
/// channels' files. So no fan is ever driven manually while off the list.
pub fn reload_plan(
    old_names: &Vec<String>,
    old_paths: &Vec<String>,
    new_names: &Vec<String>,
    new_paths: &Vec<String>,
) -> (plan: Vec<ReloadStep>)
    requires
        old_paths.len() == old_names.len(),
        new_paths.len() == new_names.len(),
    ensures
        plan.len() >= 2,
        plan@[0] matches ReloadStep::Failsafe(u) && views(u@) == union_upto(
            views(old_paths@),
            views(new_paths@),
            new_paths.len() as nat,
        ),
        plan@[plan.len() - 1] matches ReloadStep::Failsafe(n) && views(n@) == views(new_paths@),
        forall|p: int| 0 < p < plan.len() - 1 ==> !(#[trigger] plan@[p] is Failsafe),
        forall|p: int|
            0 < p < plan.len() - 1 ==> (#[trigger] plan@[p] matches ReloadStep::TakeManual(i) ==> i < new_names.len()
                && !in_names(old_names@, new_names@[i as int]@)),
        forall|p: int|
            0 < p < plan.len() - 1 ==> (#[trigger] plan@[p] matches ReloadStep::HandBack(i) ==> i < old_names.len()
                && !in_names(new_names@, old_names@[i as int]@)),
        forall|p: int, q: int|
            0 < p < q < plan.len() - 1 && #[trigger] plan@[q] is TakeManual ==> #[trigger] plan@[p] is TakeManual,
        forall|p: int, q: int| 0 < p < q < plan.len() - 1 ==> #[trigger] plan@[p] != #[trigger] plan@[q],
        forall|i: int|
            0 <= i < new_names.len() && !in_names(old_names@, (#[trigger] new_names@[i])@) ==> exists|p: int|
                0 < p < plan.len() - 1 && plan@[p] == ReloadStep::TakeManual(i as usize),
        forall|i: int|
            0 <= i < old_names.len() && !in_names(new_names@, (#[trigger] old_names@[i])@) ==> exists|p: int|
                0 < p < plan.len() - 1 && plan@[p] == ReloadStep::HandBack(i as usize),
{
    let mut plan: Vec<ReloadStep> = Vec::new();
    plan.push(ReloadStep::Failsafe(union_paths(old_paths, new_paths)));
    let take = missing_from(new_names, old_names);
    let mut k: usize = 0;
    while k < take.len()
        invariant
            0 <= k <= take.len(),
            plan.len() == 1 + k,
            plan@[0] matches ReloadStep::Failsafe(u) && views(u@) == union_upto(
                views(old_paths@),
                views(new_paths@),
                new_paths.len() as nat,
            ),
            forall|p: int| 0 < p < plan.len() ==> #[trigger] plan@[p] == ReloadStep::TakeManual(take@[p - 1]),
        decreases take.len() - k,
    {
        plan.push(ReloadStep::TakeManual(take[k]));
        k = k + 1;
    }
    let drop = missing_from(old_names, new_names);
    let mut d: usize = 0;
    while d < drop.len()
        invariant
            0 <= d <= drop.len(),
            plan.len() == 1 + take.len() + d,
            plan@[0] matches ReloadStep::Failsafe(u) && views(u@) == union_upto(
                views(old_paths@),
                views(new_paths@),
                new_paths.len() as nat,
            ),
            forall|p: int| 0 < p <= take.len() ==> #[trigger] plan@[p] == ReloadStep::TakeManual(take@[p - 1]),
            forall|p: int|
                take.len() < p < plan.len() ==> #[trigger] plan@[p] == ReloadStep::HandBack(drop@[p - 1 - take.len()]),
        decreases drop.len() - d,
    {
        plan.push(ReloadStep::HandBack(drop[d]));
        d = d + 1;
    }
    let mut last: Vec<String> = Vec::new();
    let mut j: usize = 0;
    while j < new_paths.len()
        invariant
            0 <= j <= new_paths.len(),
            views(last@) == views(new_paths@).take(j as int),
        decreases new_paths.len() - j,
    {
        let c = new_paths[j].clone();
        let ghost before = last@;
        last.push(c);
        proof {
            assert(views(last@) =~= views(before).push(new_paths@[j as int]@));
            assert(views(new_paths@).take(j + 1) =~= views(new_paths@).take(j as int).push(new_paths@[j as int]@));
        }
        j = j + 1;
    }
    proof {
        assert(views(new_paths@).take(new_paths.len() as int) =~= views(new_paths@));
    }
    plan.push(ReloadStep::Failsafe(last));
    proof {
        assert forall|p: int, q: int| 0 < p < q < plan.len() - 1 implies #[trigger] plan@[p] != #[trigger] plan@[q] by {
            if q <= take.len() {
                assert(take@[p - 1] < take@[q - 1]);
            } else if p > take.len() {
                assert(drop@[p - 1 - take.len()] < drop@[q - 1 - take.len()]);
            }
        }
        assert forall|i: int|
            0 <= i < new_names.len() && !in_names(old_names@, (#[trigger] new_names@[i])@) implies exists|p: int|
            0 < p < plan.len() - 1 && plan@[p] == ReloadStep::TakeManual(i as usize) by {
            let w = choose|w: int| 0 <= w < take.len() && take@[w] == i;
            assert(plan@[w + 1] == ReloadStep::TakeManual(take@[w]));
        }
        assert forall|i: int|
            0 <= i < old_names.len() && !in_names(new_names@, (#[trigger] old_names@[i])@) implies exists|p: int|
            0 < p < plan.len() - 1 && plan@[p] == ReloadStep::HandBack(i as usize) by {
            let w = choose|w: int| 0 <= w < drop.len() && drop@[w] == i;
            assert(plan@[w + 1 + take.len()] == ReloadStep::HandBack(drop@[w]));
        }
    }
    plan
}

/// Backing out of a reload after a take-over failed: hand each channel
/// already taken over (`switched`, channels of the new config) back to
/// firmware control, in order, while the widened failsafe list still
/// covers them; then put the failsafe list back to the old channels'
/// files.
pub fn rollback_plan(switched: &Vec<usize>, old_paths: &Vec<String>) -> (plan: Vec<ReloadStep>)
    ensures
        plan.len() == switched.len() + 1,
        forall|k: int| 0 <= k < switched.len() ==> #[trigger] plan@[k] == ReloadStep::UndoManual(switched@[k]),
        plan@[plan.len() - 1] matches ReloadStep::Failsafe(p) && views(p@) == views(old_paths@),
{
    let mut plan: Vec<ReloadStep> = Vec::new();
    let mut k: usize = 0;
    while k < switched.len()
        invariant
            0 <= k <= switched.len(),
            plan.len() == k,
            forall|x: int| 0 <= x < k ==> #[trigger] plan@[x] == ReloadStep::UndoManual(switched@[x]),
        decreases switched.len() - k,
    {
        plan.push(ReloadStep::UndoManual(switched[k]));
        k = k + 1;
    }
    let mut restore: Vec<String> = Vec::new();
    let mut j: usize = 0;
    while j < old_paths.len()
        invariant
            0 <= j <= old_paths.len(),
            views(restore@) == views(old_paths@).take(j as int),
        decreases old_paths.len() - j,
    {
        let c = old_paths[j].clone();
        let ghost before = restore@;
        restore.push(c);
        proof {
            assert(views(restore@) =~= views(before).push(old_paths@[j as int]@));
            assert(views(old_paths@).take(j + 1) =~= views(old_paths@).take(j as int).push(old_paths@[j as int]@));
        }
        j = j + 1;
    }
    proof {
        assert(views(old_paths@).take(old_paths.len() as int) =~= views(old_paths@));
    }
    plan.push(ReloadStep::Failsafe(restore));
    plan
}

/// No fan is driven manually while off the failsafe list: the file of
/// every channel a reload plan takes over is on the list its first step
/// sets.
pub proof fn lemma_takeover_is_covered(
    old_paths: Seq<String>,
    new_paths: Seq<String>,
    u: Seq<Seq<char>>,
    i: int,
)
    requires
        u == union_upto(views(old_paths), views(new_paths), new_paths.len() as nat),
        0 <= i < new_paths.len(),
    ensures
        u.contains(new_paths[i]@),
{
    lemma_union_covers(views(old_paths), views(new_paths), new_paths.len() as nat);
    assert(views(new_paths)[i] == new_paths[i]@);
}

} // verus!
