//! Config types and full validation before a config is applied.
//!
//! FanControl-style model: a curve owns its temperature source (graph,
//! trigger) or combines other curves (mix); a channel binds exactly one
//! curve by name.
//!
//! Validation rejects: unsorted curve points, pwm out of 0–255, unknown
//! sensor/curve references anywhere in a curve tree, mix cycles, triggers
//! reachable from the pump channel, and `min_pwm` below the channel's floor
//! (60 everywhere, 80 on `pwm1`: the AIO pump rides that header inline).
//! Fans never stop: there is no zero-RPM mode.
//!
//! The three tables (`sensors`, `curves`, `channels`) are lists of
//! `(name, entry)` pairs. A config built from maps keyed by name holds
//! them in map order, names strictly ascending (`keys_in_map_order`), so
//! no name occurs twice; lookups by name take the first entry with that
//! name, which is then the only one.
//!
//! Temperatures and hysteresis widths are floating point; this library
//! holds no floating-point value. A graph curve carries, in their place,
//! whether each hysteresis width lies in `0..=MAX_HYSTERESIS_C`, and a
//! trigger curve whether its two thresholds are finite and ordered — the
//! only facts about them that validation reads.

use vstd::prelude::*;
use crate::text::{chars_of, is_canonical_u32_from, canonical_u32};

verus! {

/// Fans may stall below this duty; no channel may set a lower min_pwm.
pub const MIN_PWM_FLOOR: u8 = 60;

/// The channel carrying the AIO pump inline (pump + VRM fan + rad fans on
/// one header, pump has no tach). Its duty must never drop below
/// [`PUMP_MIN_PWM_FLOOR`].
pub const PUMP_CHANNEL: &'static str = "pwm1";

/// At/above the firmware-auto idle (77/255) this system has proven safe.
pub const PUMP_MIN_PWM_FLOOR: u8 = 80;

/// Hysteresis wider than this many °C is a config mistake, not a
/// preference — the whole useful curve range is only ~40 °C.
pub const MAX_HYSTERESIS_C: u32 = 20;

/// Response times longer than this would make the daemon feel broken.
pub const MAX_RESPONSE_SECONDS: u64 = 600;

/// Default control tick, seconds.
pub fn default_tick() -> (r: u64)
    ensures
        r == 2,
{
    2
}

pub fn default_min_pwm() -> (r: u8)
    ensures
        r == MIN_PWM_FLOOR,
{
    MIN_PWM_FLOOR
}

pub fn default_step_up() -> (r: u8)
    ensures
        r == 10,
{
    10
}

pub fn default_step_down() -> (r: u8)
    ensures
        r == 3,
{
    3
}

pub fn default_deadband() -> (r: u8)
    ensures
        r == 3,
{
    3
}

pub fn default_true() -> (r: bool)
    ensures
        r,
{
    true
}

#[derive(Debug, Clone, PartialEq, Eq)]
pub struct DaemonConfig {
    pub tick_seconds: u64,
}

impl Default for DaemonConfig {
    fn default() -> (r: Self)
        ensures
            r.tick_seconds == 2,
    {
        DaemonConfig { tick_seconds: default_tick() }
    }
}

#[derive(Debug, Clone, PartialEq, Eq)]
pub struct HwmonSensor {
    pub hwmon_name: String,
    pub input: String,
}

#[derive(Debug, Clone, PartialEq, Eq)]
pub struct NvmlSensor {
    pub device_index: u32,
}

#[derive(Debug, Clone, PartialEq, Eq)]
pub enum SensorConfig {
    Hwmon(HwmonSensor),
    Nvml(NvmlSensor),
}

/// Points as written in TOML: whole-degree temps, pwm parsed wide (u16) so
/// out-of-range values reach validation instead of a parse error.
#[derive(Debug, Clone, PartialEq, Eq)]
pub struct GraphCurve {
    pub sensor: String,
    pub points: Vec<(i32, u16)>,
    /// `hysteresis_up` (°C the input must rise from the last accepted
    /// value) is a finite value in `0..=MAX_HYSTERESIS_C`.
    pub hysteresis_up_in_range: bool,
    /// `hysteresis_down` is a finite value in `0..=MAX_HYSTERESIS_C`.
    pub hysteresis_down_in_range: bool,
    /// Seconds a change must persist before it is accepted (0 = off).
    pub response_seconds: u64,
    /// Bypass hysteresis at the curve's endpoints so the fan still reaches
    /// full speed promptly and settles all the way back to idle.
    pub ignore_hysteresis_at_extremes: bool,
}

#[derive(Debug, Clone, Copy, PartialEq, Eq)]
pub enum MixFunction {
    Max,
    Min,
    Average,
}

impl Default for MixFunction {
    /// Max is the safety-documented default: whichever component demands
    /// the most cooling wins.
    fn default() -> (r: Self)
        ensures
            r == MixFunction::Max,
    {
        MixFunction::Max
    }
}

pub open spec fn mix_function_name(f: MixFunction) -> Seq<char> {
    match f {
        MixFunction::Max => "max"@,
        MixFunction::Min => "min"@,
        MixFunction::Average => "average"@,
    }
}

impl MixFunction {
    pub fn as_str(self) -> (s: &'static str)
        ensures
            s@ == mix_function_name(self),
    {
        proof {
            reveal_strlit("max");
            reveal_strlit("min");
            reveal_strlit("average");
        }
        match self {
            MixFunction::Max => "max",
            MixFunction::Min => "min",
            MixFunction::Average => "average",
        }
    }
}

#[derive(Debug, Clone, PartialEq, Eq)]
pub struct MixCurve {
    /// How member outputs combine.
    pub function: MixFunction,
    pub curves: Vec<String>,
}

#[derive(Debug, Clone, PartialEq, Eq)]
pub struct FlatCurve {
    /// Wide (u16) for the same reason as graph points.
    pub pwm: u16,
}

/// A two-state step curve: idle duty below the deadband, load duty above
/// it, latching in between. pwm parsed wide (u16) like graph points.
#[derive(Debug, Clone, PartialEq, Eq)]
pub struct TriggerCurve {
    pub sensor: String,
    /// `idle_temp` and `load_temp` are both finite and `idle_temp` lies
    /// strictly below `load_temp`.
    pub thresholds_ordered: bool,
    pub idle_pwm: u16,
    pub load_pwm: u16,
    /// Seconds a crossing must persist before the latch flips (0 = instant).
    pub response_seconds: u64,
}

#[derive(Debug, Clone, PartialEq, Eq)]
pub enum CurveConfig {
    Graph(GraphCurve),
    Mix(MixCurve),
    Flat(FlatCurve),
    Trigger(TriggerCurve),
}

#[derive(Debug, Clone, PartialEq, Eq)]
pub struct ChannelConfig {
    pub hwmon_name: String,
    /// The one curve driving this channel (mixing is a curve's job).
    pub curve: String,
    pub min_pwm: u8,
    pub smoothing_seconds: u64,
    pub max_step_up: u8,
    pub max_step_down: u8,
    pub deadband: u8,
    /// Signed bias added to the curve output before the min_pwm..255 clamp.
    pub offset_pwm: i16,
}

#[derive(Debug, Clone, PartialEq, Eq)]
pub struct Config {
    pub daemon: DaemonConfig,
    pub sensors: Vec<(String, SensorConfig)>,
    pub curves: Vec<(String, CurveConfig)>,
    pub channels: Vec<(String, ChannelConfig)>,
}

#[derive(Debug, Clone, PartialEq, Eq)]
pub enum ValidationError {
    TickZero,
    CurveTooFewPoints(String),
    CurveUnsorted { curve: String, index: usize },
    PwmOutOfRange { curve: String, index: usize, pwm: u16 },
    CurveUnknownSensor { curve: String, sensor: String },
    BadHysteresis { curve: String, field: &'static str, max: u32 },
    EmptyMix { curve: String },
    MixUnknownCurve { curve: String, member: String },
    DuplicateMixMember { curve: String, member: String },
    MixCycle { curve: String },
    FlatPwmOutOfRange { curve: String, pwm: u16 },
    TriggerPwmOutOfRange { curve: String, field: &'static str, pwm: u16 },
    TriggerThresholdsUnordered { curve: String },
    UnknownCurve { channel: String, curve: String },
    TriggerOnPumpChannel { channel: String, curve: String },
    OffsetOutOfRange { channel: String, offset: i16 },
    MinPwmBelowFloor { channel: String, min_pwm: u8, floor: u8 },
    MinPwmBelowPumpFloor { channel: String, min_pwm: u8, floor: u8 },
    ZeroStep { channel: String },
    ZeroSmoothing { channel: String },
    BadChannelName { channel: String },
}

/// Only canonical `pwmN` names: `pwm` followed by the canonical decimal
/// form of a `u32`.
pub open spec fn is_pwm_name_spec(name: Seq<char>) -> bool {
    &&& name.len() >= 3
    &&& name[0] == 'p' && name[1] == 'w' && name[2] == 'm'
    &&& canonical_u32(name.skip(3))
}

/// Only canonical `pwmN` names pass — `pwm01` names the same physical
/// header as `pwm1` but would dodge every comparison against
/// [`PUMP_CHANNEL`] (pump floor, trigger ban) and let two channel entries
/// alias one header.
pub fn is_pwm_name(name: &str) -> (b: bool)
    ensures
        b == is_pwm_name_spec(name@),
{
    let v = chars_of(name);
    if v.len() < 3 {
        return false;
    }
    if !(v[0] == 'p' && v[1] == 'w' && v[2] == 'm') {
        return false;
    }
    is_canonical_u32_from(&v, 3)
}

/// Some entry of a name-keyed table carries `name`.
pub open spec fn has_key<T>(entries: Seq<(String, T)>, name: Seq<char>) -> bool {
    exists|i: int| 0 <= i < entries.len() && (#[trigger] entries[i]).0@ == name
}

/// Index of the first entry at or after `i` carrying `name`, or the
/// table's length when there is none.
pub open spec fn first_key_from<T>(entries: Seq<(String, T)>, name: Seq<char>, i: int) -> int
    decreases entries.len() - i,
{
    if i < 0 || i >= entries.len() {
        entries.len() as int
    } else if entries[i].0@ == name {
        i
    } else {
        first_key_from(entries, name, i + 1)
    }
}

/// Index of the entry a lookup by `name` finds (the first one carrying it),
/// or the table's length when there is none.
pub open spec fn key_index<T>(entries: Seq<(String, T)>, name: Seq<char>) -> int {
    first_key_from(entries, name, 0)
}

pub proof fn lemma_first_key_from<T>(entries: Seq<(String, T)>, name: Seq<char>, i: int)
    requires
        0 <= i <= entries.len(),
    ensures
        i <= first_key_from(entries, name, i) <= entries.len(),
        first_key_from(entries, name, i) < entries.len() ==> entries[first_key_from(entries, name, i)].0@ == name,
        forall|j: int| i <= j < first_key_from(entries, name, i) ==> entries[j].0@ != name,
    decreases entries.len() - i,
{
    if i < entries.len() && entries[i].0@ != name {
        lemma_first_key_from(entries, name, i + 1);
    }
}

pub proof fn lemma_key_index<T>(entries: Seq<(String, T)>, name: Seq<char>)
    ensures
        0 <= key_index(entries, name) <= entries.len(),
        key_index(entries, name) < entries.len() <==> has_key(entries, name),
        key_index(entries, name) < entries.len() ==> entries[key_index(entries, name)].0@ == name,
        forall|j: int| 0 <= j < key_index(entries, name) ==> entries[j].0@ != name,
{
    lemma_first_key_from(entries, name, 0);
    if has_key(entries, name) {
        let w = choose|i: int| 0 <= i < entries.len() && (#[trigger] entries[i]).0@ == name;
        assert(w >= key_index(entries, name));
    }
}

/// Look `name` up in a name-keyed table: the index of the first entry
/// carrying it.
pub fn find_key<T>(entries: &Vec<(String, T)>, name: &String) -> (r: Option<usize>)
    ensures
        r is Some <==> has_key(entries@, name@),
        r matches Some(i) ==> i == key_index(entries@, name@),
        r matches Some(i) ==> i < entries.len(),
{
    proof {
        lemma_key_index(entries@, name@);
    }
    let mut i: usize = 0;
    while i < entries.len()
        invariant
            0 <= i <= entries.len(),
            forall|j: int| 0 <= j < i ==> entries@[j].0@ != name@,
            first_key_from(entries@, name@, 0) == first_key_from(entries@, name@, i as int),
        decreases entries.len() - i,
    {
        if entries[i].0 == *name {
            return Some(i);
        }
        i = i + 1;
    }
    None
}

/// `a` sorts strictly before `b` in the order of `String`'s `Ord`
/// (character by character by code point; a proper prefix first), the
/// order in which a `BTreeMap` keyed by name holds its entries.
pub open spec fn key_before(a: Seq<char>, b: Seq<char>) -> bool
    decreases a.len(),
{
    if a.len() == 0 {
        b.len() > 0
    } else if b.len() == 0 {
        false
    } else if a[0] != b[0] {
        a[0] < b[0]
    } else {
        key_before(a.drop_first(), b.drop_first())
    }
}

/// A table's names in strictly ascending order (so none occurs twice), as
/// a map keyed by name holds them.
pub open spec fn keys_ascending<T>(t: Seq<(String, T)>) -> bool {
    forall|i: int, j: int| 0 <= i < j < t.len() ==> key_before(#[trigger] t[i].0@, #[trigger] t[j].0@)
}

/// A name never sorts before itself.
pub proof fn lemma_key_before_irreflexive(a: Seq<char>)
    ensures
        !key_before(a, a),
    decreases a.len(),
{
    if a.len() > 0 {
        lemma_key_before_irreflexive(a.drop_first());
    }
}

/// Ascending names are distinct.
pub proof fn lemma_ascending_keys_distinct<T>(t: Seq<(String, T)>, i: int, j: int)
    requires
        keys_ascending(t),
        0 <= i < j < t.len(),
    ensures
        t[i].0@ != t[j].0@,
{
    lemma_key_before_irreflexive(t[i].0@);
}

proof fn lemma_key_before_skip(a: Seq<char>, b: Seq<char>, k: int)
    requires
        0 <= k <= a.len(),
        k <= b.len(),
        a.take(k) == b.take(k),
    ensures
        key_before(a, b) == key_before(a.skip(k), b.skip(k)),
    decreases k,
{
    if k > 0 {
        assert(a[0] == a.take(k)[0] && b[0] == b.take(k)[0]);
        assert(a.drop_first().take(k - 1) =~= a.take(k).drop_first());
        assert(b.drop_first().take(k - 1) =~= b.take(k).drop_first());
        lemma_key_before_skip(a.drop_first(), b.drop_first(), k - 1);
        assert(a.drop_first().skip(k - 1) =~= a.skip(k));
        assert(b.drop_first().skip(k - 1) =~= b.skip(k));
    } else {
        assert(a.skip(0) =~= a);
        assert(b.skip(0) =~= b);
    }
}

/// Whether `a` sorts strictly before `b` as `String`'s `Ord` orders them.
pub fn name_before(a: &String, b: &String) -> (r: bool)
    ensures
        r == key_before(a@, b@),
{
    let va = chars_of(a.as_str());
    let vb = chars_of(b.as_str());
    let mut i: usize = 0;
    while i < va.len() && i < vb.len() && va[i] == vb[i]
        invariant
            0 <= i <= va.len(),
            i <= vb.len(),
            va@ == a@,
            vb@ == b@,
            va@.take(i as int) == vb@.take(i as int),
        decreases va.len() - i,
    {
        assert(va@.take(i + 1) =~= va@.take(i as int).push(va@[i as int]));
        assert(vb@.take(i + 1) =~= vb@.take(i as int).push(vb@[i as int]));
        i = i + 1;
    }
    proof {
        lemma_key_before_skip(va@, vb@, i as int);
    }
    let ghost sa = va@.skip(i as int);
    let ghost sb = vb@.skip(i as int);
    assert(sa.len() == va.len() - i && sb.len() == vb.len() - i);
    if i == va.len() {
        i < vb.len()
    } else if i == vb.len() {
        false
    } else {
        assert(sa[0] == va@[i as int] && sb[0] == vb@[i as int]);
        va[i] < vb[i]
    }
}

fn table_ascending<T>(t: &Vec<(String, T)>) -> (r: bool)
    ensures
        r == keys_ascending(t@),
{
    let mut i: usize = 0;
    while i < t.len()
        invariant
            0 <= i <= t.len(),
            forall|x: int, y: int| 0 <= x < y < t.len() && x < i ==> key_before(#[trigger] t@[x].0@, #[trigger] t@[y].0@),
        decreases t.len() - i,
    {
        let mut j: usize = i + 1;
        while j < t.len()
            invariant
                0 <= i < t.len(),
                i + 1 <= j <= t.len(),
                forall|x: int, y: int|
                    0 <= x < y < t.len() && x < i ==> key_before(#[trigger] t@[x].0@, #[trigger] t@[y].0@),
                forall|y: int| i < y < j ==> key_before(t@[i as int].0@, #[trigger] t@[y].0@),
            decreases t.len() - j,
        {
            if !name_before(&t[i].0, &t[j].0) {
                return false;
            }
            j = j + 1;
        }
        i = i + 1;
    }
    true
}

impl Config {
    /// The config's three tables hold their names as maps keyed by name
    /// would: strictly ascending, so no name occurs twice.
    pub open spec fn keys_in_map_order(&self) -> bool {
        &&& keys_ascending(self.sensors@)
        &&& keys_ascending(self.curves@)
        &&& keys_ascending(self.channels@)
    }

    /// Whether the three tables hold their names as maps would (a config
    /// built from maps keyed by name always does).
    pub fn has_map_order(&self) -> (b: bool)
        ensures
            b == self.keys_in_map_order(),
    {
        table_ascending(&self.sensors) && table_ascending(&self.curves) && table_ascending(&self.channels)
    }
}

} // verus!
