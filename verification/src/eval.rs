//! Curve-tree resolution and output combination.
//!
//! A channel's bound curve is resolved against the curve table into an
//! owned [`CurvePlan`]: graph and trigger leaves (each read at its own
//! sensor), flat constants, and mix nodes combining their members'
//! *outputs* — never their temperatures, since 70 °C means different
//! things per component. The caller attaches the per-tick state (smoothing
//! windows, hysteresis filters, trigger latches) to the plan's leaves and
//! interpolates graph curves; [`combine`] folds member outputs.

use vstd::prelude::*;
use crate::config::{CurveConfig, MixFunction, find_key, has_key, key_index};
use crate::curve_graph::contains_name;

verus! {

/// Trees deeper than this can only come from an unvalidated config (cycles
/// are rejected by validation); the cap makes `build` total anyway.
pub const MAX_DEPTH: usize = 16;

#[derive(Debug, Clone, Copy, PartialEq, Eq)]
pub enum CurveError {
    Empty,
    NotStrictlyIncreasing(usize),
    PwmOutOfRange { index: usize, pwm: u16 },
}

/// Index of the first point at or after `i` whose pwm exceeds 255, or the
/// length when there is none.
pub open spec fn first_wide_pwm(pts: Seq<(i32, u16)>, i: int) -> int
    decreases pts.len() - i,
{
    if i < 0 || i >= pts.len() {
        pts.len() as int
    } else if pts[i].1 > 255 {
        i
    } else {
        first_wide_pwm(pts, i + 1)
    }
}

/// Index of the first point at or after `i` (and after the first point)
/// whose temperature does not rise above its predecessor's, or the length.
pub open spec fn first_unsorted(pts: Seq<(i32, u16)>, i: int) -> int
    decreases pts.len() - i,
{
    if i < 1 || i >= pts.len() {
        pts.len() as int
    } else if pts[i].0 <= pts[i - 1].0 {
        i
    } else {
        first_unsorted(pts, i + 1)
    }
}

/// The outcome of turning configured points into curve points: the first
/// out-of-range pwm, else emptiness, else the first unsorted point.
pub open spec fn curve_points_error(pts: Seq<(i32, u16)>) -> Option<CurveError> {
    if first_wide_pwm(pts, 0) < pts.len() {
        Some(CurveError::PwmOutOfRange { index: first_wide_pwm(pts, 0) as usize, pwm: pts[first_wide_pwm(pts, 0)].1 })
    } else if pts.len() == 0 {
        Some(CurveError::Empty)
    } else if first_unsorted(pts, 1) < pts.len() {
        Some(CurveError::NotStrictlyIncreasing(first_unsorted(pts, 1) as usize))
    } else {
        None
    }
}

/// The configured points narrowed to 8-bit pwm.
pub open spec fn narrowed(pts: Seq<(i32, u16)>, out: Seq<(i32, u8)>) -> bool {
    &&& out.len() == pts.len()
    &&& forall|i: int| 0 <= i < pts.len() ==> (#[trigger] out[i]).0 == pts[i].0 && out[i].1 == pts[i].1
}

pub proof fn lemma_first_from(pts: Seq<(i32, u16)>, i: int)
    requires
        0 <= i <= pts.len(),
    ensures
        i <= first_wide_pwm(pts, i) <= pts.len(),
        forall|j: int| i <= j < first_wide_pwm(pts, i) ==> pts[j].1 <= 255,
        first_wide_pwm(pts, i) < pts.len() ==> pts[first_wide_pwm(pts, i)].1 > 255,
    decreases pts.len() - i,
{
    if i < pts.len() && pts[i].1 <= 255 {
        lemma_first_from(pts, i + 1);
    }
}

pub proof fn lemma_first_unsorted_from(pts: Seq<(i32, u16)>, i: int)
    requires
        1 <= i <= pts.len(),
    ensures
        i <= first_unsorted(pts, i) <= pts.len(),
        forall|j: int| i <= j < first_unsorted(pts, i) ==> (#[trigger] pts[j]).0 > pts[j - 1].0,
        first_unsorted(pts, i) < pts.len() ==> pts[first_unsorted(pts, i)].0 <= pts[first_unsorted(pts, i) - 1].0,
    decreases pts.len() - i,
{
    if i < pts.len() && pts[i].0 > pts[i - 1].0 {
        lemma_first_unsorted_from(pts, i + 1);
    }
}

/// Turn a graph curve's configured points into curve points: every pwm
/// must fit in 0..=255, and there must be at least one point with strictly
/// increasing temperatures (temperatures compare exactly, as whole degrees).
pub fn curve_points(points: &Vec<(i32, u16)>) -> (r: Result<Vec<(i32, u8)>, CurveError>)
    ensures
        r matches Err(e) ==> curve_points_error(points@) == Some(e),
        r is Ok <==> curve_points_error(points@) is None,
        r matches Ok(out) ==> narrowed(points@, out@),
{
    let ghost pts = points@;
    let mut out: Vec<(i32, u8)> = Vec::new();
    let mut i: usize = 0;
    while i < points.len()
        invariant
            pts == points@,
            0 <= i <= pts.len(),
            out.len() == i,
            forall|j: int| 0 <= j < i ==> pts[j].1 <= 255,
            forall|j: int| 0 <= j < i ==> (#[trigger] out@[j]).0 == pts[j].0 && out@[j].1 == pts[j].1,
            first_wide_pwm(pts, 0) == first_wide_pwm(pts, i as int),
        decreases points.len() - i,
    {
        let (t, p) = points[i];
        if p > 255 {
            return Err(CurveError::PwmOutOfRange { index: i, pwm: p });
        }
        out.push((t, p as u8));
        i = i + 1;
    }
    if points.len() == 0 {
        return Err(CurveError::Empty);
    }
    let mut i: usize = 1;
    while i < points.len()
        invariant
            pts == points@,
            1 <= i <= pts.len(),
            first_wide_pwm(pts, 0) == pts.len(),
            first_unsorted(pts, 1) == first_unsorted(pts, i as int),
        decreases points.len() - i,
    {
        if points[i].0 <= points[i - 1].0 {
            return Err(CurveError::NotStrictlyIncreasing(i));
        }
        i = i + 1;
    }
    Ok(out)
}

#[derive(Debug, Clone, PartialEq, Eq)]
pub enum TreeError {
    UnknownCurve(String),
    BadCurve { curve: String, source: CurveError },
    FlatPwmOutOfRange { curve: String, pwm: u16 },
    TriggerPwmOutOfRange { curve: String, pwm: u16 },
    TooDeep,
}

/// One node of a resolved curve tree. Mix members are indices of earlier
/// nodes of the same [`CurvePlan`].
#[derive(Debug, Clone, PartialEq, Eq)]
pub enum PlanNode {
    /// Points evaluated at `sensor`; `name` is the name the curve was
    /// resolved under (its hysteresis settings are looked up by it).
    Graph {
        name: String,
        sensor: String,
        points: Vec<(i32, u8)>,
        response_seconds: u64,
        ignore_hysteresis_at_extremes: bool,
    },
    Mix { function: MixFunction, members: Vec<usize> },
    Flat { pwm: u8 },
    /// Latches between two duties; `name` is the name the curve was
    /// resolved under (its thresholds are looked up by it).
    Trigger { name: String, sensor: String, idle_pwm: u8, load_pwm: u8, response_seconds: u64 },
}

/// A channel's curve resolved into an owned tree, stored children-first:
/// every mix node's members come before it, and the root is the last node.
#[derive(Debug, Clone, PartialEq, Eq)]
pub struct CurvePlan {
    pub nodes: Vec<PlanNode>,
}

/// The first error met while resolving curve `name` at nesting `depth`
/// (members in order, depth first), or `None` when it resolves.
pub open spec fn build_error(curves: Seq<(String, CurveConfig)>, name: String, depth: nat) -> Option<TreeError>
    decreases MAX_DEPTH + 2 - depth, 0nat,
{
    if depth > MAX_DEPTH {
        Some(TreeError::TooDeep)
    } else if !has_key(curves, name@) {
        Some(TreeError::UnknownCurve(name))
    } else {
        match curves[key_index(curves, name@)].1 {
            CurveConfig::Graph(g) => match curve_points_error(g.points@) {
                Some(e) => Some(TreeError::BadCurve { curve: name, source: e }),
                None => None,
            },
            CurveConfig::Mix(m) => members_error(curves, m.curves@, depth + 1, 0),
            CurveConfig::Flat(f) => if f.pwm > 255 {
                Some(TreeError::FlatPwmOutOfRange { curve: name, pwm: f.pwm })
            } else {
                None
            },
            CurveConfig::Trigger(t) => if t.idle_pwm > 255 {
                Some(TreeError::TriggerPwmOutOfRange { curve: name, pwm: t.idle_pwm })
            } else if t.load_pwm > 255 {
                Some(TreeError::TriggerPwmOutOfRange { curve: name, pwm: t.load_pwm })
            } else {
                None
            },
        }
    }
}

/// The first error met while resolving `members[k..]` at `depth`.
pub open spec fn members_error(curves: Seq<(String, CurveConfig)>, members: Seq<String>, depth: nat, k: nat) -> Option<
    TreeError,
>
    decreases MAX_DEPTH + 2 - depth, members.len() + 1 - k,
{
    if depth > MAX_DEPTH + 1 || k >= members.len() {
        None
    } else {
        match build_error(curves, members[k as int], depth) {
            Some(e) => Some(e),
            None => members_error(curves, members, depth, k + 1),
        }
    }
}

/// Node `i` of `nodes` is curve `name` resolved at nesting `depth`.
pub open spec fn node_ok(
    curves: Seq<(String, CurveConfig)>,
    name: Seq<char>,
    depth: nat,
    nodes: Seq<PlanNode>,
    i: int,
) -> bool
    decreases MAX_DEPTH + 1 - depth,
{
    &&& 0 <= i < nodes.len()
    &&& depth <= MAX_DEPTH
    &&& has_key(curves, name)
    &&& match curves[key_index(curves, name)].1 {
        CurveConfig::Graph(g) => match nodes[i] {
            PlanNode::Graph { name: n, sensor, points, response_seconds, ignore_hysteresis_at_extremes } => {
                &&& n@ == name
                &&& sensor@ == g.sensor@
                &&& curve_points_error(g.points@) is None
                &&& narrowed(g.points@, points@)
                &&& response_seconds == g.response_seconds
                &&& ignore_hysteresis_at_extremes == g.ignore_hysteresis_at_extremes
            },
            _ => false,
        },
        CurveConfig::Mix(m) => match nodes[i] {
            PlanNode::Mix { function, members } => {
                &&& function == m.function
                &&& members@.len() == m.curves@.len()
                &&& forall|k: int|
                    0 <= k < members@.len() ==> (#[trigger] members@[k]) < i && node_ok(
                        curves,
                        m.curves@[k]@,
                        depth + 1,
                        nodes,
                        members@[k] as int,
                    )
            },
            _ => false,
        },
        CurveConfig::Flat(f) => f.pwm <= 255 && nodes[i] == PlanNode::Flat { pwm: f.pwm as u8 },
        CurveConfig::Trigger(t) => match nodes[i] {
            PlanNode::Trigger { name: n, sensor, idle_pwm, load_pwm, response_seconds } => {
                &&& n@ == name
                &&& sensor@ == t.sensor@
                &&& t.idle_pwm <= 255 && t.load_pwm <= 255
                &&& idle_pwm == t.idle_pwm && load_pwm == t.load_pwm
                &&& response_seconds == t.response_seconds
            },
            _ => false,
        },
    }
}

/// Appending nodes never disturbs an already resolved node.
pub proof fn lemma_node_ok_extend(
    curves: Seq<(String, CurveConfig)>,
    name: Seq<char>,
    depth: nat,
    nodes: Seq<PlanNode>,
    more: Seq<PlanNode>,
    i: int,
)
    requires
        node_ok(curves, name, depth, nodes, i),
        more.len() >= nodes.len(),
        forall|j: int| 0 <= j < nodes.len() ==> more[j] == nodes[j],
    ensures
        node_ok(curves, name, depth, more, i),
    decreases MAX_DEPTH + 1 - depth,
{
    assert(more[i] == nodes[i]);
    match curves[key_index(curves, name)].1 {
        CurveConfig::Mix(m) => match nodes[i] {
            PlanNode::Mix { function, members } => {
                assert forall|k: int|
                    0 <= k < members@.len() implies (#[trigger] members@[k]) < i && node_ok(
                    curves,
                    m.curves@[k]@,
                    depth + 1,
                    more,
                    members@[k] as int,
                ) by {
                    lemma_node_ok_extend(curves, m.curves@[k]@, depth + 1, nodes, more, members@[k] as int);
                }
            },
            _ => {},
        },
        _ => {},
    }
}

fn build_at(
    curves: &Vec<(String, CurveConfig)>,
    name: &String,
    depth: usize,
    nodes: &mut Vec<PlanNode>,
) -> (r: Result<usize, TreeError>)
    requires
        depth <= MAX_DEPTH + 1,
    ensures
        final(nodes)@.len() >= old(nodes)@.len(),
        forall|j: int| 0 <= j < old(nodes)@.len() ==> #[trigger] final(nodes)@[j] == old(nodes)@[j],
        r matches Ok(i) ==> i == final(nodes)@.len() - 1,
        match r {
            Ok(i) => build_error(curves@, *name, depth as nat) is None && node_ok(
                curves@,
                name@,
                depth as nat,
                final(nodes)@,
                i as int,
            ),
            Err(e) => build_error(curves@, *name, depth as nat) == Some(e),
        },
    decreases MAX_DEPTH + 1 - depth,
{
    let ghost cs = curves@;
    if depth > MAX_DEPTH {
        return Err(TreeError::TooDeep);
    }
    let idx = match find_key(curves, name) {
        None => return Err(TreeError::UnknownCurve(name.clone())),
        Some(idx) => idx,
    };
    match &curves[idx].1 {
        CurveConfig::Graph(g) => {
            match curve_points(&g.points) {
                Err(e) => Err(TreeError::BadCurve { curve: name.clone(), source: e }),
                Ok(points) => {
                    nodes.push(
                        PlanNode::Graph {
                            name: name.clone(),
                            sensor: g.sensor.clone(),
                            points,
                            response_seconds: g.response_seconds,
                            ignore_hysteresis_at_extremes: g.ignore_hysteresis_at_extremes,
                        },
                    );
                    Ok(nodes.len() - 1)
                },
            }
        },
        CurveConfig::Flat(f) => {
            if f.pwm > 255 {
                return Err(TreeError::FlatPwmOutOfRange { curve: name.clone(), pwm: f.pwm });
            }
            nodes.push(PlanNode::Flat { pwm: f.pwm as u8 });
            Ok(nodes.len() - 1)
        },
        CurveConfig::Trigger(t) => {
            if t.idle_pwm > 255 {
                return Err(TreeError::TriggerPwmOutOfRange { curve: name.clone(), pwm: t.idle_pwm });
            }
            if t.load_pwm > 255 {
                return Err(TreeError::TriggerPwmOutOfRange { curve: name.clone(), pwm: t.load_pwm });
            }
            nodes.push(
                PlanNode::Trigger {
                    name: name.clone(),
                    sensor: t.sensor.clone(),
                    idle_pwm: t.idle_pwm as u8,
                    load_pwm: t.load_pwm as u8,
                    response_seconds: t.response_seconds,
                },
            );
            Ok(nodes.len() - 1)
        },
        CurveConfig::Mix(m) => {
            let ghost ms = m.curves@;
            let ghost n0 = nodes@;
            let mut members: Vec<usize> = Vec::new();
            let mut k: usize = 0;
            while k < m.curves.len()
                invariant
                    cs == curves@,
                    ms == m.curves@,
                    n0 == old(nodes)@,
                    depth <= MAX_DEPTH,
                    has_key(cs, name@),
                    cs[key_index(cs, name@)].1 == CurveConfig::Mix(*m),
                    0 <= k <= ms.len(),
                    members@.len() == k,
                    nodes@.len() >= n0.len(),
                    forall|j: int| 0 <= j < n0.len() ==> #[trigger] nodes@[j] == n0[j],
                    members_error(cs, ms, (depth + 1) as nat, 0) == members_error(cs, ms, (depth + 1) as nat, k as nat),
                    forall|j: int|
                        0 <= j < k ==> (#[trigger] members@[j]) < nodes@.len() && node_ok(
                            cs,
                            ms[j]@,
                            (depth + 1) as nat,
                            nodes@,
                            members@[j] as int,
                        ),
                decreases m.curves.len() - k,
            {
                let ghost nb = nodes@;
                let r = build_at(curves, &m.curves[k], depth + 1, nodes);
                match r {
                    Err(e) => {
                        return Err(e);
                    },
                    Ok(i) => {
                        proof {
                            assert forall|j: int|
                                0 <= j < k implies (#[trigger] members@[j]) < nodes@.len() && node_ok(
                                cs,
                                ms[j]@,
                                (depth + 1) as nat,
                                nodes@,
                                members@[j] as int,
                            ) by {
                                lemma_node_ok_extend(cs, ms[j]@, (depth + 1) as nat, nb, nodes@, members@[j] as int);
                            }
                        }
                        members.push(i);
                    },
                }
                k = k + 1;
            }
            let ghost nm = nodes@;
            let function = m.function;
            nodes.push(PlanNode::Mix { function, members });
            let at = nodes.len() - 1;
            proof {
                assert forall|j: int|
                    0 <= j < members@.len() implies (#[trigger] members@[j]) < at && node_ok(
                    cs,
                    ms[j]@,
                    (depth + 1) as nat,
                    nodes@,
                    members@[j] as int,
                ) by {
                    lemma_node_ok_extend(cs, ms[j]@, (depth + 1) as nat, nm, nodes@, members@[j] as int);
                }
            }
            Ok(at)
        },
    }
}

impl CurvePlan {
    /// The index of the root node.
    pub open spec fn root(self) -> int {
        self.nodes@.len() - 1
    }

    /// Resolve `root` against the curve table. Fails with the first
    /// problem met (members in order, depth first): an unknown curve, a
    /// graph curve whose points do not make a curve, a flat or trigger pwm
    /// out of range, or nesting deeper than [`MAX_DEPTH`] (a mix cycle).
    pub fn build(curves: &Vec<(String, CurveConfig)>, root: &String) -> (r: Result<CurvePlan, TreeError>)
        ensures
            match r {
                Ok(plan) => build_error(curves@, *root, 0) is None && node_ok(
                    curves@,
                    root@,
                    0,
                    plan.nodes@,
                    plan.root(),
                ),
                Err(e) => build_error(curves@, *root, 0) == Some(e),
            },
    {
        let mut nodes: Vec<PlanNode> = Vec::new();
        match build_at(curves, root, 0, &mut nodes) {
            Err(e) => Err(e),
            Ok(i) => {
                Ok(CurvePlan { nodes })
            },
        }
    }
}

/// The sensors a plan node reads (graph and trigger leaves).
pub open spec fn node_sensor(n: PlanNode) -> Option<Seq<char>> {
    match n {
        PlanNode::Graph { sensor, .. } => Some(sensor@),
        PlanNode::Trigger { sensor, .. } => Some(sensor@),
        _ => None,
    }
}

/// `s` is the sensor of one of the first `i` nodes.
pub open spec fn reads_upto(nodes: Seq<PlanNode>, i: int, s: Seq<char>) -> bool {
    exists|j: int| 0 <= j < i && node_sensor(#[trigger] nodes[j]) == Some(s)
}

/// `s` is the sensor of some node of the plan.
pub open spec fn plan_reads(nodes: Seq<PlanNode>, s: Seq<char>) -> bool {
    reads_upto(nodes, nodes.len() as int, s)
}

/// Some string of `v` has the characters `s`.
pub open spec fn has_name(v: Seq<String>, s: Seq<char>) -> bool {
    exists|k: int| 0 <= k < v.len() && (#[trigger] v[k])@ == s
}

impl CurvePlan {
    /// Every sensor name this plan reads — what the daemon must sample each
    /// tick to evaluate it — each once.
    pub fn sensors(&self) -> (out: Vec<String>)
        ensures
            forall|s: Seq<char>| #[trigger] plan_reads(self.nodes@, s) <==> has_name(out@, s),
            forall|j: int, k: int| 0 <= j < k < out.len() ==> (#[trigger] out@[j])@ != (#[trigger] out@[k])@,
    {
        let ghost ns = self.nodes@;
        let mut out: Vec<String> = Vec::new();
        let mut i: usize = 0;
        while i < self.nodes.len()
            invariant
                ns == self.nodes@,
                0 <= i <= ns.len(),
                forall|s: Seq<char>| #[trigger] reads_upto(ns, i as int, s) <==> has_name(out@, s),
                forall|j: int, k: int| 0 <= j < k < out.len() ==> (#[trigger] out@[j])@ != (#[trigger] out@[k])@,
            decreases self.nodes.len() - i,
        {
            let sensor: Option<&String> = match &self.nodes[i] {
                PlanNode::Graph { sensor, .. } => Some(sensor),
                PlanNode::Trigger { sensor, .. } => Some(sensor),
                _ => None,
            };
            let ghost before = out@;
            match sensor {
                Some(s) => {
                    assert(node_sensor(ns[i as int]) == Some(s@));
                    if !contains_name(&out, s) {
                        out.push(s.clone());
                        proof {
                            assert forall|j: int, k: int| 0 <= j < k < out.len() implies (#[trigger] out@[j])@ != (
                            #[trigger] out@[k])@ by {
                                if k == out.len() - 1 {
                                    assert(out@[j] == before[j]);
                                } else {
                                    assert(out@[j] == before[j] && out@[k] == before[k]);
                                }
                            }
                        }
                    }
                    proof {
                        assert forall|t: Seq<char>| #[trigger] reads_upto(ns, i + 1, t) <==> has_name(out@, t) by {
                            if has_name(out@, t) {
                                let k = choose|k: int| 0 <= k < out.len() && (#[trigger] out@[k])@ == t;
                                if k < before.len() {
                                    assert(before[k] == out@[k]);
                                    assert(has_name(before, t));
                                    assert(reads_upto(ns, i as int, t));
                                } else {
                                    assert(node_sensor(ns[i as int]) == Some(t));
                                }
                            }
                            if reads_upto(ns, i + 1, t) {
                                let j = choose|j: int| 0 <= j < i + 1 && node_sensor(#[trigger] ns[j]) == Some(t);
                                if j == i {
                                    if out.len() > before.len() {
                                        assert(out@[before.len() as int]@ == t);
                                    } else {
                                        let k = choose|k: int| 0 <= k < before.len() && (#[trigger] before[k])@ == s@;
                                        assert(out@[k] == before[k]);
                                    }
                                } else {
                                    assert(reads_upto(ns, i as int, t));
                                    assert(has_name(before, t));
                                    let k = choose|k: int| 0 <= k < before.len() && (#[trigger] before[k])@ == t;
                                    assert(out@[k] == before[k]);
                                }
                            }
                        }
                    }
                },
                None => {
                    assert(node_sensor(ns[i as int]) is None);
                    assert forall|t: Seq<char>| #[trigger] reads_upto(ns, i + 1, t) <==> has_name(out@, t) by {
                        if reads_upto(ns, i + 1, t) {
                            let j = choose|j: int| 0 <= j < i + 1 && node_sensor(#[trigger] ns[j]) == Some(t);
                            assert(j != i);
                            assert(reads_upto(ns, i as int, t));
                        }
                        if has_name(out@, t) {
                            assert(reads_upto(ns, i as int, t));
                        }
                    }
                },
            }
            i = i + 1;
        }
        out
    }
}

pub open spec fn seq_max(s: Seq<u8>) -> int
    decreases s.len(),
{
    if s.len() == 0 {
        0
    } else if s.len() == 1 {
        s[0] as int
    } else {
        let m = seq_max(s.drop_last());
        if s.last() > m {
            s.last() as int
        } else {
            m
        }
    }
}

pub open spec fn seq_min(s: Seq<u8>) -> int
    decreases s.len(),
{
    if s.len() == 0 {
        0
    } else if s.len() == 1 {
        s[0] as int
    } else {
        let m = seq_min(s.drop_last());
        if s.last() < m {
            s.last() as int
        } else {
            m
        }
    }
}

pub open spec fn seq_sum(s: Seq<u8>) -> int
    decreases s.len(),
{
    if s.len() == 0 {
        0
    } else {
        seq_sum(s.drop_last()) + s.last()
    }
}

/// How a mix folds its member outputs: the largest, the smallest, or the
/// mean rounded half up; 0 for no members.
pub open spec fn combine_spec(function: MixFunction, outputs: Seq<u8>) -> int {
    if outputs.len() == 0 {
        0
    } else {
        match function {
            MixFunction::Max => seq_max(outputs),
            MixFunction::Min => seq_min(outputs),
            MixFunction::Average => (2 * seq_sum(outputs) + outputs.len()) / (2 * outputs.len() as int),
        }
    }
}

pub proof fn lemma_seq_sum_bound(s: Seq<u8>)
    ensures
        0 <= seq_sum(s) <= 255 * s.len(),
    decreases s.len(),
{
    if s.len() > 0 {
        lemma_seq_sum_bound(s.drop_last());
    }
}

pub proof fn lemma_seq_max_bounds(s: Seq<u8>)
    requires
        s.len() > 0,
    ensures
        forall|i: int| 0 <= i < s.len() ==> s[i] <= seq_max(s),
        exists|i: int| 0 <= i < s.len() && s[i] == seq_max(s),
    decreases s.len(),
{
    if s.len() > 1 {
        lemma_seq_max_bounds(s.drop_last());
        let w = choose|i: int| 0 <= i < s.drop_last().len() && s.drop_last()[i] == seq_max(s.drop_last());
        if s.last() > seq_max(s.drop_last()) {
            assert(s[s.len() - 1] == seq_max(s));
        } else {
            assert(s[w] == seq_max(s));
        }
        assert forall|i: int| 0 <= i < s.len() implies s[i] <= seq_max(s) by {
            if i < s.len() - 1 {
                assert(s[i] == s.drop_last()[i]);
            }
        }
    } else {
        assert(s[0] == seq_max(s));
    }
}

pub proof fn lemma_seq_min_bounds(s: Seq<u8>)
    requires
        s.len() > 0,
    ensures
        forall|i: int| 0 <= i < s.len() ==> seq_min(s) <= s[i],
        exists|i: int| 0 <= i < s.len() && s[i] == seq_min(s),
    decreases s.len(),
{
    if s.len() > 1 {
        lemma_seq_min_bounds(s.drop_last());
        let w = choose|i: int| 0 <= i < s.drop_last().len() && s.drop_last()[i] == seq_min(s.drop_last());
        if s.last() < seq_min(s.drop_last()) {
            assert(s[s.len() - 1] == seq_min(s));
        } else {
            assert(s[w] == seq_min(s));
        }
        assert forall|i: int| 0 <= i < s.len() implies seq_min(s) <= s[i] by {
            if i < s.len() - 1 {
                assert(s[i] == s.drop_last()[i]);
            }
        }
    } else {
        assert(s[0] == seq_min(s));
    }
}

/// Fold member outputs with a mix function. Every member is evaluated by
/// the caller before this runs, so each graph node's smoothing stays warm.
pub fn combine(function: MixFunction, outputs: &Vec<u8>) -> (r: u8)
    ensures
        r == combine_spec(function, outputs@),
{
    let ghost s = outputs@;
    let n = outputs.len();
    if n == 0 {
        return 0;
    }
    let mut mx: u8 = outputs[0];
    let mut mn: u8 = outputs[0];
    let mut sum: u128 = outputs[0] as u128;
    let mut i: usize = 1;
    proof {
        assert(s.take(1).drop_last() =~= s.take(0));
        assert(s.take(1).last() == s[0]);
        assert(seq_sum(s.take(0)) == 0);
    }
    while i < n
        invariant
            s == outputs@,
            n == s.len(),
            1 <= i <= n,
            mx == seq_max(s.take(i as int)),
            mn == seq_min(s.take(i as int)),
            sum == seq_sum(s.take(i as int)),
            sum <= 255 * i,
        decreases n - i,
    {
        let x = outputs[i];
        proof {
            assert(s.take(i + 1).drop_last() =~= s.take(i as int));
            assert(s.take(i + 1).last() == x);
        }
        if x > mx {
            mx = x;
        }
        if x < mn {
            mn = x;
        }
        sum = sum + x as u128;
        i = i + 1;
    }
    assert(s.take(n as int) =~= s);
    match function {
        MixFunction::Max => mx,
        MixFunction::Min => mn,
        MixFunction::Average => {
            let len: u128 = n as u128;
            proof {
                assert(sum <= 255 * len);
                assert((2 * sum + len) / (2 * len) <= 255) by (nonlinear_arith)
                    requires
                        sum <= 255 * len,
                        len > 0,
                ;
            }
            ((2 * sum + len) / (2 * len)) as u8
        },
    }
}

/// A mix never demands less than its neediest member under `max`, never
/// more than its least needy one under `min`, and its `average` lies
/// between the two; a one-member mix is that member under every function.
pub proof fn lemma_combine_bounds(function: MixFunction, outputs: Seq<u8>)
    requires
        outputs.len() > 0,
    ensures
        forall|i: int| 0 <= i < outputs.len() ==> outputs[i] <= combine_spec(MixFunction::Max, outputs),
        forall|i: int| 0 <= i < outputs.len() ==> combine_spec(MixFunction::Min, outputs) <= outputs[i],
        combine_spec(MixFunction::Min, outputs) <= combine_spec(MixFunction::Average, outputs) <= combine_spec(
            MixFunction::Max,
            outputs,
        ),
        outputs.len() == 1 ==> combine_spec(function, outputs) == outputs[0],
{
    lemma_seq_max_bounds(outputs);
    lemma_seq_min_bounds(outputs);
    lemma_sum_between(outputs);
    let n = outputs.len() as int;
    let sum = seq_sum(outputs);
    let lo = seq_min(outputs);
    let hi = seq_max(outputs);
    assert(lo <= (2 * sum + n) / (2 * n) <= hi) by (nonlinear_arith)
        requires
            n > 0,
            lo * n <= sum <= hi * n,
    ;
}

pub proof fn lemma_sum_between(s: Seq<u8>)
    requires
        s.len() > 0,
    ensures
        seq_min(s) * s.len() <= seq_sum(s) <= seq_max(s) * s.len(),
    decreases s.len(),
{
    lemma_seq_max_bounds(s);
    lemma_seq_min_bounds(s);
    assert(seq_sum(s) == seq_sum(s.drop_last()) + s.last());
    if s.len() == 1 {
        assert(seq_sum(s.drop_last()) == 0);
        assert(s.last() == s[0]);
        assert(seq_min(s) == s[0] && seq_max(s) == s[0]);
    } else {
        let t = s.drop_last();
        lemma_sum_between(t);
        lemma_seq_max_bounds(t);
        lemma_seq_min_bounds(t);
        let n = t.len() as int;
        let lo = seq_min(s);
        let hi = seq_max(s);
        assert(lo <= seq_min(t) && seq_max(t) <= hi);
        assert(lo <= s.last() <= hi);
        assert(lo * n <= seq_min(t) * n) by (nonlinear_arith)
            requires
                lo <= seq_min(t),
                n > 0,
        ;
        assert(seq_max(t) * n <= hi * n) by (nonlinear_arith)
            requires
                seq_max(t) <= hi,
                n > 0,
        ;
        assert(lo * (n + 1) == lo * n + lo) by (nonlinear_arith);
        assert(hi * (n + 1) == hi * n + hi) by (nonlinear_arith);
    }
}

} // verus!
