//! The mix-membership graph of a curve table: which curves a mix reaches,
//! whether a trigger curve is reachable from a root, and which mixes lie
//! on a membership cycle.
//!
//! Nodes are entry indices of the curve table; a mix entry `u` has an edge
//! to `v` when one of its member names is found, by lookup, at entry `v`.
//! Unknown member names have no edge (they are reported separately).

use vstd::prelude::*;
use crate::config::{CurveConfig, find_key, has_key, key_index, lemma_key_index};

verus! {

/// The member names of a curve (empty unless it is a mix).
pub open spec fn members_of(c: CurveConfig) -> Seq<String> {
    match c {
        CurveConfig::Mix(m) => m.curves@,
        _ => Seq::empty(),
    }
}

/// Entry `u` is a mix one of whose member names is found at entry `v`.
pub open spec fn mix_edge(curves: Seq<(String, CurveConfig)>, u: int, v: int) -> bool {
    &&& 0 <= u < curves.len()
    &&& 0 <= v < curves.len()
    &&& exists|k: int|
        0 <= k < members_of(curves[u].1).len() && key_index(curves, (#[trigger] members_of(curves[u].1)[k])@)
            == v
}

/// A walk along mix edges (a single node is a walk of length 1).
pub open spec fn is_walk(curves: Seq<(String, CurveConfig)>, p: Seq<int>) -> bool {
    &&& p.len() >= 1
    &&& 0 <= p[0] < curves.len()
    &&& forall|i: int| 0 <= i < p.len() - 1 ==> #[trigger] mix_edge(curves, p[i], p[i + 1])
}

/// `v` can be reached from `u` by following zero or more mix edges.
pub open spec fn reachable(curves: Seq<(String, CurveConfig)>, u: int, v: int) -> bool {
    exists|p: Seq<int>| #[trigger] is_walk(curves, p) && p[0] == u && p.last() == v
}

/// Entry `v` lies on a membership cycle: following one or more mix edges
/// from it leads back to it.
pub open spec fn on_cycle(curves: Seq<(String, CurveConfig)>, v: int) -> bool {
    exists|p: Seq<int>| #[trigger] is_walk(curves, p) && p.len() >= 2 && p[0] == v && p.last() == v
}

/// Some curve in the table lies on a membership cycle.
pub open spec fn has_cycle(curves: Seq<(String, CurveConfig)>) -> bool {
    exists|v: int| 0 <= v < curves.len() && #[trigger] on_cycle(curves, v)
}

/// A trigger curve is reachable from the curve named `root` (directly, or
/// through mixes).
pub open spec fn reaches_trigger_spec(curves: Seq<(String, CurveConfig)>, root: Seq<char>) -> bool {
    &&& has_key(curves, root)
    &&& exists|v: int|
        0 <= v < curves.len() && reachable(curves, key_index(curves, root), v) && (
        #[trigger] curves[v]).1 is Trigger
}

pub proof fn lemma_walk_extend(curves: Seq<(String, CurveConfig)>, p: Seq<int>, w: int)
    requires
        is_walk(curves, p),
        mix_edge(curves, p.last(), w),
    ensures
        is_walk(curves, p.push(w)),
        p.push(w)[0] == p[0],
        p.push(w).last() == w,
{
    let q = p.push(w);
    assert forall|i: int| 0 <= i < q.len() - 1 implies #[trigger] mix_edge(curves, q[i], q[i + 1]) by {
        if i < p.len() - 1 {
            assert(q[i] == p[i] && q[i + 1] == p[i + 1]);
        } else {
            assert(q[i] == p.last() && q[i + 1] == w);
        }
    }
}

pub proof fn lemma_reachable_step(curves: Seq<(String, CurveConfig)>, u: int, x: int, w: int)
    requires
        reachable(curves, u, x),
        mix_edge(curves, x, w),
    ensures
        reachable(curves, u, w),
{
    let p = choose|p: Seq<int>| #[trigger] is_walk(curves, p) && p[0] == u && p.last() == x;
    lemma_walk_extend(curves, p, w);
}

pub proof fn lemma_reachable_refl(curves: Seq<(String, CurveConfig)>, u: int)
    requires
        0 <= u < curves.len(),
    ensures
        reachable(curves, u, u),
{
    let p = seq![u];
    assert(is_walk(curves, p));
}

/// A member name that is found yields an edge from its mix.
pub proof fn lemma_member_edge(curves: Seq<(String, CurveConfig)>, u: int, k: int)
    requires
        0 <= u < curves.len(),
        0 <= k < members_of(curves[u].1).len(),
        has_key(curves, members_of(curves[u].1)[k]@),
    ensures
        mix_edge(curves, u, key_index(curves, members_of(curves[u].1)[k]@)),
{
    lemma_key_index(curves, members_of(curves[u].1)[k]@);
}

/// If every node of `seen` has all its edge targets in `seen`, every walk
/// that starts in `seen` stays in it.
pub proof fn lemma_closed_walk(curves: Seq<(String, CurveConfig)>, seen: Seq<u8>, p: Seq<int>)
    requires
        seen.len() == curves.len(),
        is_walk(curves, p),
        seen[p[0]] != 0,
        forall|u: int, w: int| 0 <= u < curves.len() && seen[u] != 0 && #[trigger] mix_edge(curves, u, w) ==> seen[w] != 0,
    ensures
        seen[p.last()] != 0,
    decreases p.len(),
{
    if p.len() > 1 {
        let q = p.drop_last();
        assert(is_walk(curves, q)) by {
            assert forall|i: int| 0 <= i < q.len() - 1 implies #[trigger] mix_edge(curves, q[i], q[i + 1]) by {
                assert(mix_edge(curves, p[i], p[i + 1]));
            }
        }
        lemma_closed_walk(curves, seen, q);
        let i = p.len() - 2;
        assert(mix_edge(curves, p[i], p[i + 1]));
        assert(q.last() == p[i]);
    }
}

/// Number of zero entries.
pub open spec fn count_zero(s: Seq<u8>) -> nat
    decreases s.len(),
{
    if s.len() == 0 {
        0
    } else {
        count_zero(s.drop_last()) + if s.last() == 0 { 1nat } else { 0nat }
    }
}

pub proof fn lemma_count_zero_set(s: Seq<u8>, i: int, x: u8)
    requires
        0 <= i < s.len(),
        x != 0,
    ensures
        s[i] == 0 ==> count_zero(s.update(i, x)) + 1 == count_zero(s),
        s[i] != 0 ==> count_zero(s.update(i, x)) == count_zero(s),
    decreases s.len(),
{
    let t = s.update(i, x);
    if i < s.len() - 1 {
        assert(t.drop_last() =~= s.drop_last().update(i, x));
        lemma_count_zero_set(s.drop_last(), i, x);
    } else {
        assert(t.drop_last() =~= s.drop_last());
    }
}

pub proof fn lemma_count_zero_mono(s: Seq<u8>, t: Seq<u8>)
    requires
        s.len() == t.len(),
        forall|i: int| 0 <= i < s.len() && s[i] != 0 ==> t[i] != 0,
    ensures
        count_zero(t) <= count_zero(s),
    decreases s.len(),
{
    if s.len() > 0 {
        lemma_count_zero_mono(s.drop_last(), t.drop_last());
        assert(s.drop_last().len() == t.drop_last().len());
        assert(s.last() != 0 ==> t.last() != 0);
    }
}

/// Whether a trigger curve is reachable from `root` (directly or through
/// mixes). A visited set makes this total even on a table with mix cycles.
pub fn reaches_trigger(curves: &Vec<(String, CurveConfig)>, root: &String) -> (b: bool)
    ensures
        b == reaches_trigger_spec(curves@, root@),
{
    let n = curves.len();
    let r = match find_key(curves, root) {
        None => return false,
        Some(r) => r,
    };
    let ghost cs = curves@;
    let mut seen: Vec<u8> = Vec::new();
    let mut i: usize = 0;
    while i < n
        invariant
            0 <= i <= n,
            n == curves.len(),
            seen.len() == i,
            forall|j: int| 0 <= j < i ==> seen@[j] == 0,
        decreases n - i,
    {
        seen.push(0);
        i = i + 1;
    }
    let mut stack: Vec<usize> = Vec::new();
    stack.push(r);
    proof {
        lemma_reachable_refl(cs, r as int);
        assert(stack@[0] == r);
    }
    while stack.len() > 0
        invariant
            cs == curves@,
            n == curves.len(),
            r < n,
            r == key_index(cs, root@),
            has_key(cs, root@),
            seen.len() == n,
            forall|k: int| 0 <= k < stack.len() ==> (#[trigger] stack@[k]) < n,
            forall|k: int| 0 <= k < stack.len() ==> reachable(cs, r as int, #[trigger] stack@[k] as int),
            forall|x: int| 0 <= x < n && #[trigger] seen@[x] != 0 ==> reachable(cs, r as int, x) && !(cs[x].1 is Trigger),
            forall|u: int, w: int|
                0 <= u < n && seen@[u] != 0 && #[trigger] mix_edge(cs, u, w) ==> seen@[w] != 0 || stack@.contains(w as usize),
            seen@[r as int] != 0 || stack@.contains(r),
        decreases count_zero(seen@), stack.len(),
    {
        let ghost old_stack = stack@;
        let ghost old_seen = seen@;
        let u = stack.pop().unwrap();
        assert(old_stack == stack@.push(u));
        assert(old_stack[old_stack.len() - 1] == u);
        if seen[u] != 0 {
            assert forall|x: int, w: int|
                0 <= x < n && seen@[x] != 0 && #[trigger] mix_edge(cs, x, w) implies seen@[w] != 0 || stack@.contains(w as usize) by {
                if !(seen@[w] != 0) {
                    assert(old_stack.contains(w as usize));
                    let k = choose|k: int| 0 <= k < old_stack.len() && old_stack[k] == w as usize;
                    if k < stack.len() {
                        assert(stack@[k] == w as usize);
                    }
                }
            }
            assert(seen@[r as int] != 0 || stack@.contains(r)) by {
                if !(seen@[r as int] != 0) {
                    let k = choose|k: int| 0 <= k < old_stack.len() && old_stack[k] == r;
                    if k < stack.len() {
                        assert(stack@[k] == r);
                    }
                }
            }
            continue;
        }
        assert(reachable(cs, r as int, u as int)) by {
            assert(old_stack[old_stack.len() - 1] == u);
        }
        match &curves[u].1 {
            CurveConfig::Trigger(_) => {
                assert(reaches_trigger_spec(cs, root@)) by {
                    assert(cs[u as int].1 is Trigger);
                }
                return true;
            },
            _ => {},
        }
        seen.set(u, 1);
        proof {
            lemma_count_zero_set(old_seen, u as int, 1);
        }
        let ghost stack_after_pop = stack@;
        match &curves[u].1 {
            CurveConfig::Mix(m) => {
                let mut k: usize = 0;
                while k < m.curves.len()
                    invariant
                        cs == curves@,
                        n == curves.len(),
                        r < n,
                        u < n,
                        cs[u as int].1 == CurveConfig::Mix(*m),
                        reachable(cs, r as int, u as int),
                        0 <= k <= m.curves.len(),
                        stack@.len() >= stack_after_pop.len(),
                        forall|j: int| 0 <= j < stack_after_pop.len() ==> stack@[j] == stack_after_pop[j],
                        forall|j: int| 0 <= j < stack.len() ==> (#[trigger] stack@[j]) < n,
                        forall|j: int| 0 <= j < stack.len() ==> reachable(cs, r as int, #[trigger] stack@[j] as int),
                        forall|j: int|
                            0 <= j < k && has_key(cs, (#[trigger] m.curves@[j])@) ==> stack@.contains(
                                key_index(cs, m.curves@[j]@) as usize,
                            ),
                    decreases m.curves.len() - k,
                {
                    match find_key(curves, &m.curves[k]) {
                        Some(w) => {
                            proof {
                                lemma_member_edge(cs, u as int, k as int);
                                lemma_reachable_step(cs, r as int, u as int, w as int);
                            }
                            let ghost before = stack@;
                            stack.push(w);
                            assert forall|j: int|
                                0 <= j < k + 1 && has_key(cs, (#[trigger] m.curves@[j])@) implies stack@.contains(
                                key_index(cs, m.curves@[j]@) as usize,
                            ) by {
                                if j < k {
                                    let t = choose|t: int| 0 <= t < before.len() && before[t] == key_index(cs, m.curves@[j]@) as usize;
                                    assert(stack@[t] == before[t]);
                                } else {
                                    assert(stack@[stack.len() - 1] == w);
                                }
                            }
                        },
                        None => {},
                    }
                    k = k + 1;
                }
                // Every edge out of u now has its target on the stack.
                assert forall|w: int| #[trigger] mix_edge(cs, u as int, w) implies stack@.contains(w as usize) by {
                    let kk = choose|kk: int|
                        0 <= kk < members_of(cs[u as int].1).len() && key_index(cs, (#[trigger] members_of(cs[u as int].1)[kk])@) == w;
                    lemma_key_index(cs, m.curves@[kk]@);
                    assert(m.curves@[kk] == members_of(cs[u as int].1)[kk]);
                }
            },
            _ => {
                assert forall|w: int| !(#[trigger] mix_edge(cs, u as int, w)) by {}
            },
        }
        assert forall|x: int, w: int|
            0 <= x < n && seen@[x] != 0 && #[trigger] mix_edge(cs, x, w) implies seen@[w] != 0 || stack@.contains(w as usize) by {
            if x != u as int && !(seen@[w] != 0) {
                assert(old_seen[x] != 0);
                assert(w != u as int);
                assert(old_stack.contains(w as usize));
                let t = choose|t: int| 0 <= t < old_stack.len() && old_stack[t] == w as usize;
                assert(t < stack_after_pop.len());
                assert(stack@[t] == stack_after_pop[t]);
            }
        }
        assert(seen@[r as int] != 0 || stack@.contains(r)) by {
            if r != u && !(old_seen[r as int] != 0) {
                let t = choose|t: int| 0 <= t < old_stack.len() && old_stack[t] == r;
                assert(t < stack_after_pop.len());
                assert(stack@[t] == stack_after_pop[t]);
            }
        }
    }
    proof {
        assert forall|v: int| 0 <= v < n && reachable(cs, r as int, v) implies !((#[trigger] cs[v]).1 is Trigger) by {
            let p = choose|p: Seq<int>| #[trigger] is_walk(cs, p) && p[0] == r as int && p.last() == v;
            lemma_closed_walk(cs, seen@, p);
        }
    }
    false
}

/// The characters of each name.
pub open spec fn name_views(names: Seq<String>) -> Seq<Seq<char>> {
    names.map_values(|s: String| s@)
}

/// The depth-first walk from entry `v` over `marks` (0 unvisited, 1 on the
/// current path, 2 finished) with `names` reported so far: a finished
/// entry is skipped; an entry on the path closes a cycle and is reported
/// (once); an unvisited one is put on the path, its members (those that
/// name a curve) are walked in order, and it is finished. `fuel` bounds the
/// nesting; the count of unvisited entries is always enough.
pub open spec fn dfs_visit(
    cs: Seq<(String, CurveConfig)>,
    v: int,
    marks: Seq<u8>,
    names: Seq<Seq<char>>,
    fuel: nat,
) -> (Seq<u8>, Seq<Seq<char>>)
    decreases fuel, 0nat, 0nat,
{
    if marks[v] == 1 {
        (marks, if names.contains(cs[v].0@) { names } else { names.push(cs[v].0@) })
    } else if marks[v] != 0 {
        (marks, names)
    } else if fuel == 0 {
        (marks, names)
    } else {
        let r = dfs_members(cs, v, 0, marks.update(v, 1), names, (fuel - 1) as nat);
        (r.0.update(v, 2), r.1)
    }
}

/// The walk over the members of entry `v` from the `k`-th on.
pub open spec fn dfs_members(
    cs: Seq<(String, CurveConfig)>,
    v: int,
    k: nat,
    marks: Seq<u8>,
    names: Seq<Seq<char>>,
    fuel: nat,
) -> (Seq<u8>, Seq<Seq<char>>)
    decreases fuel, 1nat, members_of(cs[v].1).len() - k,
{
    let ms = members_of(cs[v].1);
    if k >= ms.len() {
        (marks, names)
    } else {
        let r = if has_key(cs, ms[k as int]@) {
            dfs_visit(cs, key_index(cs, ms[k as int]@), marks, names, fuel)
        } else {
            (marks, names)
        };
        dfs_members(cs, v, k + 1, r.0, r.1, fuel)
    }
}

/// The walk started from each entry in table order (each start resolved
/// by lookup of its name), from the `i`-th on.
pub open spec fn dfs_from(cs: Seq<(String, CurveConfig)>, i: int, marks: Seq<u8>, names: Seq<Seq<char>>) -> Seq<
    Seq<char>,
>
    decreases cs.len() - i,
{
    if i < 0 || i >= cs.len() {
        names
    } else {
        let r = dfs_visit(cs, key_index(cs, cs[i].0@), marks, names, count_zero(marks));
        dfs_from(cs, i + 1, r.0, r.1)
    }
}

/// The curves the mix-cycle check reports, in order: each entry where the
/// walk closed a cycle, once.
pub open spec fn mix_cycle_names(cs: Seq<(String, CurveConfig)>) -> Seq<Seq<char>> {
    dfs_from(cs, 0, Seq::new(cs.len(), |i: int| 0u8), Seq::empty())
}

/// The walk only ever marks entries: an entry that was marked stays marked.
pub proof fn lemma_dfs_visit_mono(cs: Seq<(String, CurveConfig)>, v: int, marks: Seq<u8>, names: Seq<Seq<char>>, fuel: nat)
    requires
        0 <= v < cs.len(),
        marks.len() == cs.len(),
    ensures
        dfs_visit(cs, v, marks, names, fuel).0.len() == marks.len(),
        forall|x: int|
            0 <= x < marks.len() && marks[x] != 0 ==> #[trigger] dfs_visit(cs, v, marks, names, fuel).0[x] != 0,
    decreases fuel, 0nat, 0nat,
{
    if marks[v] == 0 && fuel > 0 {
        let m1 = marks.update(v, 1);
        lemma_dfs_members_mono(cs, v, 0, m1, names, (fuel - 1) as nat);
        let r = dfs_members(cs, v, 0, m1, names, (fuel - 1) as nat);
        assert forall|x: int| 0 <= x < marks.len() && marks[x] != 0 implies #[trigger] dfs_visit(
            cs,
            v,
            marks,
            names,
            fuel,
        ).0[x] != 0 by {
            assert(m1[x] != 0);
        }
    }
}

pub proof fn lemma_dfs_members_mono(
    cs: Seq<(String, CurveConfig)>,
    v: int,
    k: nat,
    marks: Seq<u8>,
    names: Seq<Seq<char>>,
    fuel: nat,
)
    requires
        0 <= v < cs.len(),
        marks.len() == cs.len(),
    ensures
        dfs_members(cs, v, k, marks, names, fuel).0.len() == marks.len(),
        forall|x: int|
            0 <= x < marks.len() && marks[x] != 0 ==> #[trigger] dfs_members(cs, v, k, marks, names, fuel).0[x] != 0,
    decreases fuel, 1nat, members_of(cs[v].1).len() - k,
{
    let ms = members_of(cs[v].1);
    if k < ms.len() {
        let r = if has_key(cs, ms[k as int]@) {
            lemma_key_index(cs, ms[k as int]@);
            lemma_dfs_visit_mono(cs, key_index(cs, ms[k as int]@), marks, names, fuel);
            dfs_visit(cs, key_index(cs, ms[k as int]@), marks, names, fuel)
        } else {
            (marks, names)
        };
        lemma_dfs_members_mono(cs, v, k + 1, r.0, r.1, fuel);
        assert forall|x: int| 0 <= x < marks.len() && marks[x] != 0 implies #[trigger] dfs_members(
            cs,
            v,
            k,
            marks,
            names,
            fuel,
        ).0[x] != 0 by {
            assert(r.0[x] != 0);
        }
    }
}

/// Any fuel at least the count of unvisited entries gives the same walk.
pub proof fn lemma_dfs_visit_fuel(
    cs: Seq<(String, CurveConfig)>,
    v: int,
    marks: Seq<u8>,
    names: Seq<Seq<char>>,
    f: nat,
    g: nat,
)
    requires
        0 <= v < cs.len(),
        marks.len() == cs.len(),
        f >= count_zero(marks),
        g >= count_zero(marks),
    ensures
        dfs_visit(cs, v, marks, names, f) == dfs_visit(cs, v, marks, names, g),
    decreases f, 0nat, 0nat,
{
    if marks[v] == 0 {
        lemma_count_zero_set(marks, v, 1);
        let m1 = marks.update(v, 1);
        lemma_dfs_members_fuel(cs, v, 0, m1, names, (f - 1) as nat, (g - 1) as nat);
    }
}

pub proof fn lemma_dfs_members_fuel(
    cs: Seq<(String, CurveConfig)>,
    v: int,
    k: nat,
    marks: Seq<u8>,
    names: Seq<Seq<char>>,
    f: nat,
    g: nat,
)
    requires
        0 <= v < cs.len(),
        marks.len() == cs.len(),
        f >= count_zero(marks),
        g >= count_zero(marks),
    ensures
        dfs_members(cs, v, k, marks, names, f) == dfs_members(cs, v, k, marks, names, g),
    decreases f, 1nat, members_of(cs[v].1).len() - k,
{
    let ms = members_of(cs[v].1);
    if k < ms.len() {
        if has_key(cs, ms[k as int]@) {
            let w = key_index(cs, ms[k as int]@);
            lemma_key_index(cs, ms[k as int]@);
            lemma_dfs_visit_fuel(cs, w, marks, names, f, g);
            lemma_dfs_visit_mono(cs, w, marks, names, f);
            let r = dfs_visit(cs, w, marks, names, f);
            lemma_count_zero_mono(marks, r.0);
            lemma_dfs_members_fuel(cs, v, k + 1, r.0, r.1, f, g);
        } else {
            lemma_dfs_members_fuel(cs, v, k + 1, marks, names, f, g);
        }
    }
}

/// What a cycle report must be: the names of curves that lie on a
/// membership cycle, no name twice, and at least one name exactly when the
/// table has a cycle.
pub open spec fn cycle_report_ok(curves: Seq<(String, CurveConfig)>, names: Seq<String>) -> bool {
    &&& forall|k: int|
        0 <= k < names.len() ==> exists|v: int|
            0 <= v < curves.len() && #[trigger] on_cycle(curves, v) && curves[v].0@ == (#[trigger] names[k])@
    &&& forall|j: int, k: int| 0 <= j < k < names.len() ==> (#[trigger] names[j])@ != (#[trigger] names[k])@
    &&& (names.len() == 0 <==> !has_cycle(curves))
}

/// The depth-first walk's bookkeeping: `marks` is 0 (unvisited), 1 (on
/// the current path `stack`) or 2 (finished, with finishing stamp `fin`);
/// `names`/`cyc` are the cycle reports so far and the entries they name.
/// While nothing has been reported, every edge out of a finished entry
/// leads to an entry that finished earlier.
pub open spec fn dfs_ok(
    curves: Seq<(String, CurveConfig)>,
    marks: Seq<u8>,
    stack: Seq<int>,
    fin: Seq<int>,
    counter: int,
    cyc: Seq<int>,
    names: Seq<String>,
) -> bool {
    let n = curves.len();
    &&& marks.len() == n
    &&& fin.len() == n
    &&& counter >= 0
    &&& forall|x: int| 0 <= x < n ==> #[trigger] marks[x] <= 2
    &&& forall|i: int| 0 <= i < stack.len() ==> 0 <= #[trigger] stack[i] < n && marks[stack[i]] == 1
    &&& forall|x: int| 0 <= x < n && #[trigger] marks[x] == 1 ==> stack.contains(x)
    &&& forall|i: int| 0 <= i < stack.len() - 1 ==> #[trigger] mix_edge(curves, stack[i], stack[i + 1])
    &&& forall|x: int| 0 <= x < n && #[trigger] marks[x] == 2 ==> 0 <= fin[x] < counter
    &&& (names.len() == 0 ==> forall|u: int, w: int|
        0 <= u < n && marks[u] == 2 && #[trigger] mix_edge(curves, u, w) ==> marks[w] == 2 && fin[w] < fin[u])
    &&& cyc.len() == names.len()
    &&& forall|k: int|
        0 <= k < cyc.len() ==> 0 <= #[trigger] cyc[k] < n && on_cycle(curves, cyc[k]) && names[k]@ == curves[cyc[k]].0@
    &&& forall|j: int, k: int| 0 <= j < k < names.len() ==> (#[trigger] names[j])@ != (#[trigger] names[k])@
}

/// Whether some string in `v` has the same characters as `s`.
pub fn contains_name(v: &Vec<String>, s: &String) -> (b: bool)
    ensures
        b == exists|k: int| 0 <= k < v.len() && (#[trigger] v@[k])@ == s@,
{
    let mut i: usize = 0;
    while i < v.len()
        invariant
            0 <= i <= v.len(),
            forall|k: int| 0 <= k < i ==> (#[trigger] v@[k])@ != s@,
        decreases v.len() - i,
    {
        if v[i] == *s {
            return true;
        }
        i = i + 1;
    }
    false
}

/// Along a walk from a finished entry, while nothing has been reported,
/// every entry is finished and finishing stamps strictly decrease.
pub proof fn lemma_walk_finishes_earlier(
    curves: Seq<(String, CurveConfig)>,
    marks: Seq<u8>,
    fin: Seq<int>,
    p: Seq<int>,
)
    requires
        marks.len() == curves.len(),
        fin.len() == curves.len(),
        is_walk(curves, p),
        marks[p[0]] == 2,
        forall|u: int, w: int|
            0 <= u < curves.len() && marks[u] == 2 && #[trigger] mix_edge(curves, u, w) ==> marks[w] == 2 && fin[w] < fin[u],
    ensures
        marks[p.last()] == 2,
        p.len() >= 2 ==> fin[p.last()] < fin[p[0]],
        0 <= p.last() < curves.len(),
    decreases p.len(),
{
    if p.len() > 1 {
        let q = p.drop_last();
        assert(is_walk(curves, q)) by {
            assert forall|i: int| 0 <= i < q.len() - 1 implies #[trigger] mix_edge(curves, q[i], q[i + 1]) by {
                assert(mix_edge(curves, p[i], p[i + 1]));
            }
        }
        lemma_walk_finishes_earlier(curves, marks, fin, q);
        let i = p.len() - 2;
        assert(mix_edge(curves, p[i], p[i + 1]));
        assert(q.last() == p[i]);
    }
}

/// An entry that is the target of an edge is the one a lookup of its own
/// name finds.
pub proof fn lemma_edge_target_canonical(curves: Seq<(String, CurveConfig)>, u: int, w: int)
    requires
        mix_edge(curves, u, w),
    ensures
        key_index(curves, curves[w].0@) == w,
{
    let k = choose|k: int|
        0 <= k < members_of(curves[u].1).len() && key_index(curves, (#[trigger] members_of(curves[u].1)[k])@) == w;
    lemma_key_index(curves, members_of(curves[u].1)[k]@);
}

fn visit(
    curves: &Vec<(String, CurveConfig)>,
    v: usize,
    marks: &mut Vec<u8>,
    names: &mut Vec<String>,
    Ghost(stack): Ghost<Seq<int>>,
    fin: &mut Ghost<Seq<int>>,
    counter: &mut Ghost<int>,
    cyc: &mut Ghost<Seq<int>>,
)
    requires
        v < curves.len(),
        dfs_ok(curves@, old(marks)@, stack, old(fin)@, old(counter)@, old(cyc)@, old(names)@),
        stack.len() > 0 ==> mix_edge(curves@, stack.last(), v as int),
    ensures
        dfs_ok(curves@, final(marks)@, stack, final(fin)@, final(counter)@, final(cyc)@, final(names)@),
        forall|x: int| 0 <= x < curves.len() && old(marks)@[x] != 0 ==> #[trigger] final(marks)@[x] == old(marks)@[x],
        forall|x: int| 0 <= x < curves.len() && old(marks)@[x] == 2 ==> #[trigger] final(fin)@[x] == old(fin)@[x],
        final(counter)@ >= old(counter)@,
        final(names)@.len() >= old(names)@.len(),
        old(marks)@[v as int] == 1 ==> final(names)@.len() > 0,
        old(marks)@[v as int] != 1 ==> final(marks)@[v as int] == 2,
        count_zero(final(marks)@) <= count_zero(old(marks)@),
        (final(marks)@, name_views(final(names)@)) == dfs_visit(
            curves@,
            v as int,
            old(marks)@,
            name_views(old(names)@),
            count_zero(old(marks)@),
        ),
    decreases count_zero(old(marks)@),
{
    let ghost cs = curves@;
    let ghost n = cs.len();
    let mv = marks[v];
    if mv == 2 {
        return;
    }
    if mv == 1 {
        // Back edge: `v` is on the current path, so the path from `v` to
        // its end, plus the edge into `v`, is a cycle through `v`.
        proof {
            assert(stack.contains(v as int));
            let i = choose|i: int| 0 <= i < stack.len() && stack[i] == v as int;
            let p = stack.subrange(i, stack.len() as int).push(v as int);
            assert(is_walk(cs, p)) by {
                assert forall|j: int| 0 <= j < p.len() - 1 implies #[trigger] mix_edge(cs, p[j], p[j + 1]) by {
                    if j < p.len() - 2 {
                        assert(p[j] == stack[i + j] && p[j + 1] == stack[i + j + 1]);
                        assert(mix_edge(cs, stack[i + j], stack[i + j + 1]));
                    } else {
                        assert(p[j] == stack.last());
                    }
                }
            }
            assert(on_cycle(cs, v as int));
        }
        let ghost nv = name_views(names@);
        let present = contains_name(names, &curves[v].0);
        proof {
            if present {
                let k = choose|k: int| 0 <= k < names@.len() && (#[trigger] names@[k])@ == curves@[v as int].0@;
                assert(nv[k] == curves@[v as int].0@);
            } else {
                assert forall|k: int| 0 <= k < nv.len() implies nv[k] != curves@[v as int].0@ by {
                    assert(nv[k] == names@[k]@);
                }
            }
        }
        if !present {
            let ghost old_names = names@;
            names.push(curves[v].0.clone());
            proof {
                assert(name_views(names@) =~= nv.push(curves@[v as int].0@));
                cyc@ = cyc@.push(v as int);
                assert forall|j: int, k: int| 0 <= j < k < names@.len() implies (#[trigger] names@[j])@ != (
                #[trigger] names@[k])@ by {
                    if k == names@.len() - 1 {
                        assert(names@[j] == old_names[j]);
                    } else {
                        assert(names@[j] == old_names[j] && names@[k] == old_names[k]);
                    }
                }
                assert forall|k: int| 0 <= k < cyc@.len() implies 0 <= #[trigger] cyc@[k] < n && on_cycle(cs, cyc@[k])
                    && names@[k]@ == cs[cyc@[k]].0@ by {
                    if k < old_names.len() {
                        assert(names@[k] == old_names[k]);
                    }
                }
            }
        }
        return;
    }
    let ghost m0 = marks@;
    let ghost nv0 = name_views(names@);
    let ghost fuel = (count_zero(m0) - 1) as nat;
    marks.set(v, 1);
    let ghost m1 = marks@;
    let ghost fin1 = fin@;
    let ghost stack2 = stack.push(v as int);
    proof {
        lemma_count_zero_set(m0, v as int, 1);
        assert(!stack.contains(v as int)) by {
            if stack.contains(v as int) {
                let i = choose|i: int| 0 <= i < stack.len() && stack[i] == v as int;
                assert(m0[stack[i]] == 1);
            }
        }
        assert(dfs_ok(cs, marks@, stack2, fin@, counter@, cyc@, names@)) by {
            assert forall|i: int| 0 <= i < stack2.len() implies 0 <= #[trigger] stack2[i] < n && marks@[stack2[i]] == 1 by {
                if i < stack.len() {
                    assert(stack2[i] == stack[i]);
                }
            }
            assert forall|x: int| 0 <= x < n && #[trigger] marks@[x] == 1 implies stack2.contains(x) by {
                if x == v as int {
                    assert(stack2[stack.len() as int] == x);
                } else {
                    assert(m0[x] == 1);
                    let i = choose|i: int| 0 <= i < stack.len() && stack[i] == x;
                    assert(stack2[i] == x);
                }
            }
            assert forall|i: int| 0 <= i < stack2.len() - 1 implies #[trigger] mix_edge(cs, stack2[i], stack2[i + 1]) by {
                if i < stack.len() - 1 {
                    assert(stack2[i] == stack[i] && stack2[i + 1] == stack[i + 1]);
                } else {
                    assert(stack2[i] == stack.last());
                }
            }
        }
    }
    match &curves[v].1 {
        CurveConfig::Mix(mx) => {
            let mut k: usize = 0;
            while k < mx.curves.len()
                invariant
                    cs == curves@,
                    n == cs.len(),
                    v < n,
                    cs[v as int].1 == CurveConfig::Mix(*mx),
                    stack2 == stack.push(v as int),
                    m1.len() == n,
                    m1[v as int] == 1,
                    count_zero(m1) < count_zero(old(marks)@),
                    fin1.len() == n,
                    0 <= k <= mx.curves.len(),
                    dfs_ok(cs, marks@, stack2, fin@, counter@, cyc@, names@),
                    forall|x: int| 0 <= x < n && m1[x] != 0 ==> #[trigger] marks@[x] == m1[x],
                    forall|x: int| 0 <= x < n && m1[x] == 2 ==> #[trigger] fin@[x] == fin1[x],
                    counter@ >= old(counter)@,
                    names@.len() >= old(names)@.len(),
                    count_zero(marks@) <= count_zero(m1),
                    count_zero(m1) == fuel,
                    members_of(cs[v as int].1) == mx.curves@,
                    dfs_members(cs, v as int, 0, m1, nv0, fuel) == dfs_members(
                        cs,
                        v as int,
                        k as nat,
                        marks@,
                        name_views(names@),
                        fuel,
                    ),
                    names@.len() == 0 ==> forall|j: int|
                        0 <= j < k && has_key(cs, (#[trigger] mx.curves@[j])@) ==> marks@[key_index(cs, mx.curves@[j]@)] == 2,
                decreases mx.curves.len() - k,
            {
                match find_key(curves, &mx.curves[k]) {
                    Some(w) => {
                        proof {
                            lemma_member_edge(cs, v as int, k as int);
                        }
                        let ghost mb = marks@;
                        let ghost nb = name_views(names@);
                        let ghost finb = fin@;
                        assert(count_zero(marks@) < count_zero(old(marks)@));
                        visit(curves, w, marks, names, Ghost(stack2), fin, counter, cyc);
                        proof {
                            lemma_key_index(cs, mx.curves@[k as int]@);
                            lemma_dfs_visit_fuel(cs, w as int, mb, nb, count_zero(mb), fuel);
                            assert(dfs_members(cs, v as int, k as nat, mb, nb, fuel) == dfs_members(
                                cs,
                                v as int,
                                (k + 1) as nat,
                                marks@,
                                name_views(names@),
                                fuel,
                            ));
                            lemma_count_zero_mono(mb, marks@);
                            assert forall|x: int| 0 <= x < n && m1[x] != 0 implies #[trigger] marks@[x] == m1[x] by {
                                assert(mb[x] == m1[x]);
                            }
                            assert forall|x: int| 0 <= x < n && m1[x] == 2 implies #[trigger] fin@[x] == fin1[x] by {
                                assert(mb[x] == 2);
                                assert(finb[x] == fin1[x]);
                            }
                            if names@.len() == 0 {
                                assert(mb[w as int] != 1);
                                assert forall|j: int|
                                    0 <= j < k + 1 && has_key(cs, (#[trigger] mx.curves@[j])@) implies marks@[key_index(cs, mx.curves@[j]@)] == 2 by {
                                    if j < k {
                                        lemma_key_index(cs, mx.curves@[j]@);
                                        assert(mb[key_index(cs, mx.curves@[j]@)] == 2);
                                    }
                                }
                            }
                        }
                    },
                    None => {
                        proof {
                            assert(dfs_members(cs, v as int, k as nat, marks@, name_views(names@), fuel) == dfs_members(
                                cs,
                                v as int,
                                (k + 1) as nat,
                                marks@,
                                name_views(names@),
                                fuel,
                            ));
                        }
                    },
                }
                k = k + 1;
            }
        },
        _ => {},
    }
    let ghost m2 = marks@;
    proof {
        assert(dfs_members(cs, v as int, 0, m1, nv0, fuel) == (m2, name_views(names@)));
    }
    let ghost fin2 = fin@;
    let ghost c2 = counter@;
    proof {
        // Nothing but the visits above touched `v`'s mark.
        assert(m2[v as int] == 1);
        if names@.len() == 0 {
            assert forall|w: int| #[trigger] mix_edge(cs, v as int, w) implies m2[w] == 2 by {
                let kk = choose|kk: int|
                    0 <= kk < members_of(cs[v as int].1).len() && key_index(cs, (#[trigger] members_of(cs[v as int].1)[kk])@) == w;
                lemma_key_index(cs, members_of(cs[v as int].1)[kk]@);
                match cs[v as int].1 {
                    CurveConfig::Mix(mx) => {
                        assert(mx.curves@[kk] == members_of(cs[v as int].1)[kk]);
                    },
                    _ => {},
                }
            }
        }
    }
    marks.set(v, 2);
    proof {
        fin@ = fin@.update(v as int, c2);
        counter@ = c2 + 1;
        lemma_count_zero_mono(m2, marks@);
        lemma_count_zero_mono(m0, m2);
        assert forall|x: int| 0 <= x < n && m0[x] != 0 implies #[trigger] marks@[x] == m0[x] by {
            assert(x != v as int);
            assert(m1[x] == m0[x]);
        }
        assert forall|x: int| 0 <= x < n && m0[x] == 2 implies #[trigger] fin@[x] == old(fin)@[x] by {
            assert(x != v as int);
            assert(m1[x] == 2);
        }
        assert(dfs_ok(cs, marks@, stack, fin@, counter@, cyc@, names@)) by {
            assert forall|x: int| 0 <= x < n implies #[trigger] marks@[x] <= 2 by {
                if x != v as int {
                    assert(marks@[x] == m2[x]);
                }
            }
            assert forall|i: int| 0 <= i < stack.len() implies 0 <= #[trigger] stack[i] < n && marks@[stack[i]] == 1 by {
                assert(stack2[i] == stack[i]);
                assert(m2[stack2[i]] == 1);
                assert(stack[i] != v as int);
            }
            assert forall|x: int| 0 <= x < n && #[trigger] marks@[x] == 1 implies stack.contains(x) by {
                assert(x != v as int);
                assert(m2[x] == 1);
                assert(stack2.contains(x));
                let i = choose|i: int| 0 <= i < stack2.len() && stack2[i] == x;
                assert(i < stack.len());
                assert(stack[i] == x);
            }
            assert forall|i: int| 0 <= i < stack.len() - 1 implies #[trigger] mix_edge(cs, stack[i], stack[i + 1]) by {
                assert(stack2[i] == stack[i] && stack2[i + 1] == stack[i + 1]);
                assert(mix_edge(cs, stack2[i], stack2[i + 1]));
            }
            assert forall|x: int| 0 <= x < n && #[trigger] marks@[x] == 2 implies 0 <= fin@[x] < counter@ by {
                if x != v as int {
                    assert(m2[x] == 2);
                    assert(fin@[x] == fin2[x]);
                    assert(fin2[x] < c2);
                } else {
                    assert(fin@[x] == c2);
                }
            }
            if names@.len() == 0 {
                assert forall|u: int, w: int|
                    0 <= u < n && marks@[u] == 2 && #[trigger] mix_edge(cs, u, w) implies marks@[w] == 2 && fin@[w] < fin@[u] by {
                    if u == v as int {
                        assert(m2[w] == 2);
                        assert(w != v as int);
                    } else {
                        assert(m2[u] == 2);
                        assert(m2[w] == 2 && fin2[w] < fin2[u]);
                        assert(w != v as int);
                    }
                }
            }
        }
    }
}

/// Depth-first walk over mix membership from each curve in table order:
/// every curve where the walk closes a cycle is reported, once, in walk
/// order. The result names only curves on cycles and is non-empty exactly
/// when the table has a cycle. Unknown members are skipped here — they get
/// their own `MixUnknownCurve` error.
pub fn detect_mix_cycles(curves: &Vec<(String, CurveConfig)>) -> (names: Vec<String>)
    ensures
        cycle_report_ok(curves@, names@),
        name_views(names@) == mix_cycle_names(curves@),
{
    let ghost cs = curves@;
    let n = curves.len();
    let mut marks: Vec<u8> = Vec::new();
    let mut i: usize = 0;
    while i < n
        invariant
            0 <= i <= n,
            n == curves.len(),
            marks.len() == i,
            forall|j: int| 0 <= j < i ==> marks@[j] == 0,
        decreases n - i,
    {
        marks.push(0);
        i = i + 1;
    }
    let mut names: Vec<String> = Vec::new();
    proof {
        assert(marks@ =~= Seq::new(cs.len(), |j: int| 0u8));
        assert(name_views(names@) =~= Seq::<Seq<char>>::empty());
    }
    let mut fin: Ghost<Seq<int>> = Ghost(Seq::new(n as nat, |j: int| 0int));
    let mut counter: Ghost<int> = Ghost(0);
    let mut cyc: Ghost<Seq<int>> = Ghost(Seq::empty());
    let mut i: usize = 0;
    while i < n
        invariant
            cs == curves@,
            n == cs.len(),
            0 <= i <= n,
            dfs_ok(cs, marks@, Seq::empty(), fin@, counter@, cyc@, names@),
            forall|j: int| 0 <= j < i ==> #[trigger] marks@[key_index(cs, cs[j].0@)] == 2,
            mix_cycle_names(cs) == dfs_from(cs, i as int, marks@, name_views(names@)),
        decreases n - i,
    {
        proof {
            lemma_key_index(cs, cs[i as int].0@);
        }
        let v = find_key(curves, &curves[i].0).unwrap();
        let ghost mb = marks@;
        visit(curves, v, &mut marks, &mut names, Ghost(Seq::empty()), &mut fin, &mut counter, &mut cyc);
        proof {
            assert(mb[v as int] != 1) by {
                if mb[v as int] == 1 {
                    let e: Seq<int> = Seq::empty();
                    assert(e.contains(v as int));
                }
            }
            assert forall|j: int| 0 <= j < i + 1 implies #[trigger] marks@[key_index(cs, cs[j].0@)] == 2 by {
                if j < i {
                    lemma_key_index(cs, cs[j].0@);
                    assert(mb[key_index(cs, cs[j].0@)] == 2);
                }
            }
        }
        i = i + 1;
    }
    proof {
        if names@.len() == 0 {
            assert forall|v: int| 0 <= v < n implies !(#[trigger] on_cycle(cs, v)) by {
                if on_cycle(cs, v) {
                    let p = choose|p: Seq<int>| #[trigger] is_walk(cs, p) && p.len() >= 2 && p[0] == v && p.last() == v;
                    let j = p.len() - 2;
                    assert(mix_edge(cs, p[j], p[j + 1]));
                    lemma_edge_target_canonical(cs, p[j], p[j + 1]);
                    assert(marks@[key_index(cs, cs[v].0@)] == 2);
                    lemma_walk_finishes_earlier(cs, marks@, fin@, p);
                }
            }
        } else {
            assert(on_cycle(cs, cyc@[0]));
            assert(has_cycle(cs));
        }
        assert forall|k: int| 0 <= k < names@.len() implies exists|v: int|
            0 <= v < cs.len() && #[trigger] on_cycle(cs, v) && cs[v].0@ == (#[trigger] names@[k])@ by {
            assert(on_cycle(cs, cyc@[k]));
        }
    }
    names
}

} // verus!
