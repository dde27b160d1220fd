//! Surgical curve edits to a config's raw TOML text.
//!
//! A client that changes one curve must not parse the file into a
//! `Config` and write it back: that would drop every comment, including
//! the hand-written hardware-safety rationale above each channel. These
//! edits go through `toml_edit` and touch only the keys being changed.
//!
//! Business rules (unknown references, cycles, ranges) are not re-checked
//! here — `Config::validate` is the single source of truth, applied by the
//! caller to the edited text.
//!
//! Each edit is stated twice: on a parsed document, as exactly which
//! entries it changes (or which error it refuses with); on the text, as
//! when it succeeds and with which error it refuses. The printed text
//! itself is not modelled.

use vstd::prelude::*;
use crate::edits::{first_entry_from, kind_matches, list_contains, list_has, opt_views, removal_index, ListRefusal};
use crate::toml_doc::{
    lemma_prints, prints_entries,
    array_len, array_nodes, document_entries, lemma_put_nested_same, lemma_put_same, nested_entry, no_entries,
    put_nested, str_entry, strs_of, sub_table, table_entries, toml_entries, TomlNode, array_push_array,
    array_push_int, array_push_str, array_remove, array_str_at, array_value, document_table, document_text,
    item_as_array_mut, item_as_str, item_as_table_mut, new_array, new_table, parse_document, str_value,
    table_contains_key, table_get, table_get_mut, table_insert, table_item, table_remove, table_set, toml_accepts,
};

verus! {

#[derive(Debug)]
pub enum CurveEditError {
    /// The current config is not TOML.
    Parse(toml_edit::TomlError),
    /// `[curves]` is not a table.
    CurvesNotATable,
    /// `[curves.<name>]` is not a table.
    CurveNotATable(String),
    UnknownCurve(String),
    DuplicateCurve(String),
    WrongKind { curve: String, expected: &'static str },
    DuplicateMember { curve: String, member: String },
    UnknownMember { curve: String, member: String },
    /// A mix needs at least one member.
    CannotRemoveLastMember(String),
}

/// The entries of `[curves]` as the edits see them: none when it is
/// missing (it is then created empty), `None` when it is not a table.
pub open spec fn curves_entries(root: Map<Seq<char>, TomlNode>) -> Option<Map<Seq<char>, TomlNode>> {
    if root.contains_key("curves"@) {
        sub_table(root, "curves"@)
    } else {
        Some(no_entries())
    }
}

/// `root` with `[curves]` created empty when it was missing.
pub open spec fn curves_ensured(root: Map<Seq<char>, TomlNode>) -> Map<Seq<char>, TomlNode> {
    if root.contains_key("curves"@) {
        root
    } else {
        root.insert("curves"@, TomlNode::Table(no_entries()))
    }
}

/// `root` with curve `name`'s table now holding `m`.
pub open spec fn with_curve(root: Map<Seq<char>, TomlNode>, name: Seq<char>, m: Map<Seq<char>, TomlNode>) -> Map<
    Seq<char>,
    TomlNode,
> {
    put_nested(root, "curves"@, name, m)
}

/// How looking up a curve of a given kind ends.
pub enum CurveLookup {
    CurvesNotATable,
    Unknown,
    NotATable,
    WrongKind,
    Found(Map<Seq<char>, TomlNode>),
}

/// Looking up curve `name`, expected of kind `kind`, in a document's
/// entries.
pub open spec fn curve_lookup(root: Map<Seq<char>, TomlNode>, name: Seq<char>, kind: Seq<char>) -> CurveLookup {
    match curves_entries(root) {
        None => CurveLookup::CurvesNotATable,
        Some(cs) => if !cs.contains_key(name) {
            CurveLookup::Unknown
        } else {
            match cs[name] {
                TomlNode::Table(m) => if str_entry(m, "kind"@) == Some(kind) {
                    CurveLookup::Found(m)
                } else {
                    CurveLookup::WrongKind
                },
                _ => CurveLookup::NotATable,
            }
        },
    }
}

/// The refusal a failed lookup calls for (none for a found curve).
pub open spec fn lookup_refused<T>(r: Result<T, CurveEditError>, l: CurveLookup, name: Seq<char>, kind: Seq<char>) -> bool {
    match l {
        CurveLookup::CurvesNotATable => r matches Err(CurveEditError::CurvesNotATable),
        CurveLookup::Unknown => r matches Err(CurveEditError::UnknownCurve(c)) && c@ == name,
        CurveLookup::NotATable => r matches Err(CurveEditError::CurveNotATable(c)) && c@ == name,
        CurveLookup::WrongKind => r matches Err(CurveEditError::WrongKind { curve, expected }) && curve@ == name
            && expected@ == kind,
        CurveLookup::Found(_) => false,
    }
}

/// How an edit that only needs the curve found ends.
pub open spec fn lookup_outcome<T>(r: Result<T, CurveEditError>, root: Map<Seq<char>, TomlNode>, name: Seq<char>, kind: Seq<char>) -> bool {
    match curve_lookup(root, name, kind) {
        CurveLookup::Found(_) => r is Ok,
        l => lookup_refused(r, l, name, kind),
    }
}

/// A curve point as a TOML `[temp, pwm]` pair.
pub open spec fn point_node(p: (i32, u8)) -> TomlNode {
    TomlNode::Array(seq![TomlNode::Int(p.0 as int), TomlNode::Int(p.1 as int)])
}

/// Curve points as a TOML array of pairs.
pub open spec fn points_node(points: Seq<(i32, u8)>) -> TomlNode {
    TomlNode::Array(points.map_values(|p: (i32, u8)| point_node(p)))
}

/// `root` with `key` of found curve `name` (of `kind`) set to `n`.
pub open spec fn curve_key_after(
    root: Map<Seq<char>, TomlNode>,
    name: Seq<char>,
    kind: Seq<char>,
    key: Seq<char>,
    n: TomlNode,
) -> Map<Seq<char>, TomlNode> {
    match curve_lookup(root, name, kind) {
        CurveLookup::Found(m) => with_curve(root, name, m.insert(key, n)),
        _ => curves_ensured(root),
    }
}

/// How creating graph curve `name` ends: `[curves]` must be a table (or
/// missing) without `name`.
pub open spec fn create_outcome<T>(r: Result<T, CurveEditError>, root: Map<Seq<char>, TomlNode>, name: Seq<char>) -> bool {
    match curves_entries(root) {
        None => r matches Err(CurveEditError::CurvesNotATable),
        Some(cs) => if cs.contains_key(name) {
            r matches Err(CurveEditError::DuplicateCurve(c)) && c@ == name
        } else {
            r is Ok
        },
    }
}

/// The table a new graph curve is written as.
pub open spec fn graph_table(sensor: Seq<char>, points: Seq<(i32, u8)>) -> Map<Seq<char>, TomlNode> {
    no_entries().insert("kind"@, TomlNode::Str("graph"@)).insert("sensor"@, TomlNode::Str(sensor)).insert(
        "points"@,
        points_node(points),
    )
}

/// A mix curve's member list as `add_mix_member` reads it: empty when the
/// `curves` key is missing, `None` when it is not an array.
pub open spec fn members_for_add(m: Map<Seq<char>, TomlNode>) -> Option<Seq<TomlNode>> {
    if m.contains_key("curves"@) {
        match m["curves"@] {
            TomlNode::Array(s) => Some(s),
            _ => None,
        }
    } else {
        Some(Seq::empty())
    }
}

/// A mix curve's member list as `remove_mix_member` reads it: `None` when
/// the `curves` key is missing or not an array.
pub open spec fn members_for_remove(m: Map<Seq<char>, TomlNode>) -> Option<Seq<TomlNode>> {
    if m.contains_key("curves"@) {
        match m["curves"@] {
            TomlNode::Array(s) => Some(s),
            _ => None,
        }
    } else {
        None
    }
}

/// How adding `member` to mix curve `name` ends.
pub open spec fn add_member_outcome<T>(
    r: Result<T, CurveEditError>,
    root: Map<Seq<char>, TomlNode>,
    name: Seq<char>,
    member: Seq<char>,
) -> bool {
    match curve_lookup(root, name, "mix"@) {
        CurveLookup::Found(m) => match members_for_add(m) {
            None => r matches Err(CurveEditError::CurveNotATable(c)) && c@ == name,
            Some(s) => if list_has(strs_of(s), member) {
                r matches Err(CurveEditError::DuplicateMember { curve, member: x }) && curve@ == name && x@ == member
            } else {
                r is Ok
            },
        },
        l => lookup_refused(r, l, name, "mix"@),
    }
}

/// What adding a member gives: `member` appended to the list.
pub open spec fn add_member_after(root: Map<Seq<char>, TomlNode>, name: Seq<char>, member: Seq<char>) -> Map<
    Seq<char>,
    TomlNode,
> {
    match curve_lookup(root, name, "mix"@) {
        CurveLookup::Found(m) => match members_for_add(m) {
            Some(s) => with_curve(root, name, m.insert("curves"@, TomlNode::Array(s.push(TomlNode::Str(member))))),
            None => curves_ensured(root),
        },
        _ => curves_ensured(root),
    }
}

/// How removing `member` from mix curve `name` ends.
pub open spec fn remove_member_outcome<T>(
    r: Result<T, CurveEditError>,
    root: Map<Seq<char>, TomlNode>,
    name: Seq<char>,
    member: Seq<char>,
) -> bool {
    match curve_lookup(root, name, "mix"@) {
        CurveLookup::Found(m) => match members_for_remove(m) {
            None => r matches Err(CurveEditError::UnknownMember { curve, member: x }) && curve@ == name && x@ == member,
            Some(s) => if s.len() <= 1 {
                r matches Err(CurveEditError::CannotRemoveLastMember(c)) && c@ == name
            } else if list_has(strs_of(s), member) {
                r is Ok
            } else {
                r matches Err(CurveEditError::UnknownMember { curve, member: x }) && curve@ == name && x@ == member
            },
        },
        l => lookup_refused(r, l, name, "mix"@),
    }
}

/// What removing a member gives: its first entry leaves the list.
pub open spec fn remove_member_after(root: Map<Seq<char>, TomlNode>, name: Seq<char>, member: Seq<char>) -> Map<
    Seq<char>,
    TomlNode,
> {
    match curve_lookup(root, name, "mix"@) {
        CurveLookup::Found(m) => match members_for_remove(m) {
            Some(s) => with_curve(
                root,
                name,
                m.insert("curves"@, TomlNode::Array(s.remove(first_entry_from(strs_of(s), member, 0)))),
            ),
            None => curves_ensured(root),
        },
        _ => curves_ensured(root),
    }
}

/// How removing curve `name` ends: `[curves]` must be a table holding it.
pub open spec fn remove_curve_outcome<T>(r: Result<T, CurveEditError>, root: Map<Seq<char>, TomlNode>, name: Seq<char>) -> bool {
    if nested_entry(root, "curves"@, name) is Some {
        r is Ok
    } else {
        r matches Err(CurveEditError::UnknownCurve(c)) && c@ == name
    }
}

/// What removing curve `name` gives: `[curves]` without it.
pub open spec fn curve_removed(root: Map<Seq<char>, TomlNode>, name: Seq<char>) -> Map<Seq<char>, TomlNode> {
    root.insert("curves"@, TomlNode::Table(sub_table(root, "curves"@)->0.remove(name)))
}

/// A text edit: a parse error exactly when the text is not TOML.
pub open spec fn parse_refused(r: Result<String, CurveEditError>, text: Seq<char>) -> bool {
    (r matches Err(CurveEditError::Parse(_))) <==> !toml_accepts(text)
}

/// The `[curves]` table, created empty when missing; the document then
/// holds what that table ends up holding.
fn curves_table(doc: &mut toml_edit::DocumentMut) -> (r: Result<&mut toml_edit::Table, CurveEditError>)
    ensures
        match curves_entries(document_entries(*old(doc))) {
            Some(cs) => r matches Ok(t) && table_entries(*t) == cs && document_entries(*final(doc)) == document_entries(
                *old(doc),
            ).insert("curves"@, TomlNode::Table(table_entries(*final(t)))),
            None => r matches Err(CurveEditError::CurvesNotATable) && document_entries(*final(doc)) == document_entries(
                *old(doc),
            ),
        },
{
    let root = document_table(doc);
    if !table_contains_key(root, "curves") {
        table_insert(root, "curves", table_item(new_table()));
    }
    proof {
        let r0 = table_entries(*root);
        if r0.contains_key("curves"@) && !(r0["curves"@] is Absent) {
            lemma_put_same(r0, "curves"@);
        }
    }
    match table_get_mut(root, "curves") {
        Some(item) => match item_as_table_mut(item) {
            Some(t) => Ok(t),
            None => Err(CurveEditError::CurvesNotATable),
        },
        None => Err(CurveEditError::CurvesNotATable),
    }
}

fn owned(s: &str) -> (o: String)
    ensures
        o@ == s@,
{
    let mut o = String::new();
    o.append(s);
    o
}

/// The existing `[curves.<name>]` table, checked to be of `kind`; the
/// document then holds what that table ends up holding.
fn curve_of_kind<'a>(doc: &'a mut toml_edit::DocumentMut, name: &str, kind: &'static str) -> (r: Result<
    &'a mut toml_edit::Table,
    CurveEditError,
>)
    ensures
        match curve_lookup(document_entries(*old(doc)), name@, kind@) {
            CurveLookup::Found(m) => r matches Ok(t) && table_entries(*t) == m && document_entries(*final(doc))
                == with_curve(document_entries(*old(doc)), name@, table_entries(*final(t))),
            l => lookup_refused(r, l, name@, kind@) && document_entries(*final(doc)) == curves_ensured(
                document_entries(*old(doc)),
            ),
        },
{
    let ghost root = document_entries(*doc);
    let curves = curves_table(doc)?;
    proof {
        let cs = table_entries(*curves);
        if cs.contains_key(name@) && !(cs[name@] is Absent) {
            lemma_put_same(cs, name@);
        }
        assert(root.insert("curves"@, TomlNode::Table(cs)) == curves_ensured(root)) by {
            if root.contains_key("curves"@) {
                lemma_put_same(root, "curves"@);
            }
        }
    }
    let item = match table_get_mut(curves, name) {
        Some(i) => i,
        None => {
            return Err(CurveEditError::UnknownCurve(owned(name)));
        },
    };
    let curve = match item_as_table_mut(item) {
        Some(t) => t,
        None => {
            return Err(CurveEditError::CurveNotATable(owned(name)));
        },
    };
    let found = match table_get(curve, "kind") {
        Some(k) => item_as_str(k),
        None => None,
    };
    if !kind_matches(&found, kind) {
        return Err(CurveEditError::WrongKind { curve: owned(name), expected: kind });
    }
    Ok(curve)
}

/// `[[temp, pwm], ...]` as a TOML array.
fn points_array(points: &[(i32, u8)]) -> (arr: toml_edit::Array)
    ensures
        TomlNode::Array(array_nodes(arr)) == points_node(points@),
{
    let mut arr = new_array();
    let mut i: usize = 0;
    while i < points.len()
        invariant
            0 <= i <= points@.len(),
            array_nodes(arr) == points@.take(i as int).map_values(|p: (i32, u8)| point_node(p)),
        decreases points.len() - i,
    {
        let (temp, pwm) = points[i];
        let mut pair = new_array();
        array_push_int(&mut pair, temp as i64);
        array_push_int(&mut pair, pwm as i64);
        assert(array_nodes(pair) =~= seq![TomlNode::Int(temp as int), TomlNode::Int(pwm as int)]);
        array_push_array(&mut arr, pair);
        assert(points@.take(i + 1) =~= points@.take(i as int).push(points@[i as int]));
        assert(array_nodes(arr) =~= points@.take(i + 1).map_values(|p: (i32, u8)| point_node(p)));
        i = i + 1;
    }
    assert(points@.take(points@.len() as int) =~= points@);
    arr
}

/// The string value of each element of an array.
fn array_strings(a: &toml_edit::Array) -> (out: Vec<Option<String>>)
    ensures
        opt_views(out@) == strs_of(array_nodes(*a)),
{
    let n = array_len(a);
    let mut out: Vec<Option<String>> = Vec::new();
    let mut i: usize = 0;
    while i < n
        invariant
            n == array_nodes(*a).len(),
            0 <= i <= n,
            opt_views(out@) == strs_of(array_nodes(*a)).take(i as int),
        decreases n - i,
    {
        let s = array_str_at(a, i);
        let ghost before = out@;
        out.push(s);
        proof {
            assert(opt_views(out@) =~= opt_views(before).push(strs_of(array_nodes(*a))[i as int]));
            assert(strs_of(array_nodes(*a)).take(i + 1) =~= strs_of(array_nodes(*a)).take(i as int).push(
                strs_of(array_nodes(*a))[i as int],
            ));
        }
        i = i + 1;
    }
    proof {
        assert(strs_of(array_nodes(*a)).take(n as int) =~= strs_of(array_nodes(*a)));
    }
    out
}

/// A found curve's `curves` member array, when it holds one; the curve's
/// table then holds under `curves` what the array ends up holding.
fn members_array(curve: &mut toml_edit::Table) -> (r: Option<&mut toml_edit::Array>)
    ensures
        match members_for_remove(table_entries(*old(curve))) {
            Some(s) => r matches Some(a) && array_nodes(*a) == s && table_entries(*final(curve)) == table_entries(
                *old(curve),
            ).insert("curves"@, TomlNode::Array(array_nodes(*final(a)))) && table_entries(*old(curve)).insert(
                "curves"@,
                TomlNode::Array(s),
            ) == table_entries(*old(curve)),
            None => r is None,
        },
        r is None ==> table_entries(*final(curve)) == table_entries(*old(curve)),
{
    proof {
        let m = table_entries(*curve);
        if m.contains_key("curves"@) && !(m["curves"@] is Absent) {
            lemma_put_same(m, "curves"@);
        }
    }
    match table_get_mut(curve, "curves") {
        Some(item) => item_as_array_mut(item),
        None => None,
    }
}

/// Replace an existing graph curve's `points`, in a parsed document.
pub fn replace_curve_points_in(doc: &mut toml_edit::DocumentMut, name: &str, points: &[(i32, u8)]) -> (r: Result<
    (),
    CurveEditError,
>)
    ensures
        lookup_outcome(r, document_entries(*old(doc)), name@, "graph"@),
        document_entries(*final(doc)) == curve_key_after(
            document_entries(*old(doc)),
            name@,
            "graph"@,
            "points"@,
            points_node(points@),
        ),
{
    let curve = curve_of_kind(doc, name, "graph")?;
    table_set(curve, "points", array_value(points_array(points)));
    Ok(())
}

/// Create a new graph curve bound to `sensor`, in a parsed document.
pub fn create_graph_curve_in(doc: &mut toml_edit::DocumentMut, name: &str, sensor: &str, points: &[(i32, u8)]) -> (r:
    Result<(), CurveEditError>)
    ensures
        create_outcome(r, document_entries(*old(doc)), name@),
        r is Ok ==> document_entries(*final(doc)) == with_curve(
            document_entries(*old(doc)),
            name@,
            graph_table(sensor@, points@),
        ),
        r is Err ==> document_entries(*final(doc)) == curves_ensured(document_entries(*old(doc))),
{
    let ghost root = document_entries(*doc);
    let curves = curves_table(doc)?;
    proof {
        assert(root.insert("curves"@, TomlNode::Table(table_entries(*curves))) == curves_ensured(root)) by {
            if root.contains_key("curves"@) {
                lemma_put_same(root, "curves"@);
            }
        }
    }
    if table_contains_key(curves, name) {
        return Err(CurveEditError::DuplicateCurve(owned(name)));
    }
    let mut curve = new_table();
    proof {
        reveal_strlit("graph");
    }
    table_set(&mut curve, "kind", str_value("graph"));
    table_set(&mut curve, "sensor", str_value(sensor));
    table_set(&mut curve, "points", array_value(points_array(points)));
    table_insert(curves, name, table_item(curve));
    Ok(())
}

/// Rebind which sensor drives an existing graph curve, in a parsed
/// document.
pub fn set_graph_sensor_in(doc: &mut toml_edit::DocumentMut, name: &str, sensor: &str) -> (r: Result<(), CurveEditError>)
    ensures
        lookup_outcome(r, document_entries(*old(doc)), name@, "graph"@),
        document_entries(*final(doc)) == curve_key_after(
            document_entries(*old(doc)),
            name@,
            "graph"@,
            "sensor"@,
            TomlNode::Str(sensor@),
        ),
{
    let curve = curve_of_kind(doc, name, "graph")?;
    table_set(curve, "sensor", str_value(sensor));
    Ok(())
}

/// Append `member` to a mix curve's `curves` list, in a parsed document; a
/// member already listed is refused.
pub fn add_mix_member_in(doc: &mut toml_edit::DocumentMut, name: &str, member: &str) -> (r: Result<(), CurveEditError>)
    ensures
        add_member_outcome(r, document_entries(*old(doc)), name@, member@),
        r is Ok ==> document_entries(*final(doc)) == add_member_after(document_entries(*old(doc)), name@, member@),
        r is Err ==> document_entries(*final(doc)) == curves_ensured(document_entries(*old(doc))),
{
    let ghost root = document_entries(*doc);
    proof {
        if let CurveLookup::Found(m) = curve_lookup(root, name@, "mix"@) {
            lemma_put_nested_same(curves_ensured(root), "curves"@, name@, m);
            assert(with_curve(curves_ensured(root), name@, m) == with_curve(root, name@, m));
        }
    }
    let curve = curve_of_kind(doc, name, "mix")?;
    let ghost m0 = table_entries(*curve);
    if !table_contains_key(curve, "curves") {
        table_insert(curve, "curves", array_value(new_array()));
    }
    let ghost m1 = table_entries(*curve);
    proof {
        assert forall|x: TomlNode| #[trigger] m1.insert("curves"@, x) == m0.insert("curves"@, x) by {
            assert(m1.insert("curves"@, x) =~= m0.insert("curves"@, x));
        }
        assert(members_for_remove(m1) == members_for_add(m0));
    }
    let members = match members_array(curve) {
        Some(a) => a,
        None => {
            return Err(CurveEditError::CurveNotATable(owned(name)));
        },
    };
    let names = array_strings(members);
    if list_contains(&names, member) {
        return Err(CurveEditError::DuplicateMember { curve: owned(name), member: owned(member) });
    }
    array_push_str(members, member);
    Ok(())
}

/// Remove `member` from a mix curve's `curves` list, in a parsed
/// document. Refuses to drop the last member — an empty mix is
/// meaningless, and validation rejects it.
pub fn remove_mix_member_in(doc: &mut toml_edit::DocumentMut, name: &str, member: &str) -> (r: Result<(), CurveEditError>)
    ensures
        remove_member_outcome(r, document_entries(*old(doc)), name@, member@),
        r is Ok ==> document_entries(*final(doc)) == remove_member_after(document_entries(*old(doc)), name@, member@),
        r is Err ==> document_entries(*final(doc)) == curves_ensured(document_entries(*old(doc))),
{
    let ghost root = document_entries(*doc);
    proof {
        if let CurveLookup::Found(m) = curve_lookup(root, name@, "mix"@) {
            lemma_put_nested_same(curves_ensured(root), "curves"@, name@, m);
            assert(with_curve(curves_ensured(root), name@, m) == with_curve(root, name@, m));
        }
    }
    let curve = curve_of_kind(doc, name, "mix")?;
    let members = match members_array(curve) {
        Some(a) => a,
        None => {
            return Err(CurveEditError::UnknownMember { curve: owned(name), member: owned(member) });
        },
    };
    let names = array_strings(members);
    match removal_index(&names, member) {
        Ok(i) => {
            array_remove(members, i);
            Ok(())
        },
        Err(ListRefusal::LastEntry) => Err(CurveEditError::CannotRemoveLastMember(owned(name))),
        Err(ListRefusal::NotFound) => Err(CurveEditError::UnknownMember { curve: owned(name), member: owned(member) }),
    }
}

/// Remove `[curves.<name>]` entirely, in a parsed document.
pub fn remove_curve_in(doc: &mut toml_edit::DocumentMut, name: &str) -> (r: Result<(), CurveEditError>)
    ensures
        remove_curve_outcome(r, document_entries(*old(doc)), name@),
        r is Ok ==> document_entries(*final(doc)) == curve_removed(document_entries(*old(doc)), name@),
        r is Err ==> document_entries(*final(doc)) == document_entries(*old(doc)),
{
    let root = document_table(doc);
    proof {
        let r0 = table_entries(*root);
        if r0.contains_key("curves"@) && !(r0["curves"@] is Absent) {
            lemma_put_same(r0, "curves"@);
        }
    }
    let removed = match table_get_mut(root, "curves") {
        Some(item) => match item_as_table_mut(item) {
            Some(curves) => if table_contains_key(curves, name) {
                let _ = table_remove(curves, name);
                true
            } else {
                false
            },
            None => false,
        },
        None => false,
    };
    if !removed {
        return Err(CurveEditError::UnknownCurve(owned(name)));
    }
    Ok(())
}

/// Replace an existing graph curve's `points`. Editing a curve that does
/// not exist is an error — creating one needs a sensor, see
/// [`create_graph_curve`].
pub fn replace_curve_points(toml_text: &str, name: &str, points: &[(i32, u8)]) -> (r: Result<String, CurveEditError>)
    ensures
        parse_refused(r, toml_text@),
        toml_accepts(toml_text@) ==> lookup_outcome(r, toml_entries(toml_text@), name@, "graph"@),
        r matches Ok(t) ==> prints_entries(t@, curve_key_after(toml_entries(toml_text@), name@, "graph"@, "points"@, points_node(points@))),
{
    let mut doc = match parse_document(toml_text) {
        Ok(d) => d,
        Err(e) => {
            return Err(CurveEditError::Parse(e));
        },
    };
    replace_curve_points_in(&mut doc, name, points)?;
    let text = document_text(&doc);
    proof {
        lemma_prints(doc);
    }
    Ok(text)
}

/// Create a new graph curve bound to `sensor`. The caller validates that
/// the sensor exists (through `Config::validate` on the result).
pub fn create_graph_curve(toml_text: &str, name: &str, sensor: &str, points: &[(i32, u8)]) -> (r: Result<
    String,
    CurveEditError,
>)
    ensures
        parse_refused(r, toml_text@),
        toml_accepts(toml_text@) ==> create_outcome(r, toml_entries(toml_text@), name@),
        r matches Ok(t) ==> prints_entries(t@, with_curve(toml_entries(toml_text@), name@, graph_table(sensor@, points@))),
{
    let mut doc = match parse_document(toml_text) {
        Ok(d) => d,
        Err(e) => {
            return Err(CurveEditError::Parse(e));
        },
    };
    create_graph_curve_in(&mut doc, name, sensor, points)?;
    let text = document_text(&doc);
    proof {
        lemma_prints(doc);
    }
    Ok(text)
}

/// Rebind which sensor drives an existing graph curve.
pub fn set_graph_sensor(toml_text: &str, name: &str, sensor: &str) -> (r: Result<String, CurveEditError>)
    ensures
        parse_refused(r, toml_text@),
        toml_accepts(toml_text@) ==> lookup_outcome(r, toml_entries(toml_text@), name@, "graph"@),
        r matches Ok(t) ==> prints_entries(t@, curve_key_after(toml_entries(toml_text@), name@, "graph"@, "sensor"@, TomlNode::Str(sensor@))),
{
    let mut doc = match parse_document(toml_text) {
        Ok(d) => d,
        Err(e) => {
            return Err(CurveEditError::Parse(e));
        },
    };
    set_graph_sensor_in(&mut doc, name, sensor)?;
    let text = document_text(&doc);
    proof {
        lemma_prints(doc);
    }
    Ok(text)
}

/// Append `member` to a mix curve's `curves` list; a member already listed
/// is refused.
pub fn add_mix_member(toml_text: &str, name: &str, member: &str) -> (r: Result<String, CurveEditError>)
    ensures
        parse_refused(r, toml_text@),
        toml_accepts(toml_text@) ==> add_member_outcome(r, toml_entries(toml_text@), name@, member@),
        r matches Ok(t) ==> prints_entries(t@, add_member_after(toml_entries(toml_text@), name@, member@)),
{
    let mut doc = match parse_document(toml_text) {
        Ok(d) => d,
        Err(e) => {
            return Err(CurveEditError::Parse(e));
        },
    };
    add_mix_member_in(&mut doc, name, member)?;
    let text = document_text(&doc);
    proof {
        lemma_prints(doc);
    }
    Ok(text)
}

/// Remove `member` from a mix curve's `curves` list. Refuses to drop the
/// last member — an empty mix is meaningless, and validation rejects it.
pub fn remove_mix_member(toml_text: &str, name: &str, member: &str) -> (r: Result<String, CurveEditError>)
    ensures
        parse_refused(r, toml_text@),
        toml_accepts(toml_text@) ==> remove_member_outcome(r, toml_entries(toml_text@), name@, member@),
        r matches Ok(t) ==> prints_entries(t@, remove_member_after(toml_entries(toml_text@), name@, member@)),
{
    let mut doc = match parse_document(toml_text) {
        Ok(d) => d,
        Err(e) => {
            return Err(CurveEditError::Parse(e));
        },
    };
    remove_mix_member_in(&mut doc, name, member)?;
    let text = document_text(&doc);
    proof {
        lemma_prints(doc);
    }
    Ok(text)
}

/// Remove `[curves.<name>]` entirely. The caller checks that nothing still
/// references it (or lets validation reject the result with `UnknownCurve`).
pub fn remove_curve(toml_text: &str, name: &str) -> (r: Result<String, CurveEditError>)
    ensures
        parse_refused(r, toml_text@),
        toml_accepts(toml_text@) ==> remove_curve_outcome(r, toml_entries(toml_text@), name@),
        r matches Ok(t) ==> prints_entries(t@, curve_removed(toml_entries(toml_text@), name@)),
{
    let mut doc = match parse_document(toml_text) {
        Ok(d) => d,
        Err(e) => {
            return Err(CurveEditError::Parse(e));
        },
    };
    remove_curve_in(&mut doc, name)?;
    let text = document_text(&doc);
    proof {
        lemma_prints(doc);
    }
    Ok(text)
}

} // verus!
