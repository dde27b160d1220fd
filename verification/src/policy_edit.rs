//! Surgical edits to a channel's input policy in a config's raw TOML text
//! — reassign which curve drives a sensor input, or add or remove a `mix`
//! input — through `toml_edit`, so every comment and all formatting
//! elsewhere survive.
//!
//! Every channel keeps its policy shape: a `single` channel (one `curve`
//! key) is never turned into a `mix` one (an `inputs` list of
//! `{ sensor, curve }` inline tables) or back. Each edit is
//! stated twice: on a parsed document, as exactly which entries it changes
//! (or which error it refuses with); on the text, as when it succeeds and
//! with which error it refuses. The printed text itself is not modelled.

use vstd::prelude::*;
use crate::edits::{first_entry_from, list_contains, list_has, opt_views, position_of, removal_index, ListRefusal};
use crate::toml_doc::{
    lemma_prints, prints_entries,
    array_nodes, document_entries, inline_entries, lemma_put_nested_same, lemma_put_same, nested_entry, no_entries, put_nested, str_entry,
    sub_table, table_entries, toml_entries, TomlNode,
    array_inline_table_at, array_inline_table_ref_at, array_len, array_push_inline_table, array_remove,
    document_table, document_text, inline_table_get_str, inline_table_insert_str, item_as_array_mut,
    item_as_table_mut, new_inline_table, parse_document, str_value, table_contains_key, table_get_mut, table_set,
    toml_accepts,
};

verus! {

#[derive(Debug)]
pub enum PolicyEditError {
    /// The current config is not TOML.
    Parse(toml_edit::TomlError),
    UnknownChannel(String),
    ChannelNotATable(String),
    UnknownInput { channel: String, sensor: String },
    NotMixPolicy { channel: String },
    DuplicateSensor { channel: String, sensor: String },
    /// A mix needs at least one input.
    CannotRemoveLastInput(String),
}

/// The entries of `channel`'s table, when `[channels]` holds it as a table.
pub open spec fn found_channel(root: Map<Seq<char>, TomlNode>, channel: Seq<char>) -> Option<Map<Seq<char>, TomlNode>> {
    match nested_entry(root, "channels"@, channel) {
        Some(TomlNode::Table(m)) => Some(m),
        _ => None,
    }
}

/// The refusal when `channel`'s table is not found: unknown (no such
/// entry, or no `[channels]` table), or not a table.
pub open spec fn channel_refused<T>(r: Result<T, PolicyEditError>, root: Map<Seq<char>, TomlNode>, channel: Seq<char>) -> bool {
    match nested_entry(root, "channels"@, channel) {
        None => r matches Err(PolicyEditError::UnknownChannel(c)) && c@ == channel,
        _ => r matches Err(PolicyEditError::ChannelNotATable(c)) && c@ == channel,
    }
}

/// A channel's `inputs` list, when it holds an array.
pub open spec fn inputs_of(m: Map<Seq<char>, TomlNode>) -> Option<Seq<TomlNode>> {
    if m.contains_key("inputs"@) {
        match m["inputs"@] {
            TomlNode::Array(s) => Some(s),
            _ => None,
        }
    } else {
        None
    }
}

/// The `sensor` of each input, in order (`None` for an entry that is not
/// an inline table with a string `sensor`).
pub open spec fn sensors_of(s: Seq<TomlNode>) -> Seq<Option<Seq<char>>> {
    s.map_values(
        |n: TomlNode|
            match n {
                TomlNode::InlineTable(e) => str_entry(e, "sensor"@),
                _ => None,
            },
    )
}

/// The refusal for a sensor that has no input on the channel.
pub open spec fn unknown_input<T>(r: Result<T, PolicyEditError>, channel: Seq<char>, sensor: Seq<char>) -> bool {
    r matches Err(PolicyEditError::UnknownInput { channel: c, sensor: s }) && c@ == channel && s@ == sensor
}

/// The refusal for a channel without an `inputs` list.
pub open spec fn not_mix<T>(r: Result<T, PolicyEditError>, channel: Seq<char>) -> bool {
    r matches Err(PolicyEditError::NotMixPolicy { channel: c }) && c@ == channel
}

/// `root` with `channel`'s table now holding `m`.
pub open spec fn with_channel(root: Map<Seq<char>, TomlNode>, channel: Seq<char>, m: Map<Seq<char>, TomlNode>) -> Map<
    Seq<char>,
    TomlNode,
> {
    put_nested(root, "channels"@, channel, m)
}

/// How rebinding `sensor`'s curve ends: a `single` channel (with a `curve`
/// key) always takes it; a `mix` channel needs an input for `sensor`.
pub open spec fn rebind_outcome<T>(
    r: Result<T, PolicyEditError>,
    root: Map<Seq<char>, TomlNode>,
    channel: Seq<char>,
    sensor: Seq<char>,
) -> bool {
    match found_channel(root, channel) {
        None => channel_refused(r, root, channel),
        Some(m) => if m.contains_key("curve"@) {
            r is Ok
        } else {
            match inputs_of(m) {
                Some(s) => if list_has(sensors_of(s), sensor) {
                    r is Ok
                } else {
                    unknown_input(r, channel, sensor)
                },
                None => unknown_input(r, channel, sensor),
            }
        },
    }
}

/// What rebinding gives: the `curve` key set, or the first input for
/// `sensor` given `curve`.
pub open spec fn rebind_after(
    root: Map<Seq<char>, TomlNode>,
    channel: Seq<char>,
    sensor: Seq<char>,
    curve: Seq<char>,
) -> Map<Seq<char>, TomlNode> {
    match found_channel(root, channel) {
        Some(m) => if m.contains_key("curve"@) {
            with_channel(root, channel, m.insert("curve"@, TomlNode::Str(curve)))
        } else {
            match inputs_of(m) {
                Some(s) => {
                    let k = first_entry_from(sensors_of(s), sensor, 0);
                    match s[k] {
                        TomlNode::InlineTable(e) => with_channel(
                            root,
                            channel,
                            m.insert(
                                "inputs"@,
                                TomlNode::Array(s.update(k, TomlNode::InlineTable(e.insert("curve"@, TomlNode::Str(curve))))),
                            ),
                        ),
                        _ => root,
                    }
                },
                None => root,
            }
        },
        None => root,
    }
}

/// How adding an input for `sensor` ends: the channel needs an `inputs`
/// list without one for `sensor`.
pub open spec fn add_input_outcome<T>(
    r: Result<T, PolicyEditError>,
    root: Map<Seq<char>, TomlNode>,
    channel: Seq<char>,
    sensor: Seq<char>,
) -> bool {
    match found_channel(root, channel) {
        None => channel_refused(r, root, channel),
        Some(m) => match inputs_of(m) {
            None => not_mix(r, channel),
            Some(s) => if list_has(sensors_of(s), sensor) {
                r matches Err(PolicyEditError::DuplicateSensor { channel: c, sensor: x }) && c@ == channel && x@ == sensor
            } else {
                r is Ok
            },
        },
    }
}

/// The inline table a new input is written as.
pub open spec fn input_node(sensor: Seq<char>, curve: Seq<char>) -> TomlNode {
    TomlNode::InlineTable(no_entries().insert("sensor"@, TomlNode::Str(sensor)).insert("curve"@, TomlNode::Str(curve)))
}

/// What adding an input gives: `{ sensor, curve }` appended to `inputs`.
pub open spec fn add_input_after(
    root: Map<Seq<char>, TomlNode>,
    channel: Seq<char>,
    sensor: Seq<char>,
    curve: Seq<char>,
) -> Map<Seq<char>, TomlNode> {
    match found_channel(root, channel) {
        Some(m) => match inputs_of(m) {
            Some(s) => with_channel(root, channel, m.insert("inputs"@, TomlNode::Array(s.push(input_node(sensor, curve))))),
            None => root,
        },
        None => root,
    }
}

/// How removing `sensor`'s input ends: the channel needs an `inputs` list
/// of more than one entry, one of them for `sensor`.
pub open spec fn remove_input_outcome<T>(
    r: Result<T, PolicyEditError>,
    root: Map<Seq<char>, TomlNode>,
    channel: Seq<char>,
    sensor: Seq<char>,
) -> bool {
    match found_channel(root, channel) {
        None => channel_refused(r, root, channel),
        Some(m) => match inputs_of(m) {
            None => not_mix(r, channel),
            Some(s) => if s.len() <= 1 {
                r matches Err(PolicyEditError::CannotRemoveLastInput(c)) && c@ == channel
            } else if list_has(sensors_of(s), sensor) {
                r is Ok
            } else {
                unknown_input(r, channel, sensor)
            },
        },
    }
}

/// What removing gives: the first input for `sensor` leaves `inputs`.
pub open spec fn remove_input_after(root: Map<Seq<char>, TomlNode>, channel: Seq<char>, sensor: Seq<char>) -> Map<
    Seq<char>,
    TomlNode,
> {
    match found_channel(root, channel) {
        Some(m) => match inputs_of(m) {
            Some(s) => with_channel(
                root,
                channel,
                m.insert("inputs"@, TomlNode::Array(s.remove(first_entry_from(sensors_of(s), sensor, 0)))),
            ),
            None => root,
        },
        None => root,
    }
}

/// A text edit: a parse error exactly when the text is not TOML, otherwise
/// the outcome the edit of the parsed document has.
pub open spec fn parse_refused(r: Result<String, PolicyEditError>, text: Seq<char>) -> bool {
    (r matches Err(PolicyEditError::Parse(_))) <==> !toml_accepts(text)
}

fn owned(s: &str) -> (o: String)
    ensures
        o@ == s@,
{
    let mut o = String::new();
    o.append(s);
    o
}

/// The existing `[channels.<channel>]` table; the document then holds what
/// that table ends up holding.
fn channel_table<'a>(doc: &'a mut toml_edit::DocumentMut, channel: &str) -> (r: Result<
    &'a mut toml_edit::Table,
    PolicyEditError,
>)
    ensures
        match found_channel(document_entries(*old(doc)), channel@) {
            None => channel_refused(r, document_entries(*old(doc)), channel@),
            Some(m) => r matches Ok(t) && table_entries(*t) == m && document_entries(*final(doc)) == with_channel(
                document_entries(*old(doc)),
                channel@,
                table_entries(*final(t)),
            ),
        },
        r is Err ==> document_entries(*final(doc)) == document_entries(*old(doc)),
{
    let root = document_table(doc);
    proof {
        let r0 = table_entries(*root);
        if r0.contains_key("channels"@) && !(r0["channels"@] is Absent) {
            lemma_put_same(r0, "channels"@);
        }
        if let Some(m) = sub_table(r0, "channels"@) {
            if m.contains_key(channel@) && !(m[channel@] is Absent) {
                lemma_put_same(m, channel@);
            }
        }
    }
    let channels = match table_get_mut(root, "channels") {
        Some(item) => item_as_table_mut(item),
        None => None,
    };
    let item = match channels {
        Some(t) => table_get_mut(t, channel),
        None => None,
    };
    match item {
        Some(i) => match item_as_table_mut(i) {
            Some(t) => Ok(t),
            None => Err(PolicyEditError::ChannelNotATable(owned(channel))),
        },
        None => Err(PolicyEditError::UnknownChannel(owned(channel))),
    }
}

/// The `sensor` of each input, in order.
fn input_sensors(inputs: &toml_edit::Array) -> (out: Vec<Option<String>>)
    ensures
        opt_views(out@) == sensors_of(array_nodes(*inputs)),
{
    let n = array_len(inputs);
    let mut out: Vec<Option<String>> = Vec::new();
    let mut i: usize = 0;
    while i < n
        invariant
            n == array_nodes(*inputs).len(),
            0 <= i <= n,
            opt_views(out@) == sensors_of(array_nodes(*inputs)).take(i as int),
        decreases n - i,
    {
        let sensor = match array_inline_table_ref_at(inputs, i) {
            Some(t) => inline_table_get_str(t, "sensor"),
            None => None,
        };
        let ghost before = out@;
        out.push(sensor);
        proof {
            assert(opt_views(out@) =~= opt_views(before).push(sensors_of(array_nodes(*inputs))[i as int]));
            assert(sensors_of(array_nodes(*inputs)).take(i + 1) =~= sensors_of(array_nodes(*inputs)).take(
                i as int,
            ).push(sensors_of(array_nodes(*inputs))[i as int]));
        }
        i = i + 1;
    }
    proof {
        assert(sensors_of(array_nodes(*inputs)).take(n as int) =~= sensors_of(array_nodes(*inputs)));
    }
    out
}

/// A channel's `inputs` array, when it holds one; the table then holds
/// under `inputs` what the array ends up holding.
fn inputs_array(chan: &mut toml_edit::Table) -> (r: Option<&mut toml_edit::Array>)
    ensures
        match inputs_of(table_entries(*old(chan))) {
            Some(s) => r matches Some(a) && array_nodes(*a) == s && table_entries(*final(chan)) == table_entries(
                *old(chan),
            ).insert("inputs"@, TomlNode::Array(array_nodes(*final(a)))) && table_entries(*old(chan)).insert(
                "inputs"@,
                TomlNode::Array(s),
            ) == table_entries(*old(chan)),
            None => r is None,
        },
        r is None ==> table_entries(*final(chan)) == table_entries(*old(chan)),
{
    proof {
        let m = table_entries(*chan);
        if m.contains_key("inputs"@) && !(m["inputs"@] is Absent) {
            lemma_put_same(m, "inputs"@);
        }
    }
    match table_get_mut(chan, "inputs") {
        Some(item) => item_as_array_mut(item),
        None => None,
    }
}

/// Reassign the curve for one sensor input of a channel, in a parsed
/// document: the single `curve` key of a `single` policy, or the first
/// `inputs` entry for `sensor` of a `mix` policy.
pub fn set_channel_curve_in(doc: &mut toml_edit::DocumentMut, channel: &str, sensor: &str, curve: &str) -> (r: Result<
    (),
    PolicyEditError,
>)
    ensures
        rebind_outcome(r, document_entries(*old(doc)), channel@, sensor@),
        r is Ok ==> document_entries(*final(doc)) == rebind_after(document_entries(*old(doc)), channel@, sensor@, curve@),
        r is Err ==> document_entries(*final(doc)) == document_entries(*old(doc)),
{
    proof {
        if let Some(m) = found_channel(document_entries(*doc), channel@) {
            lemma_put_nested_same(document_entries(*doc), "channels"@, channel@, m);
        }
    }
    let chan = channel_table(doc, channel)?;
    if table_contains_key(chan, "curve") {
        table_set(chan, "curve", str_value(curve));
        return Ok(());
    }
    let inputs = match inputs_array(chan) {
        Some(a) => a,
        None => {
            return Err(PolicyEditError::UnknownInput { channel: owned(channel), sensor: owned(sensor) });
        },
    };
    let sensors = input_sensors(inputs);
    let index = match position_of(&sensors, sensor) {
        Some(i) => i,
        None => {
            return Err(PolicyEditError::UnknownInput { channel: owned(channel), sensor: owned(sensor) });
        },
    };
    proof {
        assert(opt_views(sensors@)[index as int] == Some(sensor@));
    }
    match array_inline_table_at(inputs, index) {
        Some(entry) => inline_table_insert_str(entry, "curve", curve),
        None => {
            return Err(PolicyEditError::UnknownInput { channel: owned(channel), sensor: owned(sensor) });
        },
    }
    Ok(())
}

/// Append a new `{ sensor, curve }` input to a `mix` channel, in a parsed
/// document; a sensor that already has an input is refused.
pub fn add_mix_input_in(doc: &mut toml_edit::DocumentMut, channel: &str, sensor: &str, curve: &str) -> (r: Result<
    (),
    PolicyEditError,
>)
    ensures
        add_input_outcome(r, document_entries(*old(doc)), channel@, sensor@),
        r is Ok ==> document_entries(*final(doc)) == add_input_after(document_entries(*old(doc)), channel@, sensor@, curve@),
        r is Err ==> document_entries(*final(doc)) == document_entries(*old(doc)),
{
    proof {
        if let Some(m) = found_channel(document_entries(*doc), channel@) {
            lemma_put_nested_same(document_entries(*doc), "channels"@, channel@, m);
        }
    }
    let chan = channel_table(doc, channel)?;
    let inputs = match inputs_array(chan) {
        Some(a) => a,
        None => {
            return Err(PolicyEditError::NotMixPolicy { channel: owned(channel) });
        },
    };
    let sensors = input_sensors(inputs);
    if list_contains(&sensors, sensor) {
        return Err(PolicyEditError::DuplicateSensor { channel: owned(channel), sensor: owned(sensor) });
    }
    let mut entry = new_inline_table();
    inline_table_insert_str(&mut entry, "sensor", sensor);
    inline_table_insert_str(&mut entry, "curve", curve);
    array_push_inline_table(inputs, entry);
    Ok(())
}

/// Remove the input for `sensor` from a `mix` channel, in a parsed
/// document. Refuses to drop the last remaining input — a mix with no
/// inputs is meaningless.
pub fn remove_mix_input_in(doc: &mut toml_edit::DocumentMut, channel: &str, sensor: &str) -> (r: Result<
    (),
    PolicyEditError,
>)
    ensures
        remove_input_outcome(r, document_entries(*old(doc)), channel@, sensor@),
        r is Ok ==> document_entries(*final(doc)) == remove_input_after(document_entries(*old(doc)), channel@, sensor@),
        r is Err ==> document_entries(*final(doc)) == document_entries(*old(doc)),
{
    proof {
        if let Some(m) = found_channel(document_entries(*doc), channel@) {
            lemma_put_nested_same(document_entries(*doc), "channels"@, channel@, m);
        }
    }
    let chan = channel_table(doc, channel)?;
    let inputs = match inputs_array(chan) {
        Some(a) => a,
        None => {
            return Err(PolicyEditError::NotMixPolicy { channel: owned(channel) });
        },
    };
    let sensors = input_sensors(inputs);
    match removal_index(&sensors, sensor) {
        Ok(i) => {
            array_remove(inputs, i);
            Ok(())
        },
        Err(ListRefusal::LastEntry) => Err(PolicyEditError::CannotRemoveLastInput(owned(channel))),
        Err(ListRefusal::NotFound) => Err(PolicyEditError::UnknownInput { channel: owned(channel), sensor: owned(sensor) }),
    }
}

/// Reassign the curve for one sensor input of a channel: the single
/// `curve` key of a `single` policy, or the first `inputs` entry for
/// `sensor` of a `mix` policy.
pub fn set_channel_curve(toml_text: &str, channel: &str, sensor: &str, curve: &str) -> (r: Result<
    String,
    PolicyEditError,
>)
    ensures
        parse_refused(r, toml_text@),
        toml_accepts(toml_text@) ==> rebind_outcome(r, toml_entries(toml_text@), channel@, sensor@),
        r matches Ok(t) ==> prints_entries(t@, rebind_after(toml_entries(toml_text@), channel@, sensor@, curve@)),
{
    let mut doc = match parse_document(toml_text) {
        Ok(d) => d,
        Err(e) => {
            return Err(PolicyEditError::Parse(e));
        },
    };
    set_channel_curve_in(&mut doc, channel, sensor, curve)?;
    let text = document_text(&doc);
    proof {
        lemma_prints(doc);
    }
    Ok(text)
}

/// Append a new `{ sensor, curve }` input to a `mix` channel; a sensor
/// that already has an input is refused.
pub fn add_mix_input(toml_text: &str, channel: &str, sensor: &str, curve: &str) -> (r: Result<
    String,
    PolicyEditError,
>)
    ensures
        parse_refused(r, toml_text@),
        toml_accepts(toml_text@) ==> add_input_outcome(r, toml_entries(toml_text@), channel@, sensor@),
        r matches Ok(t) ==> prints_entries(t@, add_input_after(toml_entries(toml_text@), channel@, sensor@, curve@)),
{
    let mut doc = match parse_document(toml_text) {
        Ok(d) => d,
        Err(e) => {
            return Err(PolicyEditError::Parse(e));
        },
    };
    add_mix_input_in(&mut doc, channel, sensor, curve)?;
    let text = document_text(&doc);
    proof {
        lemma_prints(doc);
    }
    Ok(text)
}

/// Remove the input for `sensor` from a `mix` channel. Refuses to drop the
/// last remaining input — a mix with no inputs is meaningless.
pub fn remove_mix_input(toml_text: &str, channel: &str, sensor: &str) -> (r: Result<String, PolicyEditError>)
    ensures
        parse_refused(r, toml_text@),
        toml_accepts(toml_text@) ==> remove_input_outcome(r, toml_entries(toml_text@), channel@, sensor@),
        r matches Ok(t) ==> prints_entries(t@, remove_input_after(toml_entries(toml_text@), channel@, sensor@)),
{
    let mut doc = match parse_document(toml_text) {
        Ok(d) => d,
        Err(e) => {
            return Err(PolicyEditError::Parse(e));
        },
    };
    remove_mix_input_in(&mut doc, channel, sensor)?;
    let text = document_text(&doc);
    proof {
        lemma_prints(doc);
    }
    Ok(text)
}

} // verus!
