//! Surgical edits to a channel's tuning knobs (`curve` binding, `min_pwm`,
//! `smoothing_seconds`) in a config's raw TOML text, through `toml_edit`,
//! so every comment and all formatting elsewhere survive.
//!
//! Business rules (e.g. the `min_pwm` floors) are not re-checked here —
//! `Config::validate`, applied by the caller to the edited text, is the
//! single source of truth. The edited text is not modelled: the public
//! contracts state when parsing fails and which channel every other error
//! names; finding the channel's table is stated over the document's
//! modelled entries.

use vstd::prelude::*;
use crate::toml_doc::{
    lemma_prints, prints_entries,
    document_entries, item_node, lemma_put_same, nested_entry, sub_table, put_entry, put_nested, table_entries, toml_entries, TomlNode,
    document_table, document_text, int_value, item_as_table_mut, parse_document, str_value, table_get_mut,
    table_set, toml_accepts,
};

verus! {

#[derive(Debug)]
pub enum ChannelEditError {
    /// The current config is not TOML.
    Parse(toml_edit::TomlError),
    UnknownChannel(String),
    ChannelNotATable(String),
}

/// How an edit of `channel` ends on a document holding `root`: an unknown
/// channel (or no `[channels]` table), a channel entry that is not a
/// table, or success.
pub open spec fn channel_outcome<T>(r: Result<T, ChannelEditError>, root: Map<Seq<char>, TomlNode>, channel: Seq<char>) -> bool {
    match nested_entry(root, "channels"@, channel) {
        None => r matches Err(ChannelEditError::UnknownChannel(c)) && c@ == channel,
        Some(TomlNode::Table(_)) => r is Ok,
        Some(_) => r matches Err(ChannelEditError::ChannelNotATable(c)) && c@ == channel,
    }
}

/// `root` with `key` of `channel`'s table now holding `n`.
pub open spec fn channel_with(
    root: Map<Seq<char>, TomlNode>,
    channel: Seq<char>,
    key: Seq<char>,
    n: TomlNode,
) -> Map<Seq<char>, TomlNode> {
    match nested_entry(root, "channels"@, channel) {
        Some(TomlNode::Table(m)) => put_nested(root, "channels"@, channel, put_entry(m, key, n)),
        _ => root,
    }
}

/// What a text edit of `channel` returns: a parse error exactly when the
/// text is not TOML, otherwise what the edit of the parsed document gives.
pub open spec fn channel_text_outcome(r: Result<String, ChannelEditError>, text: Seq<char>, channel: Seq<char>) -> bool {
    &&& (r matches Err(ChannelEditError::Parse(_))) <==> !toml_accepts(text)
    &&& toml_accepts(text) ==> channel_outcome(r, toml_entries(text), channel)
}

/// A document edit of `channel` that sets `key` to `n`: it succeeds as
/// `channel_outcome` says, then holds exactly that change; a refused edit
/// leaves the document as it was.
pub open spec fn channel_edit_done(
    r: Result<(), ChannelEditError>,
    before: Map<Seq<char>, TomlNode>,
    after: Map<Seq<char>, TomlNode>,
    channel: Seq<char>,
    key: Seq<char>,
    n: TomlNode,
) -> bool {
    &&& channel_outcome(r, before, channel)
    &&& r is Ok ==> after == channel_with(before, channel, key, n)
    &&& r is Err ==> after == before
}

fn owned(s: &str) -> (o: String)
    ensures
        o@ == s@,
{
    let mut o = String::new();
    o.append(s);
    o
}

/// The existing `[channels.<channel>]` table.
fn channel_table<'a>(doc: &'a mut toml_edit::DocumentMut, channel: &str) -> (r: Result<
    &'a mut toml_edit::Table,
    ChannelEditError,
>)
    ensures
        match nested_entry(document_entries(*old(doc)), "channels"@, channel@) {
            None => r matches Err(ChannelEditError::UnknownChannel(c)) && c@ == channel@,
            Some(TomlNode::Table(m)) => r matches Ok(t) && table_entries(*t) == m && document_entries(*final(doc))
                == put_nested(document_entries(*old(doc)), "channels"@, channel@, table_entries(*final(t))),
            Some(_) => r matches Err(ChannelEditError::ChannelNotATable(c)) && c@ == channel@,
        },
        r is Err ==> document_entries(*final(doc)) == document_entries(*old(doc)),
{
    let root = document_table(doc);
    proof {
        let r0 = table_entries(*root);
        if r0.contains_key("channels"@) && !(r0["channels"@] is Absent) {
            lemma_put_same(r0, "channels"@);
        }
        if let Some(m) = sub_table(r0, "channels"@) {
            if m.contains_key(channel@) && !(m[channel@] is Absent) {
                lemma_put_same(m, channel@);
            }
        }
    }
    let channels = match table_get_mut(root, "channels") {
        Some(item) => item_as_table_mut(item),
        None => None,
    };
    let item = match channels {
        Some(t) => table_get_mut(t, channel),
        None => None,
    };
    match item {
        Some(i) => match item_as_table_mut(i) {
            Some(t) => Ok(t),
            None => Err(ChannelEditError::ChannelNotATable(owned(channel))),
        },
        None => Err(ChannelEditError::UnknownChannel(owned(channel))),
    }
}

/// Set `key` of `channel`'s table to `item`.
fn set_channel_item(doc: &mut toml_edit::DocumentMut, channel: &str, key: &str, item: toml_edit::Item) -> (r: Result<
    (),
    ChannelEditError,
>)
    ensures
        channel_edit_done(
            r,
            document_entries(*old(doc)),
            document_entries(*final(doc)),
            channel@,
            key@,
            item_node(item),
        ),
{
    let chan = channel_table(doc, channel)?;
    table_set(chan, key, item);
    Ok(())
}

/// Rebind which curve drives a channel, in a parsed document.
pub fn set_channel_curve_in(doc: &mut toml_edit::DocumentMut, channel: &str, curve: &str) -> (r: Result<
    (),
    ChannelEditError,
>)
    ensures
        channel_edit_done(
            r,
            document_entries(*old(doc)),
            document_entries(*final(doc)),
            channel@,
            "curve"@,
            TomlNode::Str(curve@),
        ),
{
    set_channel_item(doc, channel, "curve", str_value(curve))
}

/// Set `min_pwm` on a channel, in a parsed document.
pub fn set_min_pwm_in(doc: &mut toml_edit::DocumentMut, channel: &str, min_pwm: u8) -> (r: Result<
    (),
    ChannelEditError,
>)
    ensures
        channel_edit_done(
            r,
            document_entries(*old(doc)),
            document_entries(*final(doc)),
            channel@,
            "min_pwm"@,
            TomlNode::Int(min_pwm as int),
        ),
{
    set_channel_item(doc, channel, "min_pwm", int_value(min_pwm as i64))
}

/// The `smoothing_seconds` a channel is given: TOML integers are `i64`,
/// so a larger count saturates.
pub open spec fn smoothing_value(seconds: u64) -> int {
    if seconds > i64::MAX {
        i64::MAX as int
    } else {
        seconds as int
    }
}

/// Set `smoothing_seconds` on a channel, in a parsed document.
pub fn set_smoothing_seconds_in(doc: &mut toml_edit::DocumentMut, channel: &str, seconds: u64) -> (r: Result<
    (),
    ChannelEditError,
>)
    ensures
        channel_edit_done(
            r,
            document_entries(*old(doc)),
            document_entries(*final(doc)),
            channel@,
            "smoothing_seconds"@,
            TomlNode::Int(smoothing_value(seconds)),
        ),
{
    let v: i64 = if seconds > i64::MAX as u64 {
        i64::MAX
    } else {
        seconds as i64
    };
    set_channel_item(doc, channel, "smoothing_seconds", int_value(v))
}

/// Rebind which curve drives a channel.
pub fn set_channel_curve(toml_text: &str, channel: &str, curve: &str) -> (r: Result<String, ChannelEditError>)
    ensures
        channel_text_outcome(r, toml_text@, channel@),
        r matches Ok(t) ==> prints_entries(t@, channel_with(toml_entries(toml_text@), channel@, "curve"@, TomlNode::Str(curve@))),
{
    let mut doc = match parse_document(toml_text) {
        Ok(d) => d,
        Err(e) => {
            return Err(ChannelEditError::Parse(e));
        },
    };
    set_channel_curve_in(&mut doc, channel, curve)?;
    let text = document_text(&doc);
    proof {
        lemma_prints(doc);
    }
    Ok(text)
}

/// Set `min_pwm` on a channel.
pub fn set_min_pwm(toml_text: &str, channel: &str, min_pwm: u8) -> (r: Result<String, ChannelEditError>)
    ensures
        channel_text_outcome(r, toml_text@, channel@),
        r matches Ok(t) ==> prints_entries(t@, channel_with(toml_entries(toml_text@), channel@, "min_pwm"@, TomlNode::Int(min_pwm as int))),
{
    let mut doc = match parse_document(toml_text) {
        Ok(d) => d,
        Err(e) => {
            return Err(ChannelEditError::Parse(e));
        },
    };
    set_min_pwm_in(&mut doc, channel, min_pwm)?;
    let text = document_text(&doc);
    proof {
        lemma_prints(doc);
    }
    Ok(text)
}

/// Set `smoothing_seconds` on a channel (a count past `i64::MAX`
/// saturates).
pub fn set_smoothing_seconds(toml_text: &str, channel: &str, seconds: u64) -> (r: Result<String, ChannelEditError>)
    ensures
        channel_text_outcome(r, toml_text@, channel@),
        r matches Ok(t) ==> prints_entries(t@, channel_with(toml_entries(toml_text@), channel@, "smoothing_seconds"@, TomlNode::Int(smoothing_value(seconds)))),
{
    let mut doc = match parse_document(toml_text) {
        Ok(d) => d,
        Err(e) => {
            return Err(ChannelEditError::Parse(e));
        },
    };
    set_smoothing_seconds_in(&mut doc, channel, seconds)?;
    let text = document_text(&doc);
    proof {
        lemma_prints(doc);
    }
    Ok(text)
}

} // verus!
