//! The `toml_edit` calls the config-text edits make: parsing a document,
//! walking and changing its tables, items and arrays, and printing it back.
//! Parsing is stated to depend on the text alone. What a document, table,
//! item, inline table or array holds is modelled as a `TomlNode` tree, as
//! far as the edits read it: tables and inline tables by their keys,
//! strings, integers and arrays; every other kind of value (floats,
//! booleans, dates, arrays of tables) is `Other`. The wrappers that hand
//! out a `&mut` into a document say how the document's entries follow the
//! final state of that reference. The printed text of a document is
//! named (`printed_text`), not described.

use vstd::prelude::*;

verus! {

#[verifier::external_type_specification]
#[verifier::external_body]
pub struct ExDocumentMut(toml_edit::DocumentMut);

#[verifier::external_type_specification]
#[verifier::external_body]
pub struct ExTable(toml_edit::Table);

#[verifier::external_type_specification]
#[verifier::external_body]
pub struct ExItem(toml_edit::Item);

#[verifier::external_type_specification]
#[verifier::external_body]
pub struct ExArray(toml_edit::Array);

#[verifier::external_type_specification]
#[verifier::external_body]
pub struct ExValue(toml_edit::Value);

#[verifier::external_type_specification]
#[verifier::external_body]
pub struct ExInlineTable(toml_edit::InlineTable);

#[verifier::external_type_specification]
#[verifier::external_body]
pub struct ExTomlError(toml_edit::TomlError);

/// Whether `toml_edit` accepts `text` as a TOML document.
pub uninterp spec fn toml_accepts(text: Seq<char>) -> bool;

/// What a TOML item or value holds, as far as the edits read it.
pub enum TomlNode {
    /// `Item::None`: nothing is stored under the key.
    Absent,
    /// A string value.
    Str(Seq<char>),
    /// An integer value.
    Int(int),
    /// An array value, element by element.
    Array(Seq<TomlNode>),
    /// A (non-inline) table: each key that holds an item, and that item.
    Table(Map<Seq<char>, TomlNode>),
    /// An inline table: each key and the node of its value.
    InlineTable(Map<Seq<char>, TomlNode>),
    /// Any other value.
    Other,
}

/// The root entries of the document `toml_edit` parses from `text` (of
/// no meaning where it refuses the text).
pub uninterp spec fn toml_entries(text: Seq<char>) -> Map<Seq<char>, TomlNode>;

/// What a table holds: each key whose item is not `Item::None`, mapped to
/// that item's node (`item_node`).
pub uninterp spec fn table_entries(t: toml_edit::Table) -> Map<Seq<char>, TomlNode>;

/// What an item holds: `Item::None` is `Absent`, `Item::Table(t)` is
/// `Table(table_entries(t))`; `Item::Value` of a string, an integer, an
/// array or an inline table is `Str`, `Int`, `Array(array_nodes(..))` or
/// `InlineTable(inline_entries(..))`; anything else is `Other`.
pub uninterp spec fn item_node(i: toml_edit::Item) -> TomlNode;

/// What an inline table holds: each key whose item is a value, mapped to
/// that value's node.
pub uninterp spec fn inline_entries(t: toml_edit::InlineTable) -> Map<Seq<char>, TomlNode>;

/// What a document holds as text: what it prints as (its `Display`),
/// with its comments and formatting. How the text is laid out is not
/// modelled; in particular, an implicit table left empty prints nothing,
/// so the text need not re-parse to exactly `document_entries`.
pub uninterp spec fn printed_text(d: toml_edit::DocumentMut) -> Seq<char>;

/// `text` is what some document holding `entries` prints as.
pub open spec fn prints_entries(text: Seq<char>, entries: Map<Seq<char>, TomlNode>) -> bool {
    exists|d: toml_edit::DocumentMut| #![trigger printed_text(d)] document_entries(d) == entries && text == printed_text(d)
}

/// A document's printed text is the printed text of a document holding
/// its entries.
pub proof fn lemma_prints(d: toml_edit::DocumentMut)
    ensures
        prints_entries(printed_text(d), document_entries(d)),
{
    assert(document_entries(d) == document_entries(d) && printed_text(d) == printed_text(d));
}

/// What a document holds: the entries of its root table.
pub uninterp spec fn document_entries(d: toml_edit::DocumentMut) -> Map<Seq<char>, TomlNode>;

/// What an array holds: each element in order, as the node `item_node`
/// gives for `Item::Value` of it.
pub uninterp spec fn array_nodes(a: toml_edit::Array) -> Seq<TomlNode>;

/// A table that holds nothing.
pub open spec fn no_entries() -> Map<Seq<char>, TomlNode> {
    Map::empty()
}

/// `m` with `key` now holding `n`; holding `Absent` leaves no entry.
pub open spec fn put_entry(m: Map<Seq<char>, TomlNode>, key: Seq<char>, n: TomlNode) -> Map<Seq<char>, TomlNode> {
    if n is Absent {
        m.remove(key)
    } else {
        m.insert(key, n)
    }
}

/// Putting back what a key already holds changes nothing.
pub proof fn lemma_put_same(m: Map<Seq<char>, TomlNode>, key: Seq<char>)
    requires
        m.contains_key(key),
        !(m[key] is Absent),
    ensures
        put_entry(m, key, m[key]) == m,
{
    assert(m.insert(key, m[key]) =~= m);
}

/// Putting back the nested table a key already holds changes nothing.
pub proof fn lemma_put_nested_same(
    root: Map<Seq<char>, TomlNode>,
    outer: Seq<char>,
    key: Seq<char>,
    inner: Map<Seq<char>, TomlNode>,
)
    requires
        nested_entry(root, outer, key) == Some(TomlNode::Table(inner)),
    ensures
        put_nested(root, outer, key, inner) == root,
{
    let m = sub_table(root, outer)->0;
    assert(m.insert(key, TomlNode::Table(inner)) =~= m);
    assert(root.insert(outer, TomlNode::Table(m)) =~= root);
}

/// The string value of a node, if it is a string.
pub open spec fn node_str(n: TomlNode) -> Option<Seq<char>> {
    match n {
        TomlNode::Str(s) => Some(s),
        _ => None,
    }
}

/// The string value of each node, in order.
pub open spec fn strs_of(s: Seq<TomlNode>) -> Seq<Option<Seq<char>>> {
    s.map_values(|n: TomlNode| node_str(n))
}

/// The entries of the table stored under `key` in `m`, when `key` holds a
/// (non-inline) table.
pub open spec fn sub_table(m: Map<Seq<char>, TomlNode>, key: Seq<char>) -> Option<Map<Seq<char>, TomlNode>> {
    if m.contains_key(key) {
        match m[key] {
            TomlNode::Table(t) => Some(t),
            _ => None,
        }
    } else {
        None
    }
}

/// The node stored under `key` in the table stored under `outer` in
/// `root`, when `outer` holds a table and that table holds `key`.
pub open spec fn nested_entry(root: Map<Seq<char>, TomlNode>, outer: Seq<char>, key: Seq<char>) -> Option<TomlNode> {
    match sub_table(root, outer) {
        Some(m) => if m.contains_key(key) {
            Some(m[key])
        } else {
            None
        },
        None => None,
    }
}

/// `root` with the table under `outer` now holding, under `key`, the table
/// `inner`.
pub open spec fn put_nested(
    root: Map<Seq<char>, TomlNode>,
    outer: Seq<char>,
    key: Seq<char>,
    inner: Map<Seq<char>, TomlNode>,
) -> Map<Seq<char>, TomlNode> {
    let m = match sub_table(root, outer) {
        Some(m) => m,
        None => no_entries(),
    };
    root.insert(outer, TomlNode::Table(m.insert(key, TomlNode::Table(inner))))
}

/// The string stored under `key` in `m`, when `key` holds a string.
pub open spec fn str_entry(m: Map<Seq<char>, TomlNode>, key: Seq<char>) -> Option<Seq<char>> {
    if m.contains_key(key) {
        node_str(m[key])
    } else {
        None
    }
}

/// `str::parse::<toml_edit::DocumentMut>` (its `FromStr`): whether it
/// succeeds, and what the document holds, depend on the text alone.
#[verifier::external_body]
pub(crate) fn parse_document(text: &str) -> (r: Result<toml_edit::DocumentMut, toml_edit::TomlError>)
    ensures
        r is Ok <==> toml_accepts(text@),
        r matches Ok(d) ==> document_entries(d) == toml_entries(text@),
{
    text.parse::<toml_edit::DocumentMut>()
}

/// `DocumentMut`'s `Display` (through `to_string`): the document as text.
#[verifier::external_body]
pub(crate) fn document_text(doc: &toml_edit::DocumentMut) -> (r: String)
    ensures
        r@ == printed_text(*doc),
{
    doc.to_string()
}

/// `DocumentMut::as_table_mut`: the document's root table; the document
/// then holds what the table ends up holding. (Its `expect` cannot fire:
/// the root of a document is always a table.)
#[verifier::external_body]
pub(crate) fn document_table(doc: &mut toml_edit::DocumentMut) -> (r: &mut toml_edit::Table)
    ensures
        table_entries(*r) == document_entries(*old(doc)),
        document_entries(*final(doc)) == table_entries(*final(r)),
{
    doc.as_table_mut()
}

/// `Table::new`: an empty table.
#[verifier::external_body]
pub(crate) fn new_table() -> (t: toml_edit::Table)
    ensures
        table_entries(t) == no_entries(),
{
    toml_edit::Table::new()
}

/// `Item::Table`: a table as an item (a conversion).
#[verifier::external_body]
pub(crate) fn table_item(t: toml_edit::Table) -> (i: toml_edit::Item)
    ensures
        item_node(i) == TomlNode::Table(table_entries(t)),
{
    toml_edit::Item::Table(t)
}

/// `Table::contains_key`: whether `key` holds an item other than
/// `Item::None`.
#[verifier::external_body]
pub(crate) fn table_contains_key(t: &toml_edit::Table, key: &str) -> (b: bool)
    ensures
        b == table_entries(*t).contains_key(key@),
{
    t.contains_key(key)
}

/// `Table::get`: the item under `key`, unless it is missing or
/// `Item::None`.
#[verifier::external_body]
pub(crate) fn table_get<'a>(t: &'a toml_edit::Table, key: &str) -> (r: Option<&'a toml_edit::Item>)
    ensures
        match r {
            Some(i) => table_entries(*t).contains_key(key@) && item_node(*i) == table_entries(*t)[key@]
                && !(item_node(*i) is Absent),
            None => !table_entries(*t).contains_key(key@),
        },
{
    t.get(key)
}

/// `Table::get_mut`: the item under `key`, unless it is missing or
/// `Item::None`; the table then holds under `key` what the item ends up
/// holding, and is otherwise unchanged.
#[verifier::external_body]
pub(crate) fn table_get_mut<'a>(t: &'a mut toml_edit::Table, key: &str) -> (r: Option<&'a mut toml_edit::Item>)
    ensures
        match r {
            Some(i) => table_entries(*old(t)).contains_key(key@) && item_node(*i) == table_entries(*old(t))[key@]
                && !(item_node(*i) is Absent) && table_entries(*final(t)) == put_entry(
                table_entries(*old(t)),
                key@,
                item_node(*final(i)),
            ),
            None => !table_entries(*old(t)).contains_key(key@) && table_entries(*final(t)) == table_entries(*old(t)),
        },
{
    t.get_mut(key)
}

/// `Table::insert` (the replaced item, if any, is dropped): `key` now
/// holds `item`; an `Item::None` leaves no entry.
#[verifier::external_body]
pub(crate) fn table_insert(t: &mut toml_edit::Table, key: &str, item: toml_edit::Item)
    ensures
        table_entries(*final(t)) == put_entry(table_entries(*old(t)), key@, item_node(item)),
{
    t.insert(key, item);
}

/// `Table::remove`: the key leaves the table. The removed item is handed
/// back; nothing is stated of it.
#[verifier::external_body]
pub(crate) fn table_remove(t: &mut toml_edit::Table, key: &str) -> (r: Option<toml_edit::Item>)
    ensures
        table_entries(*final(t)) == table_entries(*old(t)).remove(key@),
{
    t.remove(key)
}

/// `Table`'s `IndexMut` with an assignment: `t[key] = item` (the key is
/// created when missing); an `Item::None` leaves no entry.
#[verifier::external_body]
pub(crate) fn table_set(t: &mut toml_edit::Table, key: &str, item: toml_edit::Item)
    ensures
        table_entries(*final(t)) == put_entry(table_entries(*old(t)), key@, item_node(item)),
{
    t[key] = item;
}

/// `Item::as_table_mut`: the table an `Item::Table` holds (an inline
/// table is not one); the item then holds what the table ends up holding.
#[verifier::external_body]
pub(crate) fn item_as_table_mut(i: &mut toml_edit::Item) -> (r: Option<&mut toml_edit::Table>)
    ensures
        match r {
            Some(t) => item_node(*old(i)) == TomlNode::Table(table_entries(*t)) && item_node(*final(i))
                == TomlNode::Table(table_entries(*final(t))),
            None => !(item_node(*old(i)) is Table) && item_node(*final(i)) == item_node(*old(i)),
        },
{
    i.as_table_mut()
}

/// `Item::as_array_mut`: the array an item's array value holds; the item
/// then holds what the array ends up holding.
#[verifier::external_body]
pub(crate) fn item_as_array_mut(i: &mut toml_edit::Item) -> (r: Option<&mut toml_edit::Array>)
    ensures
        match r {
            Some(a) => item_node(*old(i)) == TomlNode::Array(array_nodes(*a)) && item_node(*final(i))
                == TomlNode::Array(array_nodes(*final(a))),
            None => !(item_node(*old(i)) is Array) && item_node(*final(i)) == item_node(*old(i)),
        },
{
    i.as_array_mut()
}

/// `Item::as_str`, converted to an owned string: the value of a string.
#[verifier::external_body]
pub(crate) fn item_as_str(i: &toml_edit::Item) -> (r: Option<String>)
    ensures
        match r {
            Some(s) => node_str(item_node(*i)) == Some(s@),
            None => node_str(item_node(*i)) is None,
        },
{
    i.as_str().map(|s| s.to_string())
}

/// `toml_edit::value` of a string.
#[verifier::external_body]
pub(crate) fn str_value(s: &str) -> (i: toml_edit::Item)
    ensures
        item_node(i) == TomlNode::Str(s@),
{
    toml_edit::value(s)
}

/// `toml_edit::value` of an integer.
#[verifier::external_body]
pub(crate) fn int_value(v: i64) -> (i: toml_edit::Item)
    ensures
        item_node(i) == TomlNode::Int(v as int),
{
    toml_edit::value(v)
}

/// `toml_edit::value` of an array.
#[verifier::external_body]
pub(crate) fn array_value(a: toml_edit::Array) -> (i: toml_edit::Item)
    ensures
        item_node(i) == TomlNode::Array(array_nodes(a)),
{
    toml_edit::value(a)
}

/// `Array::new`: an array holding nothing.
#[verifier::external_body]
pub(crate) fn new_array() -> (a: toml_edit::Array)
    ensures
        array_nodes(a) == Seq::<TomlNode>::empty(),
{
    toml_edit::Array::new()
}

/// `Array::len`: the number of elements.
#[verifier::external_body]
pub(crate) fn array_len(a: &toml_edit::Array) -> (n: usize)
    ensures
        n == array_nodes(*a).len(),
{
    a.len()
}

/// `Array::get` then `Value::as_str`: the string value of element `i`.
#[verifier::external_body]
pub(crate) fn array_str_at(a: &toml_edit::Array, i: usize) -> (r: Option<String>)
    requires
        i < array_nodes(*a).len(),
    ensures
        match r {
            Some(s) => node_str(array_nodes(*a)[i as int]) == Some(s@),
            None => node_str(array_nodes(*a)[i as int]) is None,
        },
{
    a.get(i).and_then(|v| v.as_str()).map(|s| s.to_string())
}

/// `Array::push` of a string: it becomes the last element.
#[verifier::external_body]
pub(crate) fn array_push_str(a: &mut toml_edit::Array, s: &str)
    ensures
        array_nodes(*final(a)) == array_nodes(*old(a)).push(TomlNode::Str(s@)),
{
    a.push(s);
}

/// `Array::push` of an integer: it becomes the last element (not a string).
#[verifier::external_body]
pub(crate) fn array_push_int(a: &mut toml_edit::Array, v: i64)
    ensures
        array_nodes(*final(a)) == array_nodes(*old(a)).push(TomlNode::Int(v as int)),
{
    a.push(v);
}

/// `Array::push` of an array (as `Value::Array`): it becomes the last
/// element (not a string).
#[verifier::external_body]
pub(crate) fn array_push_array(a: &mut toml_edit::Array, v: toml_edit::Array)
    ensures
        array_nodes(*final(a)) == array_nodes(*old(a)).push(TomlNode::Array(array_nodes(v))),
{
    a.push(toml_edit::Value::Array(v));
}

/// `Array::remove`: element `i` leaves, later ones shift down. It panics
/// on an index past the end, which `requires` rules out.
#[verifier::external_body]
pub(crate) fn array_remove(a: &mut toml_edit::Array, i: usize)
    requires
        i < array_nodes(*old(a)).len(),
    ensures
        array_nodes(*final(a)) == array_nodes(*old(a)).remove(i as int),
{
    a.remove(i);
}

/// `Array::get_mut` then `Value::as_inline_table_mut`: element `i` when it
/// is an inline table; the array then holds at `i` what that inline table
/// ends up holding.
#[verifier::external_body]
pub(crate) fn array_inline_table_at(a: &mut toml_edit::Array, i: usize) -> (r: Option<&mut toml_edit::InlineTable>)
    ensures
        match r {
            Some(t) => i < array_nodes(*old(a)).len() && array_nodes(*old(a))[i as int] == TomlNode::InlineTable(
                inline_entries(*t),
            ) && array_nodes(*final(a)) == array_nodes(*old(a)).update(
                i as int,
                TomlNode::InlineTable(inline_entries(*final(t))),
            ),
            None => !(i < array_nodes(*old(a)).len() && array_nodes(*old(a))[i as int] is InlineTable)
                && array_nodes(*final(a)) == array_nodes(*old(a)),
        },
{
    a.get_mut(i).and_then(|v| v.as_inline_table_mut())
}

/// `Array::get` then `Value::as_inline_table`: element `i` when it is an
/// inline table.
#[verifier::external_body]
pub(crate) fn array_inline_table_ref_at(a: &toml_edit::Array, i: usize) -> (r: Option<&toml_edit::InlineTable>)
    ensures
        match r {
            Some(t) => i < array_nodes(*a).len() && array_nodes(*a)[i as int] == TomlNode::InlineTable(
                inline_entries(*t),
            ),
            None => !(i < array_nodes(*a).len() && array_nodes(*a)[i as int] is InlineTable),
        },
{
    a.get(i).and_then(|v| v.as_inline_table())
}

/// `InlineTable::get` then `Value::as_str`, converted to an owned string:
/// the string under `key`, if it holds one.
#[verifier::external_body]
pub(crate) fn inline_table_get_str(t: &toml_edit::InlineTable, key: &str) -> (r: Option<String>)
    ensures
        match r {
            Some(s) => str_entry(inline_entries(*t), key@) == Some(s@),
            None => str_entry(inline_entries(*t), key@) is None,
        },
{
    t.get(key).and_then(|v| v.as_str()).map(|s| s.to_string())
}

/// `InlineTable::new`: an inline table holding nothing.
#[verifier::external_body]
pub(crate) fn new_inline_table() -> (t: toml_edit::InlineTable)
    ensures
        inline_entries(t) == no_entries(),
{
    toml_edit::InlineTable::new()
}

/// `InlineTable::insert` of a string value (`Value::from`): `key` now
/// holds the string.
#[verifier::external_body]
pub(crate) fn inline_table_insert_str(t: &mut toml_edit::InlineTable, key: &str, s: &str)
    ensures
        inline_entries(*final(t)) == inline_entries(*old(t)).insert(key@, TomlNode::Str(s@)),
{
    t.insert(key, toml_edit::Value::from(s.to_string()));
}

/// `Array::push` of an inline table (as `Value::InlineTable`): it becomes
/// the last element (not a string).
#[verifier::external_body]
pub(crate) fn array_push_inline_table(a: &mut toml_edit::Array, t: toml_edit::InlineTable)
    ensures
        array_nodes(*final(a)) == array_nodes(*old(a)).push(TomlNode::InlineTable(inline_entries(t))),
{
    a.push(toml_edit::Value::InlineTable(t));
}

} // verus!
