//! The decisions of the surgical config-text edits: whether a curve entry
//! is of the kind an edit expects, whether a member list already holds a
//! name, and which entry a removal takes — or why it refuses. A list's
//! entries are given as their string values (`None` for an entry that is
//! not a string or has no such field).

use vstd::prelude::*;
use crate::text::str_eq;

verus! {

/// Why an entry cannot be removed from a member or input list.
#[derive(Debug, Clone, Copy, PartialEq, Eq)]
pub enum ListRefusal {
    /// The list would be left empty, which a mix cannot be.
    LastEntry,
    /// No entry carries the name.
    NotFound,
}

/// The text of each entry, in order.
pub open spec fn opt_views(entries: Seq<Option<String>>) -> Seq<Option<Seq<char>>> {
    entries.map_values(|e: Option<String>| match e {
        Some(s) => Some(s@),
        None => None,
    })
}

/// Entry `k` carries the text `item`.
pub open spec fn entry_is(entries: Seq<Option<Seq<char>>>, k: int, item: Seq<char>) -> bool {
    entries[k] == Some(item)
}

/// Some entry carries the text `item`.
pub open spec fn list_has(entries: Seq<Option<Seq<char>>>, item: Seq<char>) -> bool {
    exists|k: int| 0 <= k < entries.len() && #[trigger] entry_is(entries, k, item)
}

/// The first entry at or after `i` that carries `item`, or the length.
pub open spec fn first_entry_from(entries: Seq<Option<Seq<char>>>, item: Seq<char>, i: int) -> int
    decreases entries.len() - i,
{
    if i < 0 || i >= entries.len() {
        entries.len() as int
    } else if entry_is(entries, i, item) {
        i
    } else {
        first_entry_from(entries, item, i + 1)
    }
}

proof fn lemma_first_entry_from(entries: Seq<Option<Seq<char>>>, item: Seq<char>, i: int)
    requires
        0 <= i <= entries.len(),
    ensures
        i <= first_entry_from(entries, item, i) <= entries.len(),
        first_entry_from(entries, item, i) < entries.len() ==> entry_is(
            entries,
            first_entry_from(entries, item, i),
            item,
        ),
        forall|j: int| i <= j < first_entry_from(entries, item, i) ==> !#[trigger] entry_is(entries, j, item),
    decreases entries.len() - i,
{
    if i < entries.len() && !entry_is(entries, i, item) {
        lemma_first_entry_from(entries, item, i + 1);
    }
}

/// Does some entry carry the text `item`? (Adding a name a mix already
/// lists is refused.)
pub fn list_contains(entries: &Vec<Option<String>>, item: &str) -> (b: bool)
    ensures
        b == list_has(opt_views(entries@), item@),
{
    let mut i: usize = 0;
    while i < entries.len()
        invariant
            0 <= i <= entries.len(),
            forall|k: int| 0 <= k < i ==> !#[trigger] entry_is(opt_views(entries@), k, item@),
        decreases entries.len() - i,
    {
        match &entries[i] {
            Some(s) => {
                if str_eq(s.as_str(), item) {
                    assert(entry_is(opt_views(entries@), i as int, item@));
                    return true;
                }
            },
            None => {},
        }
        i = i + 1;
    }
    false
}

/// Which entry removing `item` takes: none when that would leave the list
/// empty; otherwise the first entry carrying `item`, if any.
pub fn removal_index(entries: &Vec<Option<String>>, item: &str) -> (r: Result<usize, ListRefusal>)
    ensures
        entries.len() <= 1 ==> r == Err::<usize, ListRefusal>(ListRefusal::LastEntry),
        entries.len() > 1 && list_has(opt_views(entries@), item@) ==> r == Ok::<usize, ListRefusal>(
            first_entry_from(opt_views(entries@), item@, 0) as usize,
        ),
        entries.len() > 1 && !list_has(opt_views(entries@), item@) ==> r == Err::<usize, ListRefusal>(ListRefusal::NotFound),
        r matches Ok(i) ==> i < entries.len() && entry_is(opt_views(entries@), i as int, item@) && i
            == first_entry_from(opt_views(entries@), item@, 0),
{
    proof {
        lemma_first_entry_from(opt_views(entries@), item@, 0);
    }
    if entries.len() <= 1 {
        return Err(ListRefusal::LastEntry);
    }
    let mut i: usize = 0;
    while i < entries.len()
        invariant
            0 <= i <= entries.len(),
            entries.len() > 1,
            forall|k: int| 0 <= k < i ==> !#[trigger] entry_is(opt_views(entries@), k, item@),
            first_entry_from(opt_views(entries@), item@, 0) == first_entry_from(opt_views(entries@), item@, i as int),
        decreases entries.len() - i,
    {
        let hit = match &entries[i] {
            Some(s) => str_eq(s.as_str(), item),
            None => false,
        };
        if hit {
            assert(entry_is(opt_views(entries@), i as int, item@));
            return Ok(i);
        }
        i = i + 1;
    }
    Err(ListRefusal::NotFound)
}

/// Is a curve entry whose `kind` field reads `kind` of the `expected`
/// kind? An entry with no string `kind` is of no kind.
pub fn kind_matches(kind: &Option<String>, expected: &str) -> (b: bool)
    ensures
        b == (kind matches Some(k) && k@ == expected@),
{
    match kind {
        Some(k) => str_eq(k.as_str(), expected),
        None => false,
    }
}

/// The first entry carrying `item`, if any.
pub fn position_of(entries: &Vec<Option<String>>, item: &str) -> (r: Option<usize>)
    ensures
        list_has(opt_views(entries@), item@) ==> r == Some(first_entry_from(opt_views(entries@), item@, 0) as usize),
        !list_has(opt_views(entries@), item@) ==> r is None,
        r matches Some(i) ==> i < entries.len() && entry_is(opt_views(entries@), i as int, item@) && i
            == first_entry_from(opt_views(entries@), item@, 0),
{
    proof {
        lemma_first_entry_from(opt_views(entries@), item@, 0);
    }
    let mut i: usize = 0;
    while i < entries.len()
        invariant
            0 <= i <= entries.len(),
            forall|k: int| 0 <= k < i ==> !#[trigger] entry_is(opt_views(entries@), k, item@),
            first_entry_from(opt_views(entries@), item@, 0) == first_entry_from(opt_views(entries@), item@, i as int),
        decreases entries.len() - i,
    {
        let hit = match &entries[i] {
            Some(s) => str_eq(s.as_str(), item),
            None => false,
        };
        if hit {
            assert(entry_is(opt_views(entries@), i as int, item@));
            return Some(i);
        }
        i = i + 1;
    }
    None
}

} // verus!
