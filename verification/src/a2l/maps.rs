//! Maps that keep the order in which their keys came.

use crate::a2l::number::{Num, Number};
use indexmap::IndexMap;
use vstd::prelude::*;

verus! {

/// `indexmap::IndexMap`.
#[verifier::external_type_specification]
#[verifier::external_body]
#[verifier::reject_recursive_types(K)]
#[verifier::reject_recursive_types(V)]
#[verifier::reject_recursive_types(S)]
pub struct ExIndexMap<K, V, S>(IndexMap<K, V, S>);

/// The entries of a map from texts to texts, in the order of the map.
pub uninterp spec fn text_entries(m: IndexMap<String, String>) -> Seq<(Seq<char>, Seq<char>)>;

/// The entries of a map from texts to ranges, in the order of the map.
pub uninterp spec fn range_entries(m: IndexMap<String, Vec<(Number, Number)>>) -> Seq<
    (Seq<char>, Seq<(Num, Num)>),
>;

/// Where a key is among entries, or their number if it is not there.
pub open spec fn place<V>(s: Seq<(Seq<char>, V)>, key: Seq<char>) -> int
    decreases s.len(),
{
    if s.len() == 0 {
        0
    } else if s[0].0 == key {
        0
    } else {
        1 + place(s.drop_first(), key)
    }
}

/// Entries with a value for a key: in the place of the key if it is there, otherwise at the
/// end.
pub open spec fn with_entry<V>(s: Seq<(Seq<char>, V)>, key: Seq<char>, value: V) -> Seq<
    (Seq<char>, V),
> {
    if place(s, key) < s.len() {
        s.update(place(s, key), (key, value))
    } else {
        s.push((key, value))
    }
}

/// `IndexMap::new`: the map has no entries.
#[verifier::external_body]
pub(crate) fn new_texts() -> (r: IndexMap<String, String>)
    ensures
        text_entries(r) == Seq::<(Seq<char>, Seq<char>)>::empty(),
{
    IndexMap::new()
}

/// `IndexMap::insert`: a key that is there keeps its place and gets the value; another one is
/// put at the end.
#[verifier::external_body]
pub(crate) fn insert_text(m: &mut IndexMap<String, String>, key: String, value: String)
    ensures
        text_entries(*final(m)) == with_entry(text_entries(*old(m)), key@, value@),
{
    m.insert(key, value);
}

/// `IndexMap::len`: the number of entries.
#[verifier::external_body]
pub(crate) fn count_texts(m: &IndexMap<String, String>) -> (r: usize)
    ensures
        r == text_entries(*m).len(),
{
    m.len()
}

/// `IndexMap::get_index`: the entry at an index.
#[verifier::external_body]
pub(crate) fn text_at(m: &IndexMap<String, String>, i: usize) -> (r: Option<(&String, &String)>)
    ensures
        match r {
            Some((k, v)) => i < text_entries(*m).len() && (k@, v@) == text_entries(*m)[i as int],
            None => i >= text_entries(*m).len(),
        },
{
    m.get_index(i)
}

/// `IndexMap::new`: the map has no entries.
#[verifier::external_body]
pub(crate) fn new_ranges() -> (r: IndexMap<String, Vec<(Number, Number)>>)
    ensures
        range_entries(r) == Seq::<(Seq<char>, Seq<(Num, Num)>)>::empty(),
{
    IndexMap::new()
}

/// `IndexMap::insert`: a key that is there keeps its place and gets the value; another one is
/// put at the end.
#[verifier::external_body]
pub(crate) fn insert_ranges(
    m: &mut IndexMap<String, Vec<(Number, Number)>>,
    key: String,
    value: Vec<(Number, Number)>,
)
    ensures
        range_entries(*final(m)) == with_entry(range_entries(*old(m)), key@, pairs(value@)),
{
    m.insert(key, value);
}

/// `IndexMap::len`: the number of entries.
#[verifier::external_body]
pub(crate) fn count_ranges(m: &IndexMap<String, Vec<(Number, Number)>>) -> (r: usize)
    ensures
        r == range_entries(*m).len(),
{
    m.len()
}

/// `IndexMap::get_index`: the entry at an index.
#[verifier::external_body]
pub(crate) fn ranges_at(m: &IndexMap<String, Vec<(Number, Number)>>, i: usize) -> (r: Option<
    (&String, &Vec<(Number, Number)>),
>)
    ensures
        match r {
            Some((k, v)) => i < range_entries(*m).len() && (k@, pairs(v@)) == range_entries(
                *m,
            )[i as int],
            None => i >= range_entries(*m).len(),
        },
{
    m.get_index(i)
}

/// `IndexMap::get`: the value of a key, if the key is there.
#[verifier::external_body]
pub(crate) fn ranges_of<'a>(m: &'a IndexMap<String, Vec<(Number, Number)>>, key: &str) -> (r: Option<
    &'a Vec<(Number, Number)>,
>)
    ensures
        match r {
            Some(v) => place(range_entries(*m), key@) < range_entries(*m).len() && pairs(v@)
                == range_entries(*m)[place(range_entries(*m), key@)].1,
            None => place(range_entries(*m), key@) >= range_entries(*m).len(),
        },
{
    m.get(key)
}

/// Pairs of numbers by their views.
pub open spec fn pairs(s: Seq<(Number, Number)>) -> Seq<(Num, Num)> {
    Seq::new(s.len(), |i: int| (s[i].0@, s[i].1@))
}

/// `IndexMap::clone`: the copy has the same entries.
#[verifier::external_body]
pub(crate) fn copy_texts(m: &IndexMap<String, String>) -> (r: IndexMap<String, String>)
    ensures
        text_entries(r) == text_entries(*m),
{
    m.clone()
}

/// `IndexMap::clone`: the copy has the same entries.
#[verifier::external_body]
pub(crate) fn copy_ranges(m: &IndexMap<String, Vec<(Number, Number)>>) -> (r: IndexMap<
    String,
    Vec<(Number, Number)>,
>)
    ensures
        range_entries(r) == range_entries(*m),
{
    m.clone()
}

} // verus!
