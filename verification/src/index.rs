//! Insertion-ordered maps.

use indexmap::IndexMap;
use vstd::prelude::*;

verus! {

#[verifier::external_type_specification]
#[verifier::external_body]
#[verifier::reject_recursive_types(K)]
#[verifier::reject_recursive_types(V)]
#[verifier::reject_recursive_types(S)]
pub struct ExIndexMap<K, V, S>(indexmap::IndexMap<K, V, S>);

/// The entries of a map from names to places, in the order the names were first
/// inserted.
pub uninterp spec fn places(map: IndexMap<String, usize>) -> Seq<(Seq<char>, usize)>;

/// Where the entry of a name is.
pub open spec fn entry_at<V>(entries: Seq<(Seq<char>, V)>, name: Seq<char>) -> Option<int>
    decreases entries.len(),
{
    if entries.len() == 0 {
        None
    } else {
        match entry_at(entries.drop_last(), name) {
            Some(i) => Some(i),
            None => if entries.last().0 == name {
                Some(entries.len() - 1)
            } else {
                None
            },
        }
    }
}

/// The entries after an insertion: a name that has an entry keeps its place and
/// gets the new value, and one that has none comes last.
pub open spec fn inserted<V>(entries: Seq<(Seq<char>, V)>, name: Seq<char>, value: V) -> Seq<
    (Seq<char>, V),
> {
    match entry_at(entries, name) {
        Some(i) => entries.update(i, (name, value)),
        None => entries.push((name, value)),
    }
}

/// `IndexMap::new` makes a map without entries.
#[verifier::external_body]
pub(crate) fn new_places() -> (map: IndexMap<String, usize>)
    ensures
        places(map) == Seq::<(Seq<char>, usize)>::empty(),
{
    IndexMap::new()
}

/// `IndexMap::insert` replaces the value of a name that has an entry, in place,
/// and appends the entry of one that has none.
#[verifier::external_body]
pub(crate) fn insert_place(map: &mut IndexMap<String, usize>, name: String, place: usize)
    ensures
        places(*final(map)) == inserted(places(*old(map)), name@, place),
{
    map.insert(name, place);
}

/// `IndexMap::get` finds the value of a name that has an entry, and nothing for
/// one that has none.
#[verifier::external_body]
pub(crate) fn get_place(map: &IndexMap<String, usize>, name: &str) -> (r: Option<usize>)
    ensures
        r == match entry_at(places(*map), name@) {
            Some(i) => Some(places(*map)[i].1),
            None => None,
        },
{
    map.get(name).copied()
}

/// `IndexMap::get_index` finds the entry at a place in the order.
#[verifier::external_body]
pub(crate) fn name_at(map: &IndexMap<String, usize>, at: usize) -> (r: Option<&String>)
    ensures
        match r {
            Some(name) => at < places(*map).len() && name@ == places(*map)[at as int].0,
            None => at >= places(*map).len(),
        },
{
    map.get_index(at).map(|entry| entry.0)
}

/// A name has an entry exactly where its entry is.
pub proof fn entry_at_finds<V>(entries: Seq<(Seq<char>, V)>, name: Seq<char>)
    ensures
        match entry_at(entries, name) {
            Some(i) => 0 <= i < entries.len() && entries[i].0 == name && forall|j: int|
                0 <= j < i ==> (#[trigger] entries[j]).0 != name,
            None => forall|j: int| 0 <= j < entries.len() ==> (#[trigger] entries[j]).0 != name,
        },
    decreases entries.len(),
{
    if entries.len() > 0 {
        entry_at_finds(entries.drop_last(), name);
        match entry_at(entries.drop_last(), name) {
            Some(i) => {
                assert(entries.drop_last()[i] == entries[i]);
                assert forall|j: int| 0 <= j < i implies (#[trigger] entries[j]).0 != name by {
                    assert(entries.drop_last()[j] == entries[j]);
                }
            },
            None => {
                assert forall|j: int| 0 <= j < entries.len() - 1 implies (#[trigger] entries[j]).0
                    != name by {
                    assert(entries.drop_last()[j] == entries[j]);
                }
            },
        }
    }
}

}
