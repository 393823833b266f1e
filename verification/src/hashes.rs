//! Trusted wrappers around hashbrown's hash set and hash map, as used by the
//! keyword registry: a set of pending keyword names and a table from keyword
//! name to consumer index.
//!
//! The contents of a set are modelled by `set_elems`, those of a table by
//! `map_entries`; both are keyed by the string's characters, which is how
//! `String`'s `Eq` and `Hash` compare keys.

use vstd::prelude::*;

verus! {

/// A set of keyword names, backed by hashbrown's hash set.
#[verifier::external_body]
pub struct NameSet {
    set: hashbrown::HashSet<String>,
}

/// A table from keyword name to consumer index, backed by hashbrown's hash
/// map.
#[verifier::external_body]
pub struct NameTable {
    table: hashbrown::HashMap<String, usize>,
}

/// What a set of names holds, as a set of character sequences.
pub uninterp spec fn set_elems(s: NameSet) -> Set<Seq<char>>;

/// What a name table holds, as a map from character sequence to index.
pub uninterp spec fn map_entries(m: NameTable) -> Map<Seq<char>, usize>;

/// The contents of a table with nothing in it.
pub open spec fn no_entries() -> Map<Seq<char>, usize> {
    Map::empty()
}

/// Relies on hashbrown::HashSet::new: a fresh set is empty.
#[verifier::external_body]
pub(crate) fn set_new() -> (s: NameSet)
    ensures
        set_elems(s) == Set::<Seq<char>>::empty(),
{
    NameSet { set: hashbrown::HashSet::new() }
}

/// Relies on hashbrown::HashSet::insert: afterwards the value is in the set,
/// and the call reports whether it was newly added.
#[verifier::external_body]
pub(crate) fn set_insert(s: &mut NameSet, v: String) -> (r: bool)
    ensures
        set_elems(*final(s)) == set_elems(*old(s)).insert(v@),
        r == !set_elems(*old(s)).contains(v@),
{
    s.set.insert(v)
}

/// Relies on hashbrown::HashSet::contains.
#[verifier::external_body]
pub(crate) fn set_contains(s: &NameSet, v: &String) -> (r: bool)
    ensures
        r == set_elems(*s).contains(v@),
{
    s.set.contains(v)
}

/// Relies on hashbrown::HashSet::remove: afterwards the value is gone, and
/// the call reports whether it was present.
#[verifier::external_body]
pub(crate) fn set_remove(s: &mut NameSet, v: &String) -> (r: bool)
    ensures
        set_elems(*final(s)) == set_elems(*old(s)).remove(v@),
        r == set_elems(*old(s)).contains(v@),
{
    s.set.remove(v)
}

/// Relies on hashbrown::HashMap::new: a fresh table is empty.
#[verifier::external_body]
pub(crate) fn map_new() -> (m: NameTable)
    ensures
        map_entries(m) == no_entries(),
{
    NameTable { table: hashbrown::HashMap::new() }
}

/// Relies on hashbrown::HashMap::insert: afterwards the key is bound to the
/// value, and the previous binding, if any, is returned.
#[verifier::external_body]
pub(crate) fn map_insert(m: &mut NameTable, k: String, v: usize) -> (r: Option<usize>)
    ensures
        map_entries(*final(m)) == map_entries(*old(m)).insert(k@, v),
        r == if map_entries(*old(m)).contains_key(k@) {
            Some(map_entries(*old(m))[k@])
        } else {
            None::<usize>
        },
{
    m.table.insert(k, v)
}

/// Relies on hashbrown::HashMap::get.
#[verifier::external_body]
pub(crate) fn map_get(m: &NameTable, k: &String) -> (r: Option<usize>)
    ensures
        r == if map_entries(*m).contains_key(k@) {
            Some(map_entries(*m)[k@])
        } else {
            None::<usize>
        },
{
    m.table.get(k).copied()
}

} // verus!
