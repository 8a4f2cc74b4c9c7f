//! A hash table from type ids to positions.

use std::any::TypeId;
use vstd::prelude::*;

verus! {

/// A `hashbrown::HashMap` from type ids to positions. The table itself is
/// opaque to the verifier; `index_entries` names what it holds.
#[verifier::external_body]
#[derive(Debug)]
pub struct TypeIndex {
    map: hashbrown::HashMap<TypeId, usize>,
}

/// The entries that a table holds.
pub uninterp spec fn index_entries(index: TypeIndex) -> Map<TypeId, usize>;

impl View for TypeIndex {
    type V = Map<TypeId, usize>;

    open spec fn view(&self) -> Map<TypeId, usize> {
        index_entries(*self)
    }
}

/// `HashMap::new`: the new table holds nothing.
#[verifier::external_body]
pub(crate) fn index_new() -> (index: TypeIndex)
    ensures
        index_entries(index) =~= Map::empty(),
{
    TypeIndex { map: hashbrown::HashMap::new() }
}

/// `HashMap::get`: the position stored under `key`, or `None` where the table
/// has no entry for it.
#[verifier::external_body]
pub(crate) fn index_get(index: &TypeIndex, key: &TypeId) -> (found: Option<usize>)
    ensures
        found == index_entries(*index).get(*key),
{
    index.map.get(key).copied()
}

/// `HashMap::insert`: afterwards `key` maps to `position`, whether or not it
/// had an entry before; all other entries stay as they were.
#[verifier::external_body]
pub(crate) fn index_insert(index: &mut TypeIndex, key: TypeId, position: usize)
    ensures
        index_entries(*final(index)) == index_entries(*old(index)).insert(key, position),
{
    index.map.insert(key, position);
}

/// `HashMap::entry`: where `key` has no entry yet, one is made for `position`
/// and the call returns true. Where it has one, the table is left as it was
/// and the call returns false.
#[verifier::external_body]
pub(crate) fn index_insert_vacant(index: &mut TypeIndex, key: TypeId, position: usize) -> (inserted: bool)
    ensures
        inserted == !index_entries(*old(index)).contains_key(key),
        inserted ==> index_entries(*final(index)) == index_entries(*old(index)).insert(
            key,
            position,
        ),
        !inserted ==> index_entries(*final(index)) == index_entries(*old(index)),
{
    match index.map.entry(key) {
        hashbrown::hash_map::Entry::Occupied(_) => false,
        hashbrown::hash_map::Entry::Vacant(slot) => {
            slot.insert(position);
            true
        },
    }
}

/// `HashMap::clear`: afterwards the table holds nothing.
#[verifier::external_body]
pub(crate) fn index_clear(index: &mut TypeIndex)
    ensures
        index_entries(*final(index)) =~= Map::empty(),
{
    index.map.clear();
}

} // verus!
