//! The concurrent map from a key to the row of the vector cache that holds
//! its vector, kept in a `DashMap`.
use vstd::prelude::*;

use dashmap::DashMap;

verus! {

#[verifier::external_type_specification]
#[verifier::external_body]
#[verifier::reject_recursive_types(K)]
#[verifier::reject_recursive_types(V)]
#[verifier::reject_recursive_types(S)]
pub struct ExDashMap<K, V, S = std::collections::hash_map::RandomState>(DashMap<K, V, S>);

/// The entries of a row-index map.
pub uninterp spec fn row_entries(m: DashMap<usize, usize>) -> Map<usize, usize>;

/// Relies on `DashMap::new`: the new map holds no entry.
#[verifier::external_body]
pub(crate) fn new_row_index() -> (r: DashMap<usize, usize>)
    ensures
        forall|k: usize| !(#[trigger] row_entries(r).contains_key(k)),
{
    DashMap::new()
}

/// Relies on `DashMap::insert`: the key now maps to the row, and the row that
/// it mapped to before, if any, is returned.
#[verifier::external_body]
pub(crate) fn insert_row(m: &mut DashMap<usize, usize>, key: usize, row: usize) -> (r: Option<usize>)
    ensures
        row_entries(*final(m)) == row_entries(*old(m)).insert(key, row),
        r == (if row_entries(*old(m)).contains_key(key) {
            Some(row_entries(*old(m))[key])
        } else {
            None
        }),
{
    m.insert(key, row)
}

/// Relies on `DashMap::get`: the row that the key maps to, if any.
#[verifier::external_body]
pub(crate) fn lookup_row(m: &DashMap<usize, usize>, key: usize) -> (r: Option<usize>)
    ensures
        r == (if row_entries(*m).contains_key(key) {
            Some(row_entries(*m)[key])
        } else {
            None
        }),
{
    m.get(&key).map(|entry| *entry)
}

} // verus!
