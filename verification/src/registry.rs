//! What the registries of tasks and scenarios have in common: entries in the
//! order in which they were written, each found again by its id.

use indexmap::{IndexMap, IndexSet};
use vstd::prelude::*;

verus! {

/// Declares [`indexmap::IndexMap`], of which nothing but its trusted
/// operations is known.
#[verifier::external_type_specification]
#[verifier::external_body]
#[verifier::reject_recursive_types(K)]
#[verifier::reject_recursive_types(V)]
#[verifier::reject_recursive_types(S)]
pub struct ExIndexMap<K, V, S>(IndexMap<K, V, S>);

/// Declares [`indexmap::IndexSet`], of which nothing but its trusted
/// operations is known.
#[verifier::external_type_specification]
#[verifier::external_body]
#[verifier::reject_recursive_types(T)]
#[verifier::reject_recursive_types(S)]
pub struct ExIndexSet<T, S>(IndexSet<T, S>);

/// Whether an entry is registered under `key`.
pub open spec fn has_key<T>(entries: Seq<(Seq<char>, T)>, key: Seq<char>) -> bool {
    exists|i: int| 0 <= i < entries.len() && (#[trigger] entries[i]).0 == key
}

/// The position of an entry that is registered under `key`.
pub open spec fn position_of<T>(entries: Seq<(Seq<char>, T)>, key: Seq<char>) -> int {
    choose|i: int| 0 <= i < entries.len() && (#[trigger] entries[i]).0 == key
}

/// What is registered under `key`, if anything is.
pub open spec fn value_of<T>(entries: Seq<(Seq<char>, T)>, key: Seq<char>) -> Option<T> {
    if has_key(entries, key) {
        Some(entries[position_of(entries, key)].1)
    } else {
        None
    }
}

/// The ids of the entries, in order.
pub open spec fn keys_of<T>(entries: Seq<(Seq<char>, T)>) -> Seq<Seq<char>> {
    Seq::new(entries.len(), |i: int| entries[i].0)
}

/// What is registered under each key, in order.
pub open spec fn values_of<T>(entries: Seq<(Seq<char>, T)>) -> Seq<T> {
    Seq::new(entries.len(), |i: int| entries[i].1)
}

} // verus!
