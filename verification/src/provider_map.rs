//! The providers of a file as an `indexmap::IndexMap`, in the order in which
//! they stand there.

use std::hash::RandomState;

use vstd::prelude::*;

use crate::json::{with_entry, Json, JsonModel};

verus! {

/// `indexmap`'s map, which keeps its entries in the order of their insertion.
#[verifier::external_type_specification]
#[verifier::external_body]
#[verifier::reject_recursive_types(K)]
#[verifier::reject_recursive_types(V)]
#[verifier::reject_recursive_types(S)]
pub struct ExIndexMap<K, V, S>(indexmap::IndexMap<K, V, S>);

/// The entries of a map of providers, in their order.
pub uninterp spec fn provider_entries(
    map: indexmap::IndexMap<String, Json, RandomState>,
) -> Seq<(Seq<char>, JsonModel)>;

/// Calls `IndexMap::new`: a map without entries.
#[verifier::external_body]
pub(crate) fn empty_providers() -> (map: indexmap::IndexMap<String, Json, RandomState>)
    ensures
        provider_entries(map) == Seq::<(Seq<char>, JsonModel)>::empty(),
{
    indexmap::IndexMap::new()
}

/// Calls `IndexMap::insert`: a key that is there keeps its place and gets the
/// value, another one is put at the end.
#[verifier::external_body]
pub(crate) fn insert_provider(
    map: &mut indexmap::IndexMap<String, Json, RandomState>,
    key: String,
    value: Json,
)
    ensures
        provider_entries(*final(map)) == with_entry(provider_entries(*old(map)), key@, value@),
{
    let _ = map.insert(key, value);
}

/// The keys of some entries, in their order.
pub open spec fn keys_of(entries: Seq<(Seq<char>, JsonModel)>) -> Seq<Seq<char>> {
    entries.map_values(|entry: (Seq<char>, JsonModel)| entry.0)
}

/// The texts of some strings.
pub open spec fn texts(strings: Seq<String>) -> Seq<Seq<char>> {
    strings.map_values(|s: String| s@)
}

/// Calls `IndexMap::keys`: the keys, in the order of the entries.
#[verifier::external_body]
pub(crate) fn provider_keys(map: &indexmap::IndexMap<String, Json, RandomState>) -> (keys: Vec<
    String,
>)
    ensures
        texts(keys@) == keys_of(provider_entries(*map)),
{
    map.keys().cloned().collect()
}

} // verus!
