//! Maps from text to text that keep their entries in the order in which the keys came.
use vstd::prelude::*;
use indexmap::IndexMap;
use crate::keys::{key_index, keys_of};
use crate::service::header_views;

verus! {

/// A map that keeps its entries in the order in which their keys came.
#[verifier::external_type_specification]
#[verifier::external_body]
#[verifier::reject_recursive_types(K)]
#[verifier::reject_recursive_types(V)]
#[verifier::reject_recursive_types(S)]
pub struct ExIndexMap<K, V, S>(indexmap::IndexMap<K, V, S>);

/// The entries of a map, in their order.
pub uninterp spec fn ordered_entries(map: IndexMap<String, String>) -> Seq<(Seq<char>, Seq<char>)>;

/// `IndexMap::new`: a map without entries.
#[verifier::external_body]
pub(crate) fn new_map() -> (map: IndexMap<String, String>)
    ensures
        ordered_entries(map) == Seq::<(Seq<char>, Seq<char>)>::empty(),
{
    IndexMap::new()
}

/// `IndexMap::insert`: the value takes the place of the one that stood under the key, or comes last
/// with its key where the key is new.
#[verifier::external_body]
pub(crate) fn insert_entry(map: &mut IndexMap<String, String>, key: String, value: String)
    ensures
        ordered_entries(*final(map)) == (match key_index(
            keys_of(ordered_entries(*old(map))),
            key@,
        ) {
            Some(i) => ordered_entries(*old(map)).update(i, (key@, value@)),
            None => ordered_entries(*old(map)).push((key@, value@)),
        }),
{
    map.insert(key, value);
}

/// `IndexMap::clone`: a map with the same entries in the same order.
#[verifier::external_body]
pub(crate) fn copy_map(map: &IndexMap<String, String>) -> (copy: IndexMap<String, String>)
    ensures
        ordered_entries(copy) == ordered_entries(*map),
{
    map.clone()
}

/// `IndexMap::into_iter`, on a copy: the entries of a map, in their order.
#[verifier::external_body]
pub(crate) fn list_entries(map: &IndexMap<String, String>) -> (entries: Vec<(String, String)>)
    ensures
        header_views(entries@) == ordered_entries(*map),
{
    map.clone().into_iter().collect()
}

}
