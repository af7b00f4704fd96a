//! Hash maps with the FNV hasher.
//!
//! vstd describes a `HashMap` by its view, a `Map` from keys to values, but it
//! says what the methods do to that view only for hashers it knows to be
//! deterministic. The functions here say the same of a map that hashes with
//! `fnv::FnvHasher`, whose state after `default()` is a constant and whose
//! `write` is a function of that state and the bytes. None of their contracts
//! is proved.

use fnv::FnvHashMap;
use std::collections::hash_map::Entry;
use std::hash::Hash;
use vstd::prelude::*;
use vstd::std_specs::hash::obeys_key_model;
use vstd::std_specs::hash::EntrySpecFns;

verus! {

/// `fnv::FnvHasher`, the state of one FNV-1a hash computation.
#[verifier::external_type_specification]
#[verifier::external_body]
pub struct ExFnvHasher(fnv::FnvHasher);

/// `std::hash::BuildHasherDefault`, which makes each hasher with `H::default()`.
#[verifier::external_type_specification]
#[verifier::external_body]
#[verifier::reject_recursive_types(H)]
pub struct ExBuildHasherDefault<H>(std::hash::BuildHasherDefault<H>);

/// `HashMap::entry` on an FNV map: the entry is for `key`, it is occupied by
/// the value that the map holds for `key` and vacant where it holds none, and
/// when the entry is given up the map differs from before only at `key`, where
/// it holds what the entry held last.
#[verifier::external_body]
pub(crate) fn fnv_entry<'a, K: Hash + Eq, V>(map: &'a mut FnvHashMap<K, V>, key: K) -> (entry:
    Entry<'a, K, V>)
    requires
        obeys_key_model::<K>(),
    ensures
        entry.spec_key() == key,
        entry.value() == old(map)@.get(key),
        final(map)@ == (match entry.final_value() {
            Some(value) => old(map)@.insert(key, value),
            None => old(map)@.remove(key),
        }),
{
    map.entry(key)
}

/// `HashMap::get_mut` on an FNV map: a mutable reference to the value held for
/// `key`, through which alone the map can change, or `None` where the map
/// holds none and stays as it is.
#[verifier::external_body]
pub(crate) fn fnv_get_mut<'a, K: Hash + Eq, V>(map: &'a mut FnvHashMap<K, V>, key: &K) -> (found:
    Option<&'a mut V>)
    requires
        obeys_key_model::<K>(),
    ensures
        match found {
            Some(value) => {
                &&& old(map)@.contains_key(*key)
                &&& *value == old(map)@[*key]
                &&& final(map)@ == old(map)@.insert(*key, *final(value))
            },
            None => !old(map)@.contains_key(*key) && final(map)@ == old(map)@,
        },
{
    map.get_mut(key)
}

/// `HashMap::into_iter` on an FNV map, with the pairs collected as they come:
/// every pair of a key and the value held for it, each once, in an order that
/// nothing here states.
#[verifier::external_body]
pub(crate) fn fnv_into_pairs<K, V>(map: FnvHashMap<K, V>) -> (pairs: Vec<(K, V)>)
    requires
        obeys_key_model::<K>(),
    ensures
        forall|i: int|
            0 <= i < pairs@.len() ==> map@.contains_key((#[trigger] pairs@[i]).0) && map@[pairs@[i].0]
                == pairs@[i].1,
        forall|i: int, j: int|
            0 <= i < j < pairs@.len() ==> (#[trigger] pairs@[i]).0 != (#[trigger] pairs@[j]).0,
        forall|key: K| #[trigger]
            map@.contains_key(key) ==> exists|i: int|
                0 <= i < pairs@.len() && (#[trigger] pairs@[i]).0 == key,
{
    map.into_iter().collect()
}

} // verus!
