//! Trusted boundary around `indexmap::IndexMap`.
//!
//! The memory pool and the committee keep their entries in an insertion-
//! ordered map of the `indexmap` crate. Verus does not read that crate, so
//! the map type is declared opaque here, its contents are given a name
//! (`entries_of`, the ordered key/value pairs it holds), and each method the
//! library calls gets a wrapper whose contract states what the crate's
//! documentation promises of it.

use crate::entries::{keys_distinct, seq_has_key};
use vstd::prelude::*;

verus! {

#[verifier::external_type_specification]
#[verifier::external_body]
#[verifier::reject_recursive_types(K)]
#[verifier::reject_recursive_types(V)]
#[verifier::reject_recursive_types(S)]
pub struct ExIndexMap<K, V, S>(indexmap::IndexMap<K, V, S>);

/// An insertion-ordered map from `u64` keys to `u64` values.
pub type OrderedU64Map = indexmap::IndexMap<u64, u64, std::collections::hash_map::RandomState>;

/// The ordered key/value pairs a map holds.
pub uninterp spec fn entries_of(m: OrderedU64Map) -> Seq<(u64, u64)>;

/// Relies on indexmap::IndexMap::new: creates an empty map.
#[verifier::external_body]
pub fn imap_new() -> (r: OrderedU64Map)
    ensures
        entries_of(r) == Seq::<(u64, u64)>::empty(),
{
    indexmap::IndexMap::new()
}

/// Relies on indexmap::IndexMap::insert: an existing key keeps its place in
/// the order and takes the new value, and the old value is returned; a new
/// key is appended last and `None` is returned. The map keeps its keys
/// pairwise distinct.
#[verifier::external_body]
pub fn imap_insert(m: &mut OrderedU64Map, k: u64, v: u64) -> (prev: Option<u64>)
    ensures
        keys_distinct(entries_of(*final(m))),
        seq_has_key(entries_of(*old(m)), k) ==> prev is Some,
        forall|i: int|
            0 <= i < entries_of(*old(m)).len() && entries_of(*old(m))[i].0 == k ==> {
                &&& entries_of(*final(m)) == entries_of(*old(m)).update(i, (k, v))
                &&& prev == Some(entries_of(*old(m))[i].1)
            },
        !seq_has_key(entries_of(*old(m)), k) ==> {
            &&& prev is None
            &&& entries_of(*final(m)) == entries_of(*old(m)).push((k, v))
        },
{
    m.insert(k, v)
}

/// Relies on indexmap::IndexMap::len: the number of key/value pairs.
#[verifier::external_body]
pub fn imap_len(m: &OrderedU64Map) -> (n: usize)
    ensures
        n == entries_of(*m).len(),
{
    m.len()
}

/// Relies on indexmap::IndexMap::contains_key.
#[verifier::external_body]
pub fn imap_contains_key(m: &OrderedU64Map, k: u64) -> (r: bool)
    ensures
        r == seq_has_key(entries_of(*m), k),
{
    m.contains_key(&k)
}

/// Relies on indexmap::IndexMap::iter: yields the key/value pairs in their
/// order.
#[verifier::external_body]
pub fn imap_entries(m: &OrderedU64Map) -> (v: Vec<(u64, u64)>)
    ensures
        v@ == entries_of(*m),
{
    m.iter().map(|(k, v)| (*k, *v)).collect()
}

/// A map holding exactly the given entries, whose keys must be distinct.
pub fn map_from_entries(kept: &Vec<(u64, u64)>) -> (m: OrderedU64Map)
    requires
        keys_distinct(kept@),
    ensures
        entries_of(m) == kept@,
{
    let mut m = imap_new();
    let mut i: usize = 0;
    while i < kept.len()
        invariant
            0 <= i <= kept@.len(),
            keys_distinct(kept@),
            entries_of(m) == kept@.take(i as int),
        decreases kept@.len() - i,
    {
        proof {
            if seq_has_key(kept@.take(i as int), kept@[i as int].0) {
                let k = choose|k: int| 0 <= k < i && kept@.take(i as int)[k].0 == kept@[i as int].0;
                assert(kept@[k].0 == kept@[i as int].0);
                assert(false);
            }
        }
        let _ = imap_insert(&mut m, kept[i].0, kept[i].1);
        assert(entries_of(m) =~= kept@.take(i + 1));
        i += 1;
    }
    assert(kept@.take(kept@.len() as int) =~= kept@);
    m
}

/// Relies on indexmap::IndexMap::clear: removes every key/value pair.
#[verifier::external_body]
pub fn imap_clear(m: &mut OrderedU64Map)
    ensures
        entries_of(*final(m)) == Seq::<(u64, u64)>::empty(),
{
    m.clear()
}

} // verus!
