//! The store behind the cache: `LruCache` of the `lru-cache` crate, a map
//! that keeps its entries in the order of their last use and drops the one
//! used longest ago when it grows past its limit.
//!
//! Verus cannot see inside it. What it holds has a name, [`entries`], the
//! limit it was made with has another, [`limit`], and each method that the
//! cache calls has a contract over the two. These contracts are taken on
//! trust; the functions on sequences that they are written with are plain
//! definitions.
use vstd::prelude::*;
use lru_cache::LruCache;
use std::hash::{BuildHasher, Hash};
use crate::message::{Payload, PayloadView};

verus! {

#[verifier::external_type_specification]
#[verifier::external_body]
#[verifier::reject_recursive_types(K)]
#[verifier::reject_recursive_types(V)]
#[verifier::reject_recursive_types(S)]
pub struct ExLruCache<K: Eq + Hash, V, S: BuildHasher>(LruCache<K, V, S>);

/// The store of the cache: payloads under keys of bytes.
pub type Store = LruCache<Vec<u8>, Payload>;

/// An entry of the store as a mathematical value: the key and the payload.
pub type Entry = (Seq<u8>, PayloadView);

/// What the store holds, from the entry used longest ago to the entry used
/// last.
pub uninterp spec fn entries(store: LruCache<Vec<u8>, Payload>) -> Seq<Entry>;

/// The number of entries that the store was made to hold at most.
pub uninterp spec fn limit(store: LruCache<Vec<u8>, Payload>) -> nat;

/// Some entry has the key.
pub open spec fn holds(entries: Seq<Entry>, key: Seq<u8>) -> bool {
    exists|i: int| 0 <= i < entries.len() && (#[trigger] entries[i]).0 == key
}

/// The place of an entry with the key, where there is one.
pub open spec fn index_of(entries: Seq<Entry>, key: Seq<u8>) -> int {
    choose|i: int| 0 <= i < entries.len() && (#[trigger] entries[i]).0 == key
}

/// The payload under the key, if there is one.
pub open spec fn lookup(entries: Seq<Entry>, key: Seq<u8>) -> Option<PayloadView> {
    if holds(entries, key) {
        Some(entries[index_of(entries, key)].1)
    } else {
        None
    }
}

/// The entries without the entry of the key.
pub open spec fn without(entries: Seq<Entry>, key: Seq<u8>) -> Seq<Entry> {
    if holds(entries, key) {
        entries.remove(index_of(entries, key))
    } else {
        entries
    }
}

/// The entries after a use of the key: its entry, if there is one, moves to
/// the end, where the entry used last stands.
pub open spec fn refreshed(entries: Seq<Entry>, key: Seq<u8>) -> Seq<Entry> {
    match lookup(entries, key) {
        Some(value) => without(entries, key).push((key, value)),
        None => entries,
    }
}

/// The entries after the payload is put under the key, in a store of the
/// given limit: the new entry stands at the end, an older entry of the same
/// key is gone, and if that makes more entries than the limit, the first
/// one, used longest ago, is dropped.
pub open spec fn inserted(
    entries: Seq<Entry>,
    limit: nat,
    key: Seq<u8>,
    value: PayloadView,
) -> Seq<Entry> {
    let placed = without(entries, key).push((key, value));
    if placed.len() > limit {
        placed.skip(1)
    } else {
        placed
    }
}

/// `LruCache::new`: an empty store with the given limit.
#[verifier::external_body]
pub(crate) fn new_store(capacity: usize) -> (store: Store)
    ensures
        entries(store) == Seq::<Entry>::empty(),
        limit(store) == capacity,
{
    LruCache::new(capacity)
}

/// `LruCache::insert`: puts the payload under the key. An entry that the
/// key had is replaced and counts as used; a store that is then over its
/// limit drops the entry used longest ago.
#[verifier::external_body]
pub(crate) fn insert(store: &mut Store, key: Vec<u8>, value: Payload)
    ensures
        entries(*final(store)) == inserted(
            entries(*old(store)),
            limit(*old(store)),
            key@,
            value@,
        ),
        limit(*final(store)) == limit(*old(store)),
{
    store.insert(key, value);
}

/// `LruCache::get_mut`: looks the key up and hands back a copy of what is
/// found. An entry that is found counts as used.
#[verifier::external_body]
pub(crate) fn get(store: &mut Store, key: &[u8]) -> (found: Option<Payload>)
    ensures
        crate::message::payload_view(found) == lookup(entries(*old(store)), key@),
        entries(*final(store)) == refreshed(entries(*old(store)), key@),
        limit(*final(store)) == limit(*old(store)),
{
    store.get_mut(key).map(|p| p.clone())
}

/// `LruCache::len`: the number of entries.
#[verifier::external_body]
pub(crate) fn len(store: &Store) -> (n: usize)
    ensures
        n == entries(*store).len(),
{
    store.len()
}

} // verus!
