//! The per-key state a writer keeps, in a bounded map whose oldest entry is evicted first.
use vstd::prelude::*;
use linked_hash_map::LinkedHashMap;
use crate::keypath::Watermark;
use crate::{KeyMetadata, StoreError};

verus! {

#[verifier::external_type_specification]
#[verifier::external_body]
#[verifier::reject_recursive_types(K)]
#[verifier::reject_recursive_types(V)]
#[verifier::reject_recursive_types(S)]
pub struct ExLinkedHashMap<K, V, S>(LinkedHashMap<K, V, S>);

/// A loader of the state of keys that the cache does not hold.
pub trait CacheFetcher<K> {
    fn load_key(&self, keyspace: &str, key: &str) -> Result<K, StoreError>;
}

/// The state a writer keeps of one key.
#[derive(Clone, Copy, Debug, PartialEq, Eq, Structural)]
pub struct CachedKey {
    pub metadata: KeyMetadata,
    pub uncompacted_objects: u64,
    pub uncompacted_records: u64,
    pub uncompacted_size: u64,
    pub prior_start_offset: u64,
    pub watermark: Watermark,
}

/// A key of the cache: keyspace and key.
pub type KeyName = (Seq<char>, Seq<char>);

/// The entries of a cache map, oldest first.
pub uninterp spec fn cached_entries(m: LinkedHashMap<(String, String), CachedKey>) -> Seq<(KeyName, CachedKey)>;

/// The entries without the one of key `k`.
pub open spec fn without_key<V>(e: Seq<(KeyName, V)>, k: KeyName) -> Seq<(KeyName, V)> {
    e.filter(|x: (KeyName, V)| x.0 != k)
}

/// Whether an entry has key `k`.
pub open spec fn has_key<V>(e: Seq<(KeyName, V)>, k: KeyName) -> bool {
    exists|i: int| 0 <= i < e.len() && #[trigger] e[i].0 == k
}

/// The value of key `k`, where an entry has it.
pub open spec fn lookup<V>(e: Seq<(KeyName, V)>, k: KeyName) -> Option<V> {
    if has_key(e, k) {
        Some(e[choose|i: int| 0 <= i < e.len() && #[trigger] e[i].0 == k].1)
    } else {
        None
    }
}

/// Relies on `LinkedHashMap::new`: an empty map.
#[verifier::external_body]
fn cache_map_new() -> (r: LinkedHashMap<(String, String), CachedKey>)
    ensures
        cached_entries(r) == Seq::<(KeyName, CachedKey)>::empty(),
{
    LinkedHashMap::new()
}

/// Relies on `LinkedHashMap::get`: the value of the key, which keeps its place.
#[verifier::external_body]
fn cache_map_get(m: &LinkedHashMap<(String, String), CachedKey>, keyspace: &str, key: &str) -> (r:
    Option<CachedKey>)
    ensures
        r == lookup(cached_entries(*m), (keyspace@, key@)),
{
    m.get(&(keyspace.to_string(), key.to_string())).copied()
}

/// Relies on `LinkedHashMap::insert`: a new key goes last; an existing key takes the new
/// value and moves last. Returns whether the key was there.
#[verifier::external_body]
fn cache_map_insert(
    m: &mut LinkedHashMap<(String, String), CachedKey>,
    keyspace: &str,
    key: &str,
    value: CachedKey,
) -> (r: bool)
    ensures
        r == has_key(cached_entries(*old(m)), (keyspace@, key@)),
        cached_entries(*final(m)) == without_key(cached_entries(*old(m)), (keyspace@, key@)).push(
            ((keyspace@, key@), value),
        ),
{
    m.insert((keyspace.to_string(), key.to_string()), value).is_some()
}

/// Relies on `LinkedHashMap::len`: the number of entries.
#[verifier::external_body]
fn cache_map_len(m: &LinkedHashMap<(String, String), CachedKey>) -> (r: usize)
    ensures
        r == cached_entries(*m).len(),
{
    m.len()
}

/// Relies on `LinkedHashMap::pop_front`: the oldest entry leaves.
#[verifier::external_body]
fn cache_map_pop_front(m: &mut LinkedHashMap<(String, String), CachedKey>)
    ensures
        cached_entries(*old(m)).len() > 0 ==> cached_entries(*final(m)) == cached_entries(
            *old(m),
        ).drop_first(),
        cached_entries(*old(m)).len() == 0 ==> cached_entries(*final(m)) == cached_entries(*old(m)),
{
    m.pop_front();
}

/// The entries after `k` is set to `v` in a cache bounded by `max`: the key goes last,
/// then, where the key is new, the oldest entry leaves if the cache holds more than `max`
/// and more than one.
pub open spec fn entries_after_set(
    e: Seq<(KeyName, CachedKey)>,
    k: KeyName,
    v: CachedKey,
    max: nat,
) -> Seq<(KeyName, CachedKey)> {
    let put = without_key(e, k).push((k, v));
    if !has_key(e, k) && put.len() > max && put.len() > 1 {
        put.drop_first()
    } else {
        put
    }
}

/// The cache of per-key writer state.
pub struct StoreCache {
    max_cached_keys: usize,
    keys: LinkedHashMap<(String, String), CachedKey>,
}

impl StoreCache {
    /// The entries of the cache, oldest first.
    pub closed spec fn entries(&self) -> Seq<(KeyName, CachedKey)> {
        cached_entries(self.keys)
    }

    /// The bound the cache was made with.
    pub closed spec fn capacity(&self) -> nat {
        self.max_cached_keys as nat
    }

    /// An empty cache that holds about `max_cached_keys` keys.
    pub fn new(max_cached_keys: usize) -> (r: Self)
        ensures
            r.entries() == Seq::<(KeyName, CachedKey)>::empty(),
            r.capacity() == max_cached_keys,
    {
        StoreCache { max_cached_keys, keys: cache_map_new() }
    }

    /// The cached state of a key.
    pub fn get_key(&self, keyspace: &str, key: &str) -> (r: Option<CachedKey>)
        ensures
            r == lookup(self.entries(), (keyspace@, key@)),
    {
        cache_map_get(&self.keys, keyspace, key)
    }

    /// The cached state of a key, or `loaded` where the cache held none, which is then
    /// cached.
    pub fn get_or_insert_key(&mut self, keyspace: &str, key: &str, loaded: CachedKey) -> (r: CachedKey)
        ensures
            final(self).capacity() == old(self).capacity(),
            lookup(old(self).entries(), (keyspace@, key@)) matches Some(v) ==> r == v
                && final(self).entries() == old(self).entries(),
            lookup(old(self).entries(), (keyspace@, key@)) is None ==> r == loaded
                && final(self).entries() == entries_after_set(
                old(self).entries(),
                (keyspace@, key@),
                loaded,
                old(self).capacity(),
            ),
    {
        match cache_map_get(&self.keys, keyspace, key) {
            Some(v) => v,
            None => {
                self.set_key(keyspace, key, loaded);
                loaded
            },
        }
    }

    /// Caches the state of a key; the key becomes the newest entry.
    pub fn set_key(&mut self, keyspace: &str, key: &str, value: CachedKey)
        ensures
            final(self).capacity() == old(self).capacity(),
            final(self).entries() == entries_after_set(
                old(self).entries(),
                (keyspace@, key@),
                value,
                old(self).capacity(),
            ),
    {
        let existed = cache_map_insert(&mut self.keys, keyspace, key, value);
        let n = cache_map_len(&self.keys);
        if !existed && n > self.max_cached_keys && n > 1 {
            cache_map_pop_front(&mut self.keys);
        }
    }
}

} // verus!
