//! Bounded content cache with least-recently-used eviction.
//!
//! The cache maps a key to an immutable byte buffer that its readers share.
//! It never holds more than `MAX_LRU_CAPACITY` entries: storing a new key in
//! a full cache evicts the entry that was used least recently.

use crate::assoc::{distinct_keys, has_key, key_index, lemma_key_index, value_of};
use lru::LruCache;
use std::sync::Arc;
use vstd::prelude::*;

verus! {

/// Largest number of entries that the cache holds.
pub const MAX_LRU_CAPACITY: usize = 1000;

/// `lru::LruCache`, a map of bounded size that evicts the entry used least
/// recently. Nothing inside it is visible to the verifier.
#[verifier::external_type_specification]
#[verifier::external_body]
#[verifier::reject_recursive_types(K)]
#[verifier::reject_recursive_types(V)]
#[verifier::reject_recursive_types(S)]
pub struct ExLruCache<K, V, S>(LruCache<K, V, S>);

/// `lru::DefaultHasher`, the hasher that an `LruCache` uses unless it is
/// given another. Nothing inside it is visible to the verifier.
#[verifier::external_type_specification]
#[verifier::external_body]
pub struct ExDefaultHasher(lru::DefaultHasher);

/// The entries that a cache holds, each key with the bytes stored under it,
/// ordered by use: the entry used least recently comes first, the one used
/// most recently last.
pub uninterp spec fn cache_entries(cache: LruCache<String, Arc<Vec<u8>>>) -> Seq<
    (Seq<char>, Seq<u8>),
>;

/// The number of entries that a cache was made to hold.
pub uninterp spec fn cache_limit(cache: LruCache<String, Arc<Vec<u8>>>) -> nat;

/// The cache after a read of `key`: an entry that is present becomes the most
/// recently used one, anything else leaves the cache as it was.
pub open spec fn touched(entries: Seq<(Seq<char>, Seq<u8>)>, key: Seq<char>) -> Seq<
    (Seq<char>, Seq<u8>),
> {
    if has_key(entries, key) {
        entries.remove(key_index(entries, key)).push(entries[key_index(entries, key)])
    } else {
        entries
    }
}

/// The cache after `value` was stored under `key` with room for `limit`
/// entries. A key that is present takes the new value and becomes the most
/// recently used entry. A new key is added as the most recently used entry,
/// after the least recently used one has been evicted if the cache was full.
pub open spec fn stored(
    entries: Seq<(Seq<char>, Seq<u8>)>,
    limit: nat,
    key: Seq<char>,
    value: Seq<u8>,
) -> Seq<(Seq<char>, Seq<u8>)> {
    if has_key(entries, key) {
        entries.remove(key_index(entries, key)).push((key, value))
    } else if entries.len() == limit {
        entries.drop_first().push((key, value))
    } else {
        entries.push((key, value))
    }
}

/// The key that a store of `key` pushes out of the cache: the least recently
/// used one, if `key` is new and the cache is full.
pub open spec fn evicted_by(entries: Seq<(Seq<char>, Seq<u8>)>, limit: nat, key: Seq<char>) -> Option<
    Seq<char>,
> {
    if !has_key(entries, key) && entries.len() == limit && 0 < limit {
        Some(entries[0].0)
    } else {
        None
    }
}

/// The cache after the pairs of `items` were stored one after the other,
/// first to last.
pub open spec fn stored_all(
    entries: Seq<(Seq<char>, Seq<u8>)>,
    limit: nat,
    items: Seq<(Seq<char>, Seq<u8>)>,
) -> Seq<(Seq<char>, Seq<u8>)>
    decreases items.len(),
{
    if items.len() == 0 {
        entries
    } else {
        stored(
            stored_all(entries, limit, items.drop_last()),
            limit,
            items.last().0,
            items.last().1,
        )
    }
}

/// The last `limit` pairs of `entries`, or all of them if there are fewer.
pub open spec fn most_recent(entries: Seq<(Seq<char>, Seq<u8>)>, limit: nat) -> Seq<
    (Seq<char>, Seq<u8>),
> {
    if entries.len() <= limit {
        entries
    } else {
        entries.skip(entries.len() - limit)
    }
}

/// `LruCache::new`: an empty cache that holds at most `limit` entries.
#[verifier::external_body]
fn lru_new(limit: usize) -> (cache: LruCache<String, Arc<Vec<u8>>>)
    requires
        0 < limit <= 0x1_0000,
    ensures
        cache_entries(cache) == Seq::<(Seq<char>, Seq<u8>)>::empty(),
        cache_limit(cache) == limit,
{
    LruCache::new(std::num::NonZeroUsize::new(limit).unwrap())
}

/// `LruCache::get`: the buffer stored under `key`, if the cache holds it; the
/// entry that was read becomes the most recently used one. The handle that
/// is returned shares the stored buffer.
#[verifier::external_body]
fn lru_get(cache: &mut LruCache<String, Arc<Vec<u8>>>, key: &str) -> (found: Option<Arc<Vec<u8>>>)
    ensures
        cache_limit(*final(cache)) == cache_limit(*old(cache)),
        cache_entries(*final(cache)) == touched(cache_entries(*old(cache)), key@),
        match found {
            Some(bytes) => value_of(cache_entries(*old(cache)), key@) == Some(bytes@),
            None => !has_key(cache_entries(*old(cache)), key@),
        },
{
    cache.get(key).cloned()
}

/// `LruCache::put`: stores `value` under `key` as the most recently used
/// entry. A key that is present has its value replaced, and the old value is
/// returned; for a new key the least recently used entry is evicted first if
/// the cache is full.
#[verifier::external_body]
fn lru_put(cache: &mut LruCache<String, Arc<Vec<u8>>>, key: String, value: Arc<Vec<u8>>) -> (replaced:
    Option<Arc<Vec<u8>>>)
    ensures
        cache_limit(*final(cache)) == cache_limit(*old(cache)),
        cache_entries(*final(cache)) == stored(
            cache_entries(*old(cache)),
            cache_limit(*old(cache)),
            key@,
            value@,
        ),
        match replaced {
            Some(bytes) => value_of(cache_entries(*old(cache)), key@) == Some(bytes@),
            None => !has_key(cache_entries(*old(cache)), key@),
        },
{
    cache.put(key, value)
}

/// `LruCache::iter`, walked backwards: the keys from the least recently used
/// entry to the most recently used one, each copied into the listing.
#[verifier::external_body]
fn lru_keys(cache: &LruCache<String, Arc<Vec<u8>>>) -> (keys: Vec<String>)
    ensures
        keys@.len() == cache_entries(*cache).len(),
        forall|i: int| 0 <= i < keys@.len() ==> (#[trigger] keys@[i])@ == cache_entries(*cache)[i].0,
{
    cache.iter().rev().map(|(key, _)| key.clone()).collect()
}

/// `Arc::clone`: a second handle to the same buffer.
#[verifier::external_body]
fn share(buffer: &Arc<Vec<u8>>) -> (handle: Arc<Vec<u8>>)
    ensures
        handle == *buffer,
{
    Arc::clone(buffer)
}

/// The content cache. Its view lists the keys with the bytes stored under
/// them, from the least recently used entry to the most recently used one.
pub struct ContentCache {
    store: LruCache<String, Arc<Vec<u8>>>,
}

impl View for ContentCache {
    type V = Seq<(Seq<char>, Seq<u8>)>;

    closed spec fn view(&self) -> Seq<(Seq<char>, Seq<u8>)> {
        cache_entries(self.store)
    }
}

impl ContentCache {
    /// The number of entries that the cache was made to hold.
    pub closed spec fn capacity(&self) -> nat {
        cache_limit(self.store)
    }

    /// No key is cached twice, and the cache holds at most `MAX_LRU_CAPACITY`
    /// entries.
    pub open spec fn wf(&self) -> bool {
        &&& distinct_keys(self@)
        &&& self@.len() <= self.capacity()
        &&& self.capacity() == MAX_LRU_CAPACITY
    }

    /// An empty cache with room for `MAX_LRU_CAPACITY` entries.
    pub fn new() -> (cache: Self)
        ensures
            cache.wf(),
            cache@ == Seq::<(Seq<char>, Seq<u8>)>::empty(),
    {
        ContentCache { store: lru_new(MAX_LRU_CAPACITY) }
    }

    /// Reads the buffer cached under `key`. A hit makes the entry the most
    /// recently used one and returns a handle that shares its buffer; a miss
    /// leaves the cache as it was.
    pub fn get(&mut self, key: &str) -> (found: Option<Arc<Vec<u8>>>)
        requires
            old(self).wf(),
        ensures
            final(self).wf(),
            final(self)@ == touched(old(self)@, key@),
            match found {
                Some(bytes) => value_of(old(self)@, key@) == Some(bytes@),
                None => !has_key(old(self)@, key@) && final(self)@ == old(self)@,
            },
    {
        proof {
            lemma_touched(self@, key@);
        }
        lru_get(&mut self.store, key)
    }

    /// Caches `value` under `key` as the most recently used entry. A key that
    /// is already cached takes the new value; a new key evicts the least
    /// recently used entry if the cache is full.
    pub fn put(&mut self, key: &str, value: Arc<Vec<u8>>)
        requires
            old(self).wf(),
        ensures
            final(self).wf(),
            final(self)@ == stored(old(self)@, MAX_LRU_CAPACITY as nat, key@, value@),
            value_of(final(self)@, key@) == Some(value@),
    {
        proof {
            lemma_stored(self@, MAX_LRU_CAPACITY as nat, key@, value@);
        }
        let _ = lru_put(&mut self.store, key.to_owned(), value);
    }

    /// Caches the bytes that were loaded for `key` after a miss, and returns
    /// a handle that shares the cached buffer.
    pub fn insert_loaded(&mut self, key: &str, bytes: Vec<u8>) -> (handle: Arc<Vec<u8>>)
        requires
            old(self).wf(),
        ensures
            final(self).wf(),
            handle@ == bytes@,
            final(self)@ == stored(old(self)@, MAX_LRU_CAPACITY as nat, key@, bytes@),
            value_of(final(self)@, key@) == Some(bytes@),
    {
        let buffer = Arc::new(bytes);
        self.put(key, share(&buffer));
        buffer
    }

    /// The cached keys, from the least recently used to the most recently
    /// used.
    pub fn keys(&self) -> (keys: Vec<String>)
        ensures
            keys@.len() == self@.len(),
            forall|i: int| 0 <= i < keys@.len() ==> (#[trigger] keys@[i])@ == self@[i].0,
    {
        lru_keys(&self.store)
    }
}

/// A read keeps the keys distinct and every key with its value; the entry
/// that was read, if any, ends up as the most recently used one.
pub proof fn lemma_touched(entries: Seq<(Seq<char>, Seq<u8>)>, key: Seq<char>)
    requires
        distinct_keys(entries),
    ensures
        distinct_keys(touched(entries, key)),
        touched(entries, key).len() == entries.len(),
        forall|other: Seq<char>| value_of(touched(entries, key), other) == value_of(entries, other),
        has_key(entries, key) ==> touched(entries, key).last().0 == key,
{
    let next = touched(entries, key);
    if has_key(entries, key) {
        let k = key_index(entries, key);
        let source = |i: int|
            if i == next.len() - 1 {
                k
            } else if i < k {
                i
            } else {
                i + 1
            };
        assert forall|i: int| 0 <= i < next.len() implies (#[trigger] next[i]) == entries[source(
            i,
        )] by {}
        assert forall|i: int, j: int| 0 <= i < j < next.len() implies (#[trigger] next[i]).0 != (
        #[trigger] next[j]).0 by {
            let ii = source(i);
            let jj = source(j);
            if ii < jj {
                assert(entries[ii].0 != entries[jj].0);
            } else {
                assert(entries[jj].0 != entries[ii].0);
            }
        }
        assert forall|other: Seq<char>| value_of(next, other) == value_of(entries, other) by {
            if has_key(entries, other) {
                let i = key_index(entries, other);
                let ii = if i == k {
                    next.len() - 1
                } else if i < k {
                    i
                } else {
                    i - 1
                };
                assert(next[ii] == entries[i]);
                lemma_key_index(next, other, ii);
                lemma_key_index(entries, other, i);
            }
            if has_key(next, other) {
                let i = key_index(next, other);
                assert(next[i] == entries[source(i)]);
                lemma_key_index(entries, other, source(i));
                lemma_key_index(next, other, i);
            }
        }
    }
}

/// A store keeps the keys distinct and the cache within its limit, leaves the
/// stored pair as the most recently used entry, and evicts at most the least
/// recently used entry.
pub proof fn lemma_stored(
    entries: Seq<(Seq<char>, Seq<u8>)>,
    limit: nat,
    key: Seq<char>,
    value: Seq<u8>,
)
    requires
        distinct_keys(entries),
        entries.len() <= limit,
        0 < limit,
    ensures
        distinct_keys(stored(entries, limit, key, value)),
        stored(entries, limit, key, value).len() <= limit,
        stored(entries, limit, key, value).len() >= entries.len(),
        stored(entries, limit, key, value).last() == (key, value),
        value_of(stored(entries, limit, key, value), key) == Some(value),
        forall|other: Seq<char>|
            other != key && evicted_by(entries, limit, key) != Some(other) ==> value_of(
                stored(entries, limit, key, value),
                other,
            ) == value_of(entries, other),
        evicted_by(entries, limit, key) matches Some(evicted) ==> !has_key(
            stored(entries, limit, key, value),
            evicted,
        ),
{
    let next = stored(entries, limit, key, value);
    let last = next.len() - 1;
    // Where each pair of `next` but the last one stood in `entries`.
    let shift = if has_key(entries, key) {
        key_index(entries, key)
    } else if entries.len() == limit {
        0
    } else {
        entries.len() as int
    };
    let source = |i: int|
        if i < shift {
            i
        } else {
            i + 1
        };
    assert(next[last] == (key, value));
    assert forall|i: int| 0 <= i < last implies (#[trigger] next[i]) == entries[source(i)] by {}
    assert forall|i: int| 0 <= i < last implies (#[trigger] next[i]).0 != key by {
        if has_key(entries, key) {
            let k = key_index(entries, key);
            if source(i) < k {
                assert(entries[source(i)].0 != entries[k].0);
            } else {
                assert(entries[k].0 != entries[source(i)].0);
            }
        } else {
            assert(entries[source(i)].0 != key);
        }
    }
    assert forall|i: int, j: int| 0 <= i < j < next.len() implies (#[trigger] next[i]).0 != (
    #[trigger] next[j]).0 by {
        if j < last {
            assert(entries[source(i)].0 != entries[source(j)].0);
        }
    }
    lemma_key_index(next, key, last);
    assert forall|other: Seq<char>|
        other != key && evicted_by(entries, limit, key) != Some(other) implies value_of(
            next,
            other,
        ) == value_of(entries, other) by {
        if has_key(entries, other) {
            let i = key_index(entries, other);
            let ii = if i < shift {
                i
            } else {
                i - 1
            };
            if has_key(entries, key) {
                assert(i != key_index(entries, key));
            } else if entries.len() == limit {
                lemma_key_index(entries, entries[0].0, 0);
                assert(i != 0);
            }
            assert(next[ii] == entries[i]);
            lemma_key_index(next, other, ii);
            lemma_key_index(entries, other, i);
        }
        if has_key(next, other) {
            let i = key_index(next, other);
            assert(i != last);
            assert(next[i] == entries[source(i)]);
            lemma_key_index(entries, other, source(i));
            lemma_key_index(next, other, i);
        }
    }
    if !has_key(entries, key) && entries.len() == limit {
        if has_key(next, entries[0].0) {
            let i = key_index(next, entries[0].0);
            if i < last {
                assert(next[i] == entries[i + 1]);
                assert(entries[0].0 != entries[i + 1].0);
            }
        }
    }
}

/// Storing new keys, all different, leaves the most recent pairs: the cache
/// then holds the last `limit` pairs of the old entries followed by the new
/// ones, in that order.
pub proof fn lemma_stored_all_new(
    entries: Seq<(Seq<char>, Seq<u8>)>,
    limit: nat,
    items: Seq<(Seq<char>, Seq<u8>)>,
)
    requires
        distinct_keys(entries + items),
        entries.len() <= limit,
        0 < limit,
    ensures
        stored_all(entries, limit, items) == most_recent(entries + items, limit),
    decreases items.len(),
{
    let all = entries + items;
    if items.len() == 0 {
        assert(all == entries);
    } else {
        let head = items.drop_last();
        let before = entries + head;
        assert(before == all.drop_last());
        assert forall|i: int, j: int| 0 <= i < j < before.len() implies (#[trigger] before[i]).0
            != (#[trigger] before[j]).0 by {
            assert(before[i] == all[i] && before[j] == all[j]);
        }
        lemma_stored_all_new(entries, limit, head);
        let kept = most_recent(before, limit);
        let gap = before.len() - kept.len();
        assert forall|i: int| 0 <= i < kept.len() implies (#[trigger] kept[i]) == all[i + gap] by {}
        if has_key(kept, items.last().0) {
            let i = key_index(kept, items.last().0);
            assert(all[i + gap].0 != all[all.len() - 1].0);
        }
        assert(stored(kept, limit, items.last().0, items.last().1) == most_recent(all, limit));
    }
}

/// Eviction: storing `limit + 1` different keys in an empty cache leaves
/// exactly `limit` entries. The key stored first, which is the one used least
/// recently, is the one that is gone; every later key is cached with its value.
pub proof fn law_eviction(limit: nat, items: Seq<(Seq<char>, Seq<u8>)>)
    requires
        0 < limit,
        distinct_keys(items),
        items.len() == limit + 1,
    ensures
        stored_all(Seq::empty(), limit, items).len() == limit,
        !has_key(stored_all(Seq::empty(), limit, items), items[0].0),
        forall|i: int|
            1 <= i < items.len() ==> value_of(
                stored_all(Seq::empty(), limit, items),
                (#[trigger] items[i]).0,
            ) == Some(items[i].1),
{
    let empty = Seq::<(Seq<char>, Seq<u8>)>::empty();
    assert(empty + items == items);
    lemma_stored_all_new(empty, limit, items);
    let kept = stored_all(empty, limit, items);
    assert(kept == items.skip(1));
    assert forall|i: int, j: int| 0 <= i < j < kept.len() implies (#[trigger] kept[i]).0 != (
    #[trigger] kept[j]).0 by {
        assert(kept[i] == items[i + 1] && kept[j] == items[j + 1]);
    }
    if has_key(kept, items[0].0) {
        let i = key_index(kept, items[0].0);
        assert(kept[i] == items[i + 1]);
        assert(items[0].0 != items[i + 1].0);
    }
    assert forall|i: int| 1 <= i < items.len() implies value_of(kept, (#[trigger] items[i]).0)
        == Some(items[i].1) by {
        assert(kept[i - 1] == items[i]);
        lemma_key_index(kept, items[i].0, i - 1);
    }
}

/// Promotion: in a cache whose least recently used key is read, that key
/// takes the place of the most recently used one. When new keys, all
/// different and fewer than `limit`, are then stored and the cache overflows,
/// the key that was read is still cached with its value, and the key that
/// was second in line for eviction is gone.
pub proof fn law_promotion(
    entries: Seq<(Seq<char>, Seq<u8>)>,
    limit: nat,
    items: Seq<(Seq<char>, Seq<u8>)>,
)
    requires
        distinct_keys(entries + items),
        2 <= entries.len() <= limit,
        items.len() < limit,
        entries.len() + items.len() > limit,
    ensures
        value_of(
            stored_all(touched(entries, entries[0].0), limit, items),
            entries[0].0,
        ) == Some(entries[0].1),
        !has_key(stored_all(touched(entries, entries[0].0), limit, items), entries[1].0),
{
    let all = entries + items;
    assert forall|i: int, j: int| 0 <= i < j < entries.len() implies (#[trigger] entries[i]).0
        != (#[trigger] entries[j]).0 by {
        assert(entries[i] == all[i] && entries[j] == all[j]);
    }
    lemma_key_index(entries, entries[0].0, 0);
    let read = touched(entries, entries[0].0);
    let n = entries.len() as int;
    assert forall|i: int| 0 <= i < n implies (#[trigger] read[i]) == entries[if i == n - 1 {
        0
    } else {
        i + 1
    }] by {}
    let after = read + items;
    // `after` lists the pairs of `all` in another order, so its keys are distinct too.
    let source = |i: int|
        if i == n - 1 {
            0
        } else if i < n {
            i + 1
        } else {
            i
        };
    assert forall|i: int| 0 <= i < after.len() implies (#[trigger] after[i]) == all[source(i)] by {}
    assert forall|i: int, j: int| 0 <= i < j < after.len() implies (#[trigger] after[i]).0 != (
    #[trigger] after[j]).0 by {
        if source(i) < source(j) {
            assert(all[source(i)].0 != all[source(j)].0);
        } else {
            assert(all[source(j)].0 != all[source(i)].0);
        }
    }
    lemma_stored_all_new(read, limit, items);
    let kept = stored_all(read, limit, items);
    let gap = after.len() - limit;
    assert(kept == after.skip(gap));
    assert forall|i: int| 0 <= i < kept.len() implies (#[trigger] kept[i]) == after[i + gap] by {}
    assert forall|i: int, j: int| 0 <= i < j < kept.len() implies (#[trigger] kept[i]).0 != (
    #[trigger] kept[j]).0 by {
        assert(after[i + gap].0 != after[j + gap].0);
    }
    assert(kept[n - 1 - gap] == entries[0]);
    lemma_key_index(kept, entries[0].0, n - 1 - gap);
    if has_key(kept, entries[1].0) {
        let i = key_index(kept, entries[1].0);
        assert(after[0] == entries[1]);
        assert(after[0].0 != after[i + gap].0);
    }
}

} // verus!
