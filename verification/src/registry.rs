//! Time-stamped registry of single-use tokens, kept in insertion order.
//!
//! A token is issued with the time of its insertion, may be consumed once, and
//! is dropped by pruning once it is `STATE_TIMEOUT` seconds old.

use crate::assoc::{
    distinct_keys, has_key, key_index, lemma_key_index, lemma_without_key, value_of, without_key,
};
use indexmap::IndexMap;
use vstd::prelude::*;

verus! {

/// Age, in seconds, from which a token counts as expired.
pub const STATE_TIMEOUT: u64 = 60;

/// `indexmap::IndexMap`, a hash map that keeps its pairs in insertion order.
/// Nothing inside it is visible to the verifier.
#[verifier::external_type_specification]
#[verifier::external_body]
#[verifier::reject_recursive_types(K)]
#[verifier::reject_recursive_types(V)]
#[verifier::reject_recursive_types(S)]
pub struct ExIndexMap<K, V, S>(IndexMap<K, V, S>);

/// The tokens that an index map holds, each with its time stamp, in the map's
/// own order: the pair inserted first comes first.
pub uninterp spec fn token_entries(map: IndexMap<String, u64>) -> Seq<(Seq<char>, u64)>;

/// A token inserted at `inserted_at` has reached the age limit at time `now`.
pub open spec fn token_expired(now: u64, inserted_at: u64) -> bool {
    now - inserted_at >= STATE_TIMEOUT
}

/// The registry after `token` was issued at time `now`: a token already known
/// keeps its place and takes the new time stamp, a new one goes to the end.
pub open spec fn issued(entries: Seq<(Seq<char>, u64)>, token: Seq<char>, now: u64) -> Seq<
    (Seq<char>, u64),
> {
    if has_key(entries, token) {
        entries.update(key_index(entries, token), (token, now))
    } else {
        entries.push((token, now))
    }
}

/// The registry after pruning at time `now`: the tokens that have not expired,
/// in their old order.
pub open spec fn pruned(entries: Seq<(Seq<char>, u64)>, now: u64) -> Seq<(Seq<char>, u64)> {
    entries.filter(|entry: (Seq<char>, u64)| !token_expired(now, entry.1))
}

/// `listing` shows the pairs of `entries`, one for one and in the same order.
pub open spec fn lists(listing: Seq<(String, u64)>, entries: Seq<(Seq<char>, u64)>) -> bool {
    &&& listing.len() == entries.len()
    &&& forall|i: int|
        0 <= i < listing.len() ==> (#[trigger] listing[i]).0@ == entries[i].0 && listing[i].1
            == entries[i].1
}

/// `IndexMap::new`: a map without entries.
#[verifier::external_body]
fn map_new() -> (map: IndexMap<String, u64>)
    ensures
        token_entries(map) == Seq::<(Seq<char>, u64)>::empty(),
{
    IndexMap::new()
}

/// `IndexMap::get`: the time stamp stored for `token`, if the map holds it.
/// The map is left as it was.
#[verifier::external_body]
fn map_get(map: &IndexMap<String, u64>, token: &str) -> (found: Option<u64>)
    ensures
        found == value_of(token_entries(*map), token@),
{
    map.get(token).copied()
}

/// `IndexMap::insert`: a key already in the map keeps its place and takes the
/// new value; a new key is appended, last in order. Returns the value that
/// was replaced.
#[verifier::external_body]
fn map_insert(map: &mut IndexMap<String, u64>, token: String, now: u64) -> (replaced: Option<u64>)
    ensures
        replaced == value_of(token_entries(*old(map)), token@),
        token_entries(*final(map)) == issued(token_entries(*old(map)), token@, now),
{
    map.insert(token, now)
}

/// `IndexMap::shift_remove`: takes the pair of `token` out and shifts the
/// pairs behind it forward, so that the others keep their relative order.
/// Returns the value that was removed; a map without the key is unchanged.
#[verifier::external_body]
fn map_shift_remove(map: &mut IndexMap<String, u64>, token: &str) -> (removed: Option<u64>)
    ensures
        removed == value_of(token_entries(*old(map)), token@),
        token_entries(*final(map)) == without_key(token_entries(*old(map)), token@),
{
    map.shift_remove(token)
}

/// `IndexMap::retain` with `is_live` as the test: visits the pairs in order
/// and keeps those whose time stamp has not expired at `now`; the pairs that
/// stay keep their order.
#[verifier::external_body]
fn map_retain_live(map: &mut IndexMap<String, u64>, now: u64)
    ensures
        token_entries(*final(map)) == pruned(token_entries(*old(map)), now),
{
    map.retain(|_, inserted_at| is_live(now, *inserted_at))
}

/// `IndexMap::iter`: walks the pairs in the map's order; each pair is copied
/// into the listing that is returned.
#[verifier::external_body]
fn map_listing(map: &IndexMap<String, u64>) -> (listing: Vec<(String, u64)>)
    ensures
        lists(listing@, token_entries(*map)),
{
    map.iter().map(|(token, inserted_at)| (token.clone(), *inserted_at)).collect()
}

/// Whether a token inserted at `inserted_at` is still valid at time `now`.
/// A time stamp that lies after `now` has no age yet and counts as valid.
pub fn is_live(now: u64, inserted_at: u64) -> (live: bool)
    ensures
        live == !token_expired(now, inserted_at),
{
    now < inserted_at || now - inserted_at < STATE_TIMEOUT
}

/// The registry of issued tokens. Its view lists the tokens with their time
/// stamps in insertion order.
pub struct TokenRegistry {
    entries: IndexMap<String, u64>,
}

impl View for TokenRegistry {
    type V = Seq<(Seq<char>, u64)>;

    closed spec fn view(&self) -> Seq<(Seq<char>, u64)> {
        token_entries(self.entries)
    }
}

impl TokenRegistry {
    /// No token is registered twice.
    pub open spec fn wf(&self) -> bool {
        distinct_keys(self@)
    }

    /// An empty registry.
    pub fn new() -> (registry: Self)
        ensures
            registry.wf(),
            registry@ == Seq::<(Seq<char>, u64)>::empty(),
    {
        TokenRegistry { entries: map_new() }
    }

    /// Issues `token` at time `now`. A token that is already registered keeps
    /// its place in the order and is stamped anew.
    pub fn add(&mut self, token: &str, now: u64)
        requires
            old(self).wf(),
        ensures
            final(self).wf(),
            final(self)@ == issued(old(self)@, token@, now),
            value_of(final(self)@, token@) == Some(now),
    {
        proof {
            lemma_issued(self@, token@, now);
        }
        let _ = map_insert(&mut self.entries, token.to_owned(), now);
    }

    /// Consumes `token`: tells whether it was registered, and removes it, so
    /// that a second check of the same token fails.
    pub fn check(&mut self, token: &str) -> (present: bool)
        requires
            old(self).wf(),
        ensures
            final(self).wf(),
            present == has_key(old(self)@, token@),
            final(self)@ == without_key(old(self)@, token@),
            !has_key(final(self)@, token@),
    {
        proof {
            lemma_without_key(self@, token@);
        }
        if map_get(&self.entries, token).is_some() {
            let _ = map_shift_remove(&mut self.entries, token);
            true
        } else {
            false
        }
    }

    /// Tells whether `token` is registered, without consuming it.
    pub fn contains(&self, token: &str) -> (present: bool)
        ensures
            present == has_key(self@, token@),
    {
        map_get(&self.entries, token).is_some()
    }

    /// Removes every token that has expired at time `now`; the others keep
    /// their order.
    pub fn prune(&mut self, now: u64)
        requires
            old(self).wf(),
        ensures
            final(self).wf(),
            final(self)@ == pruned(old(self)@, now),
    {
        proof {
            lemma_pruned_distinct(self@, now);
        }
        map_retain_live(&mut self.entries, now);
    }

    /// The registered tokens with their time stamps, in insertion order.
    pub fn entries(&self) -> (listing: Vec<(String, u64)>)
        ensures
            lists(listing@, self@),
    {
        map_listing(&self.entries)
    }
}

/// Issuing a token keeps the tokens distinct, stores the new time stamp under
/// it, and leaves every other token as it was.
pub proof fn lemma_issued(entries: Seq<(Seq<char>, u64)>, token: Seq<char>, now: u64)
    requires
        distinct_keys(entries),
    ensures
        distinct_keys(issued(entries, token, now)),
        value_of(issued(entries, token, now), token) == Some(now),
        forall|other: Seq<char>|
            other != token ==> value_of(issued(entries, token, now), other) == value_of(
                entries,
                other,
            ),
{
    let next = issued(entries, token, now);
    let at = if has_key(entries, token) {
        key_index(entries, token)
    } else {
        entries.len() as int
    };
    assert forall|i: int| 0 <= i < next.len() && i != at implies (#[trigger] next[i])
        == entries[i] by {}
    assert(next[at] == (token, now));
    assert forall|i: int, j: int| 0 <= i < j < next.len() implies (#[trigger] next[i]).0 != (
    #[trigger] next[j]).0 by {
        if has_key(entries, token) {
            assert(next[i].0 == entries[i].0 && next[j].0 == entries[j].0);
        } else if j == at {
            assert(next[i] == entries[i]);
        }
    }
    lemma_key_index(next, token, at);
    assert forall|other: Seq<char>| other != token implies value_of(next, other) == value_of(
        entries,
        other,
    ) by {
        if has_key(entries, other) {
            let i = key_index(entries, other);
            assert(next[i] == entries[i]);
            lemma_key_index(next, other, i);
        }
        if has_key(next, other) {
            let i = key_index(next, other);
            assert(next[i] == entries[i]);
            lemma_key_index(entries, other, i);
        }
    }
}

/// Pruning keeps the tokens distinct.
pub proof fn lemma_pruned_distinct(entries: Seq<(Seq<char>, u64)>, now: u64)
    requires
        distinct_keys(entries),
    ensures
        distinct_keys(pruned(entries, now)),
    decreases entries.len(),
{
    reveal(Seq::filter);
    let live = |entry: (Seq<char>, u64)| !token_expired(now, entry.1);
    if entries.len() > 0 {
        let head = entries.drop_last();
        assert forall|i: int, j: int| 0 <= i < j < head.len() implies (#[trigger] head[i]).0 != (
        #[trigger] head[j]).0 by {
            assert(head[i] == entries[i] && head[j] == entries[j]);
        }
        lemma_pruned_distinct(head, now);
        let kept = pruned(head, now);
        let all = pruned(entries, now);
        if live(entries.last()) {
            assert(all == kept.push(entries.last()));
            assert forall|i: int, j: int| 0 <= i < j < all.len() implies (#[trigger] all[i]).0 != (
            #[trigger] all[j]).0 by {
                if j == kept.len() {
                    assert(kept.contains(kept[i]));
                    head.lemma_filter_contains_rev(live, kept[i]);
                    let m = choose|m: int| 0 <= m < head.len() && head[m] == kept[i];
                    assert(entries[m] == head[m]);
                    assert(entries[m].0 != entries[entries.len() - 1].0);
                } else {
                    assert(all[i] == kept[i] && all[j] == kept[j]);
                }
            }
        } else {
            assert(all == kept);
        }
    }
}

/// What pruning does to one token: it stays, with its time stamp, exactly if
/// it has not expired.
pub proof fn lemma_pruned_value(entries: Seq<(Seq<char>, u64)>, now: u64, token: Seq<char>)
    requires
        distinct_keys(entries),
    ensures
        value_of(pruned(entries, now), token) == match value_of(entries, token) {
            Some(inserted_at) => if token_expired(now, inserted_at) {
                None
            } else {
                Some(inserted_at)
            },
            None => None,
        },
{
    let live = |entry: (Seq<char>, u64)| !token_expired(now, entry.1);
    let kept = pruned(entries, now);
    lemma_pruned_distinct(entries, now);
    if has_key(kept, token) {
        let k = key_index(kept, token);
        assert(kept.contains(kept[k]));
        entries.lemma_filter_contains_rev(live, kept[k]);
        let m = choose|m: int| 0 <= m < entries.len() && entries[m] == kept[k];
        lemma_key_index(entries, token, m);
        entries.lemma_filter_pred(live, k);
    }
    if has_key(entries, token) {
        let m = key_index(entries, token);
        if live(entries[m]) {
            entries.lemma_filter_contains(live, m);
            let k = choose|k: int| 0 <= k < kept.len() && kept[k] == entries[m];
            lemma_key_index(kept, token, k);
        }
    }
}

/// Consume-once: a token that was just issued is found by the next check, and
/// that check removes it, so that a second check finds nothing.
pub proof fn law_consume_once(entries: Seq<(Seq<char>, u64)>, token: Seq<char>, now: u64)
    requires
        distinct_keys(entries),
    ensures
        has_key(issued(entries, token, now), token),
        !has_key(without_key(issued(entries, token, now), token), token),
{
    lemma_issued(entries, token, now);
    lemma_without_key(issued(entries, token, now), token);
}

/// Expiry: a token issued at `issued_at` is removed by a pruning at any time
/// from `issued_at + STATE_TIMEOUT` on, and survives, with its time stamp, a
/// pruning at any earlier time.
pub proof fn law_expiry(
    entries: Seq<(Seq<char>, u64)>,
    token: Seq<char>,
    issued_at: u64,
    now: u64,
)
    requires
        distinct_keys(entries),
    ensures
        now >= issued_at + STATE_TIMEOUT ==> !has_key(
            pruned(issued(entries, token, issued_at), now),
            token,
        ),
        now < issued_at + STATE_TIMEOUT ==> value_of(
            pruned(issued(entries, token, issued_at), now),
            token,
        ) == Some(issued_at),
{
    lemma_issued(entries, token, issued_at);
    lemma_pruned_value(issued(entries, token, issued_at), now, token);
}

} // verus!
