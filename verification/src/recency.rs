//! The recency index of the asset cache, kept in an `lru::LruCache`.
//!
//! The index maps a cache key, the pair of a media id and a kind name, to the
//! path and the size of the file stored for it, and keeps the keys in order of
//! use. The functions of this file that call into the `lru` crate are trusted:
//! their contracts restate what the crate does and are not proved.

use vstd::prelude::*;

verus! {

/// `lru::LruCache`, held as an opaque value.
#[verifier::external_type_specification]
#[verifier::external_body]
#[verifier::reject_recursive_types(K)]
#[verifier::reject_recursive_types(V)]
#[verifier::reject_recursive_types(S)]
pub struct ExLruCache<K, V, S>(lru::LruCache<K, V, S>);

/// `lru::DefaultHasher`, the hasher that `LruCache::new` uses.
#[verifier::external_type_specification]
#[verifier::external_body]
pub struct ExDefaultHasher(lru::DefaultHasher);

/// A cache key as the contracts see it: `(media id, kind name)`.
pub type SlotKey = (Seq<char>, Seq<char>);

/// What is stored under a key: `(path, size in bytes)`.
pub type SlotValue = (Seq<char>, u64);

/// One tracked file: its key and what is stored under it.
pub type Slot = (SlotKey, SlotValue);

/// The entries of the index, most recently used first.
pub uninterp spec fn recency_order(c: &lru::LruCache<(String, String), (String, u64)>) -> Seq<Slot>;

/// The number of entries that the index was created to hold.
pub uninterp spec fn recency_limit(c: &lru::LruCache<(String, String), (String, u64)>) -> nat;

/// What `s` stores under `key`: the value of the first entry with that key.
pub open spec fn lookup(s: Seq<Slot>, key: SlotKey) -> Option<SlotValue>
    decreases s.len(),
{
    if s.len() == 0 {
        None
    } else if s[0].0 == key {
        Some(s[0].1)
    } else {
        lookup(s.drop_first(), key)
    }
}

/// The entries of `s` whose key is not `key`, in their order.
pub open spec fn without_key(s: Seq<Slot>, key: SlotKey) -> Seq<Slot>
    decreases s.len(),
{
    if s.len() == 0 {
        s
    } else if s[0].0 == key {
        without_key(s.drop_first(), key)
    } else {
        seq![s[0]] + without_key(s.drop_first(), key)
    }
}

/// `s` after a use of `key`: its entry moves to the front if there is one.
pub open spec fn promoted(s: Seq<Slot>, key: SlotKey) -> Seq<Slot> {
    match lookup(s, key) {
        Some(v) => seq![(key, v)] + without_key(s, key),
        None => s,
    }
}

/// An entry held in executable form, as the contracts see it.
pub open spec fn slot_of(e: ((String, String), (String, u64))) -> Slot {
    ((e.0.0@, e.0.1@), (e.1.0@, e.1.1))
}

/// A stored value held in executable form, as the contracts see it.
pub open spec fn value_of(v: Option<(String, u64)>) -> Option<SlotValue> {
    match v {
        Some(p) => Some((p.0@, p.1)),
        None => None,
    }
}

/// `LruCache::new`: an empty index that holds at most `cap` entries. The
/// crate allocates room for `cap` entries at once, so `cap` is kept small.
#[verifier::external_body]
pub(crate) fn recency_new(cap: usize) -> (c: lru::LruCache<(String, String), (String, u64)>)
    requires
        0 < cap <= 0x10000,
    ensures
        recency_order(&c) == Seq::<Slot>::empty(),
        recency_limit(&c) == cap,
{
    lru::LruCache::new(std::num::NonZeroUsize::new(cap).unwrap())
}

/// `LruCache::len`: the number of entries.
#[verifier::external_body]
pub(crate) fn recency_len(c: &lru::LruCache<(String, String), (String, u64)>) -> (n: usize)
    ensures
        n == recency_order(c).len(),
{
    c.len()
}

/// `LruCache::peek`: a copy of what is stored under the key, if anything. The
/// order of the entries stays as it is.
#[verifier::external_body]
pub(crate) fn recency_peek(
    c: &lru::LruCache<(String, String), (String, u64)>,
    media_id: &str,
    kind: &str,
) -> (r: Option<(String, u64)>)
    ensures
        value_of(r) == lookup(recency_order(c), (media_id@, kind@)),
{
    c.peek(&(media_id.to_string(), kind.to_string())).cloned()
}

/// `LruCache::get`: marks the key as the most recently used one. Without an
/// entry under the key nothing changes.
#[verifier::external_body]
pub(crate) fn recency_touch(
    c: &mut lru::LruCache<(String, String), (String, u64)>,
    media_id: &str,
    kind: &str,
)
    ensures
        recency_order(final(c)) == promoted(recency_order(old(c)), (media_id@, kind@)),
        recency_limit(final(c)) == recency_limit(old(c)),
{
    let _ = c.get(&(media_id.to_string(), kind.to_string()));
}

/// `LruCache::put`, called where it has no entry to drop: the key is present
/// or the index is not full. The new entry becomes the most recently used
/// one; what the key held before is returned.
#[verifier::external_body]
pub(crate) fn recency_put(
    c: &mut lru::LruCache<(String, String), (String, u64)>,
    media_id: String,
    kind: String,
    path: String,
    size: u64,
) -> (r: Option<(String, u64)>)
    requires
        lookup(recency_order(old(c)), (media_id@, kind@)) is Some || recency_order(old(c)).len()
            < recency_limit(old(c)),
    ensures
        recency_order(final(c)) == seq![((media_id@, kind@), (path@, size))] + without_key(
            recency_order(old(c)),
            (media_id@, kind@),
        ),
        recency_limit(final(c)) == recency_limit(old(c)),
        value_of(r) == lookup(recency_order(old(c)), (media_id@, kind@)),
{
    c.put((media_id, kind), (path, size))
}

/// `LruCache::pop_lru`: removes and returns the least recently used entry,
/// the last of the order, if there is one.
#[verifier::external_body]
pub(crate) fn recency_pop_lru(c: &mut lru::LruCache<(String, String), (String, u64)>) -> (r: Option<
    ((String, String), (String, u64)),
>)
    ensures
        recency_limit(final(c)) == recency_limit(old(c)),
        match r {
            Some(e) => recency_order(old(c)).len() > 0 && slot_of(e) == recency_order(
                old(c),
            ).last() && recency_order(final(c)) == recency_order(old(c)).drop_last(),
            None => recency_order(old(c)).len() == 0 && recency_order(final(c)) == recency_order(
                old(c),
            ),
        },
{
    c.pop_lru()
}

/// `LruCache::pop`: removes the entry under the key and returns what it held.
#[verifier::external_body]
pub(crate) fn recency_pop(
    c: &mut lru::LruCache<(String, String), (String, u64)>,
    media_id: &str,
    kind: &str,
) -> (r: Option<(String, u64)>)
    ensures
        recency_order(final(c)) == without_key(recency_order(old(c)), (media_id@, kind@)),
        recency_limit(final(c)) == recency_limit(old(c)),
        value_of(r) == lookup(recency_order(old(c)), (media_id@, kind@)),
{
    c.pop(&(media_id.to_string(), kind.to_string()))
}

/// `LruCache::iter`: copies of all entries, most recently used first.
#[verifier::external_body]
pub(crate) fn recency_entries(c: &lru::LruCache<(String, String), (String, u64)>) -> (r: Vec<
    ((String, String), (String, u64)),
>)
    ensures
        r@.len() == recency_order(c).len(),
        forall|i: int| 0 <= i < r@.len() ==> slot_of(#[trigger] r@[i]) == recency_order(c)[i],
{
    c.iter().map(|(k, v)| (k.clone(), v.clone())).collect()
}

} // verus!
