//! The mathematical model of the asset cache: a sequence of tracked files in
//! order of use, most recently used first, and what the cache's operations
//! do to it.

use crate::recency::{lookup, promoted, without_key, Slot, SlotKey};
use vstd::prelude::*;

verus! {

/// The most entries that the cache tracks at once.
pub const MAX_ENTRIES: usize = 10000;

/// The sum of the sizes of the tracked files.
pub open spec fn total_size(s: Seq<Slot>) -> nat
    decreases s.len(),
{
    if s.len() == 0 {
        0
    } else {
        s[0].1.1 as nat + total_size(s.drop_first())
    }
}

/// Whether some entry of `s` has the key `key`.
pub open spec fn has_key(s: Seq<Slot>, key: SlotKey) -> bool {
    exists|i: int| 0 <= i < s.len() && (#[trigger] s[i]).0 == key
}

/// Each cache key maps to at most one entry.
pub open spec fn distinct_keys(s: Seq<Slot>) -> bool {
    forall|i: int, j: int| 0 <= i < j < s.len() ==> (#[trigger] s[i]).0 != (#[trigger] s[j]).0
}

/// Whether `incoming` more bytes fit into `budget` beside the files of `s`.
pub open spec fn fits(s: Seq<Slot>, budget: nat, incoming: nat) -> bool {
    total_size(s) + incoming <= budget
}

/// What stays of `s` when least recently used entries are evicted, one at a
/// time, until `incoming` more bytes fit or nothing is left to evict.
pub open spec fn room_made(s: Seq<Slot>, budget: nat, incoming: nat) -> Seq<Slot>
    decreases s.len(),
{
    if s.len() == 0 || fits(s, budget, incoming) {
        s
    } else {
        room_made(s.drop_last(), budget, incoming)
    }
}

/// `s` with room in the index for an entry under `key`: where the key is new
/// and the index is full, the least recently used entry leaves.
pub open spec fn trimmed(s: Seq<Slot>, key: SlotKey) -> Seq<Slot> {
    if lookup(s, key) is None && s.len() >= MAX_ENTRIES {
        s.drop_last()
    } else {
        s
    }
}

/// `s` after `slot` is registered: it becomes the most recently used entry
/// and replaces what its key held before.
pub open spec fn registered(s: Seq<Slot>, slot: Slot) -> Seq<Slot> {
    seq![slot] + without_key(trimmed(s, slot.0), slot.0)
}

/// `s` after a file of `slot.1.1` bytes was stored under a byte budget:
/// eviction first, then the registration.
pub open spec fn stored(s: Seq<Slot>, budget: nat, slot: Slot) -> Seq<Slot> {
    registered(room_made(s, budget, slot.1.1 as nat), slot)
}

/// `s` after each slot of `slots` was stored in turn under a byte budget.
pub open spec fn stored_all(s: Seq<Slot>, budget: nat, slots: Seq<Slot>) -> Seq<Slot>
    decreases slots.len(),
{
    if slots.len() == 0 {
        s
    } else {
        stored(stored_all(s, budget, slots.drop_last()), budget, slots.last())
    }
}

/// `s` after each slot of `slots` was registered in turn.
pub open spec fn registered_all(s: Seq<Slot>, slots: Seq<Slot>) -> Seq<Slot>
    decreases slots.len(),
{
    if slots.len() == 0 {
        s
    } else {
        registered(registered_all(s, slots.drop_last()), slots.last())
    }
}

/// The paths of the entries of `s` from position `from` on, least recently
/// used first: the order in which eviction removes them.
pub open spec fn paths_lru_first(s: Seq<Slot>, from: int) -> Seq<Seq<char>> {
    Seq::new((s.len() - from) as nat, |i: int| s[s.len() - 1 - i].1.0)
}

/// The entries of `s` whose media id is in `ids`, in their order.
pub open spec fn keep_listed(s: Seq<Slot>, ids: Set<Seq<char>>) -> Seq<Slot>
    decreases s.len(),
{
    if s.len() == 0 {
        s
    } else if ids.contains(s.last().0.0) {
        keep_listed(s.drop_last(), ids).push(s.last())
    } else {
        keep_listed(s.drop_last(), ids)
    }
}

/// The paths of the entries of `s` whose media id is not in `ids`, in their
/// order.
pub open spec fn unlisted_paths(s: Seq<Slot>, ids: Set<Seq<char>>) -> Seq<Seq<char>>
    decreases s.len(),
{
    if s.len() == 0 {
        Seq::empty()
    } else if ids.contains(s.last().0.0) {
        unlisted_paths(s.drop_last(), ids)
    } else {
        unlisted_paths(s.drop_last(), ids).push(s.last().1.0)
    }
}

/// The size that `s` holds under `key`, 0 where it holds nothing.
pub open spec fn held_size(s: Seq<Slot>, key: SlotKey) -> nat {
    match lookup(s, key) {
        Some(v) => v.1 as nat,
        None => 0,
    }
}

/// A key is found exactly where some entry has it.
pub proof fn lemma_lookup_has_key(s: Seq<Slot>, key: SlotKey)
    ensures
        lookup(s, key) is Some <==> has_key(s, key),
    decreases s.len(),
{
    if s.len() == 0 {
    } else if s[0].0 == key {
    } else {
        let t = s.drop_first();
        lemma_lookup_has_key(t, key);
        if has_key(t, key) {
            let i = choose|i: int| 0 <= i < t.len() && (#[trigger] t[i]).0 == key;
            assert(s[i + 1].0 == key);
        }
        if has_key(s, key) {
            let i = choose|i: int| 0 <= i < s.len() && (#[trigger] s[i]).0 == key;
            assert(t[i - 1].0 == key);
        }
    }
}

/// Removing a key that no entry has changes nothing.
pub proof fn lemma_without_absent(s: Seq<Slot>, key: SlotKey)
    requires
        !has_key(s, key),
    ensures
        without_key(s, key) == s,
    decreases s.len(),
{
    if s.len() > 0 {
        let t = s.drop_first();
        assert(s[0].0 != key);
        assert forall|i: int| 0 <= i < t.len() implies (#[trigger] t[i]).0 != key by {
            assert(s[i + 1].0 != key);
        }
        lemma_without_absent(t, key);
        assert(seq![s[0]] + t =~= s);
    }
}

/// Removing a key from two runs of entries, one after the other.
pub proof fn lemma_without_concat(a: Seq<Slot>, b: Seq<Slot>, key: SlotKey)
    ensures
        without_key(a + b, key) == without_key(a, key) + without_key(b, key),
    decreases a.len(),
{
    if a.len() == 0 {
        assert(a + b =~= b);
        assert(without_key(a, key) + without_key(b, key) =~= without_key(b, key));
    } else {
        assert((a + b).drop_first() =~= a.drop_first() + b);
        lemma_without_concat(a.drop_first(), b, key);
        if a[0].0 != key {
            assert(seq![a[0]] + (without_key(a.drop_first(), key) + without_key(b, key)) =~= (
            seq![a[0]] + without_key(a.drop_first(), key)) + without_key(b, key));
        }
    }
}

/// Looking a key up in two runs of entries, one after the other.
pub proof fn lemma_lookup_concat(a: Seq<Slot>, b: Seq<Slot>, key: SlotKey)
    ensures
        lookup(a + b, key) == if lookup(a, key) is Some {
            lookup(a, key)
        } else {
            lookup(b, key)
        },
    decreases a.len(),
{
    if a.len() == 0 {
        assert(a + b =~= b);
    } else {
        assert((a + b).drop_first() =~= a.drop_first() + b);
        lemma_lookup_concat(a.drop_first(), b, key);
    }
}

/// The sizes of two runs of entries add up.
pub proof fn lemma_total_concat(a: Seq<Slot>, b: Seq<Slot>)
    ensures
        total_size(a + b) == total_size(a) + total_size(b),
    decreases a.len(),
{
    if a.len() == 0 {
        assert(a + b =~= b);
    } else {
        assert((a + b).drop_first() =~= a.drop_first() + b);
        lemma_total_concat(a.drop_first(), b);
    }
}

/// The size of a single entry.
pub proof fn lemma_total_single(e: Slot)
    ensures
        total_size(seq![e]) == e.1.1,
{
    let t = seq![e].drop_first();
    assert(t.len() == 0);
    assert(total_size(t) == 0);
    assert(seq![e][0] == e);
}

/// The last entry counts with its size.
pub proof fn lemma_total_drop_last(s: Seq<Slot>)
    requires
        s.len() > 0,
    ensures
        total_size(s) == total_size(s.drop_last()) + s.last().1.1,
{
    assert(s =~= s.drop_last() + seq![s.last()]);
    lemma_total_concat(s.drop_last(), seq![s.last()]);
    lemma_total_single(s.last());
}

/// With distinct keys, removing a key removes exactly the entry that holds it.
pub proof fn lemma_without_at(s: Seq<Slot>, key: SlotKey, i: int)
    requires
        distinct_keys(s),
        0 <= i < s.len(),
        s[i].0 == key,
    ensures
        without_key(s, key) == s.take(i) + s.skip(i + 1),
        lookup(s, key) == Some(s[i].1),
{
    let a = s.take(i);
    let b = s.skip(i);
    let c = s.skip(i + 1);
    assert(s =~= a + b);
    lemma_without_concat(a, b, key);
    lemma_lookup_concat(a, b, key);
    assert(!has_key(a, key)) by {
        if has_key(a, key) {
            let j = choose|j: int| 0 <= j < a.len() && (#[trigger] a[j]).0 == key;
            assert(s[j].0 == key);
        }
    }
    lemma_without_absent(a, key);
    lemma_lookup_has_key(a, key);
    assert(b.drop_first() =~= c);
    assert(b[0] == s[i]);
    assert(!has_key(c, key)) by {
        if has_key(c, key) {
            let j = choose|j: int| 0 <= j < c.len() && (#[trigger] c[j]).0 == key;
            assert(s[i + 1 + j].0 == key);
        }
    }
    lemma_without_absent(c, key);
}

/// Removing a key keeps the keys distinct and takes the held size away.
pub proof fn lemma_without_wf(s: Seq<Slot>, key: SlotKey)
    requires
        distinct_keys(s),
    ensures
        distinct_keys(without_key(s, key)),
        !has_key(without_key(s, key), key),
        total_size(without_key(s, key)) + held_size(s, key) == total_size(s),
        without_key(s, key).len() == if lookup(s, key) is Some {
            s.len() - 1
        } else {
            s.len() as int
        },
{
    lemma_lookup_has_key(s, key);
    if has_key(s, key) {
        let i = choose|i: int| 0 <= i < s.len() && (#[trigger] s[i]).0 == key;
        lemma_without_at(s, key, i);
        let a = s.take(i);
        let c = s.skip(i + 1);
        let w = a + c;
        assert forall|x: int, y: int| 0 <= x < y < w.len() implies (#[trigger] w[x]).0 != (
        #[trigger] w[y]).0 by {
            let xs = if x < i { x } else { x + 1 };
            let ys = if y < i { y } else { y + 1 };
            assert(w[x] == s[xs]);
            assert(w[y] == s[ys]);
        }
        assert(!has_key(w, key)) by {
            if has_key(w, key) {
                let x = choose|x: int| 0 <= x < w.len() && (#[trigger] w[x]).0 == key;
                let xs = if x < i { x } else { x + 1 };
                assert(w[x] == s[xs]);
            }
        }
        assert(s =~= a + s.skip(i));
        lemma_total_concat(a, s.skip(i));
        lemma_total_concat(a, c);
        assert(s.skip(i).drop_first() =~= c);
        assert(s.skip(i)[0] == s[i]);
    } else {
        lemma_without_absent(s, key);
    }
}

/// A use of a key keeps the keys distinct, the sizes and the number of entries.
pub proof fn lemma_promoted_wf(s: Seq<Slot>, key: SlotKey)
    requires
        distinct_keys(s),
    ensures
        distinct_keys(promoted(s, key)),
        total_size(promoted(s, key)) == total_size(s),
        promoted(s, key).len() == s.len(),
{
    lemma_without_wf(s, key);
    match lookup(s, key) {
        Some(v) => {
            lemma_prepend_wf(without_key(s, key), (key, v));
        },
        None => {},
    }
}

/// A new entry in front of entries that do not hold its key.
pub proof fn lemma_prepend_wf(s: Seq<Slot>, slot: Slot)
    requires
        distinct_keys(s),
        !has_key(s, slot.0),
    ensures
        distinct_keys(seq![slot] + s),
        total_size(seq![slot] + s) == total_size(s) + slot.1.1,
        (seq![slot] + s).len() == s.len() + 1,
{
    let w = seq![slot] + s;
    assert forall|x: int, y: int| 0 <= x < y < w.len() implies (#[trigger] w[x]).0 != (
    #[trigger] w[y]).0 by {
        assert(w[y] == s[y - 1]);
        if x > 0 {
            assert(w[x] == s[x - 1]);
        }
    }
    lemma_total_concat(seq![slot], s);
    lemma_total_single(slot);
}

/// Dropping the least recently used entry.
pub proof fn lemma_drop_last_wf(s: Seq<Slot>)
    requires
        distinct_keys(s),
        s.len() > 0,
    ensures
        distinct_keys(s.drop_last()),
        total_size(s.drop_last()) + s.last().1.1 == total_size(s),
{
    let w = s.drop_last();
    assert forall|x: int, y: int| 0 <= x < y < w.len() implies (#[trigger] w[x]).0 != (
    #[trigger] w[y]).0 by {
        assert(w[x] == s[x]);
        assert(w[y] == s[y]);
    }
    lemma_total_drop_last(s);
}

/// Registration keeps the keys distinct and the index within its limit, and
/// accounts for the sizes.
pub proof fn lemma_registered_wf(s: Seq<Slot>, slot: Slot)
    requires
        distinct_keys(s),
        s.len() <= MAX_ENTRIES,
    ensures
        distinct_keys(registered(s, slot)),
        registered(s, slot).len() <= MAX_ENTRIES,
        registered(s, slot).len() >= 1,
        registered(s, slot)[0] == slot,
        total_size(registered(s, slot)) + held_size(trimmed(s, slot.0), slot.0) == total_size(
            trimmed(s, slot.0),
        ) + slot.1.1,
        total_size(trimmed(s, slot.0)) <= total_size(s),
{
    let t = trimmed(s, slot.0);
    if lookup(s, slot.0) is None && s.len() >= MAX_ENTRIES {
        lemma_drop_last_wf(s);
    }
    lemma_without_wf(t, slot.0);
    lemma_prepend_wf(without_key(t, slot.0), slot);
}

/// Eviction removes a run of least recently used entries, and no more of
/// them than it takes for the incoming bytes to fit.
pub proof fn lemma_room_made(s: Seq<Slot>, budget: nat, incoming: nat)
    ensures
        room_made(s, budget, incoming).len() <= s.len(),
        room_made(s, budget, incoming) == s.take(room_made(s, budget, incoming).len() as int),
        room_made(s, budget, incoming).len() == 0 || fits(
            room_made(s, budget, incoming),
            budget,
            incoming,
        ),
        forall|j: int|
            room_made(s, budget, incoming).len() < j <= s.len() ==> !fits(
                #[trigger] s.take(j),
                budget,
                incoming,
            ),
    decreases s.len(),
{
    if s.len() == 0 || fits(s, budget, incoming) {
        assert(s.take(s.len() as int) =~= s);
    } else {
        let t = s.drop_last();
        lemma_room_made(t, budget, incoming);
        let r = room_made(t, budget, incoming);
        assert(t.take(r.len() as int) =~= s.take(r.len() as int));
        assert forall|j: int| r.len() < j <= s.len() implies !fits(
            #[trigger] s.take(j),
            budget,
            incoming,
        ) by {
            if j == s.len() {
                assert(s.take(j) =~= s);
            } else {
                assert(t.take(j) =~= s.take(j));
            }
        }
    }
}

/// A prefix of distinct keys has distinct keys, and is no larger.
pub proof fn lemma_take_wf(s: Seq<Slot>, n: int)
    requires
        distinct_keys(s),
        0 <= n <= s.len(),
    ensures
        distinct_keys(s.take(n)),
        total_size(s.take(n)) <= total_size(s),
{
    let w = s.take(n);
    assert forall|x: int, y: int| 0 <= x < y < w.len() implies (#[trigger] w[x]).0 != (
    #[trigger] w[y]).0 by {
        assert(w[x] == s[x]);
        assert(w[y] == s[y]);
    }
    assert(s =~= w + s.skip(n));
    lemma_total_concat(w, s.skip(n));
}

/// Removing one key keeps the entries of every other key.
pub proof fn lemma_without_keeps(s: Seq<Slot>, gone: SlotKey, key: SlotKey)
    requires
        has_key(s, key),
        key != gone,
    ensures
        has_key(without_key(s, gone), key),
        lookup(without_key(s, gone), key) == lookup(s, key),
    decreases s.len(),
{
    let t = s.drop_first();
    let w = without_key(s, gone);
    if s[0].0 == key {
        assert(w[0] == s[0]);
    } else {
        let i = choose|i: int| 0 <= i < s.len() && (#[trigger] s[i]).0 == key;
        assert(t[i - 1].0 == key);
        lemma_without_keeps(t, gone, key);
        let wt = without_key(t, gone);
        let j = choose|j: int| 0 <= j < wt.len() && (#[trigger] wt[j]).0 == key;
        if s[0].0 == gone {
        } else {
            assert(w[j + 1] == wt[j]);
            assert(w.drop_first() =~= wt);
        }
    }
}

/// Least recently used first: where one item more than the budget has room
/// for is stored under a new key, the least recently used item is evicted
/// and every other item stays, in its order.
pub proof fn lemma_one_more_evicts_oldest(s: Seq<Slot>, budget: nat, slot: Slot)
    requires
        0 < s.len() <= MAX_ENTRIES,
        !has_key(s, slot.0),
        !fits(s, budget, slot.1.1 as nat),
        fits(s.drop_last(), budget, slot.1.1 as nat),
    ensures
        stored(s, budget, slot) == seq![slot] + s.drop_last(),
{
    let t = s.drop_last();
    assert(room_made(s, budget, slot.1.1 as nat) == room_made(t, budget, slot.1.1 as nat));
    assert(room_made(t, budget, slot.1.1 as nat) == t);
    assert(!has_key(t, slot.0)) by {
        if has_key(t, slot.0) {
            let i = choose|i: int| 0 <= i < t.len() && (#[trigger] t[i]).0 == slot.0;
            assert(s[i].0 == slot.0);
        }
    }
    lemma_lookup_has_key(t, slot.0);
    lemma_without_absent(t, slot.0);
}

/// A touch protects from eviction: an item that was used just before a file
/// is stored under another key stays in the cache, unless everything has to
/// go.
pub proof fn lemma_touch_prevents_eviction(s: Seq<Slot>, key: SlotKey, budget: nat, slot: Slot)
    requires
        distinct_keys(s),
        has_key(s, key),
        slot.0 != key,
        room_made(promoted(s, key), budget, slot.1.1 as nat).len() > 0,
    ensures
        has_key(stored(promoted(s, key), budget, slot), key),
        lookup(stored(promoted(s, key), budget, slot), key) == lookup(s, key),
{
    lemma_lookup_has_key(s, key);
    let v = lookup(s, key)->0;
    let p = promoted(s, key);
    assert(p[0] == (key, v));
    lemma_room_made(p, budget, slot.1.1 as nat);
    let kept = room_made(p, budget, slot.1.1 as nat);
    assert(kept[0] == p[0]);
    let t = trimmed(kept, slot.0);
    assert(t.len() > 0 && t[0] == p[0]);
    assert(has_key(t, key));
    assert(lookup(t, key) == Some(v));
    lemma_without_keeps(t, slot.0, key);
    let w = without_key(t, slot.0);
    let out = seq![slot] + w;
    assert(out.drop_first() =~= w);
    let j = choose|j: int| 0 <= j < w.len() && (#[trigger] w[j]).0 == key;
    assert(out[j + 1] == w[j]);
}

/// The orphan sweep removes every entry whose media item is not in the
/// playlist and none whose media item is.
pub proof fn lemma_keep_listed_contains(s: Seq<Slot>, ids: Set<Seq<char>>, e: Slot)
    ensures
        keep_listed(s, ids).contains(e) <==> s.contains(e) && ids.contains(e.0.0),
    decreases s.len(),
{
    if s.len() > 0 {
        let t = s.drop_last();
        let k = keep_listed(t, ids);
        lemma_keep_listed_contains(t, ids, e);
        if s.contains(e) {
            let i = choose|i: int| 0 <= i < s.len() && s[i] == e;
            if i < t.len() {
                assert(t[i] == e);
            }
        }
        if t.contains(e) {
            let i = choose|i: int| 0 <= i < t.len() && t[i] == e;
            assert(s[i] == e);
        }
        if ids.contains(s.last().0.0) {
            let kk = k.push(s.last());
            if k.contains(e) {
                let i = choose|i: int| 0 <= i < k.len() && k[i] == e;
                assert(kk[i] == e);
            }
            if kk.contains(e) {
                let i = choose|i: int| 0 <= i < kk.len() && kk[i] == e;
                if i < k.len() {
                    assert(k[i] == e);
                } else {
                    assert(s[s.len() - 1] == e);
                }
            }
            if e == s.last() {
                assert(kk[k.len() as int] == e);
            }
        }
    }
}

/// Storing a file leaves the cache within its budget, unless the file alone
/// is larger than the budget: then the file is all that the cache holds.
pub proof fn lemma_stored_within_budget(s: Seq<Slot>, budget: nat, slot: Slot)
    requires
        distinct_keys(s),
        s.len() <= MAX_ENTRIES,
    ensures
        distinct_keys(stored(s, budget, slot)),
        stored(s, budget, slot).len() <= MAX_ENTRIES,
        total_size(stored(s, budget, slot)) <= budget || stored(s, budget, slot) == seq![slot],
        total_size(stored(s, budget, slot)) <= budget + slot.1.1,
{
    let incoming = slot.1.1 as nat;
    let kept = room_made(s, budget, incoming);
    lemma_room_made(s, budget, incoming);
    lemma_take_wf(s, kept.len() as int);
    lemma_registered_wf(kept, slot);
    if kept.len() == 0 {
        assert(trimmed(kept, slot.0) == kept);
        assert(without_key(kept, slot.0) == kept);
        assert(seq![slot] + kept =~= seq![slot]);
        lemma_total_single(slot);
    }
}

/// However many files are stored one after the other, and whatever the cache
/// held before, after each of them the used size exceeds the budget by no
/// more than the size of the file that was stored last.
pub proof fn lemma_budget_after_downloads(s: Seq<Slot>, budget: nat, slots: Seq<Slot>)
    requires
        distinct_keys(s),
        s.len() <= MAX_ENTRIES,
    ensures
        distinct_keys(stored_all(s, budget, slots)),
        stored_all(s, budget, slots).len() <= MAX_ENTRIES,
        slots.len() > 0 ==> total_size(stored_all(s, budget, slots)) <= budget
            + slots.last().1.1,
        slots.len() > 0 ==> total_size(stored_all(s, budget, slots)) <= budget || stored_all(
            s,
            budget,
            slots,
        ) == seq![slots.last()],
    decreases slots.len(),
{
    if slots.len() > 0 {
        lemma_budget_after_downloads(s, budget, slots.drop_last());
        lemma_stored_within_budget(
            stored_all(s, budget, slots.drop_last()),
            budget,
            slots.last(),
        );
    }
}

} // verus!
