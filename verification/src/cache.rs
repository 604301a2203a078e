//! The size-bounded asset cache: which files are stored, in what order they
//! were used, and which of them leave when room is needed.
//!
//! The cache keeps the books; it touches no file. Whoever calls it removes
//! the files that it reports as evicted and writes the files that it admits.

use crate::assets::{id_set, kind_extension, kind_name, playlist_ids, AssetType, Media};
use crate::cache_model::{
    distinct_keys, fits, keep_listed, lemma_drop_last_wf, lemma_promoted_wf, lemma_registered_wf,
    lemma_room_made, lemma_without_at, lemma_without_wf, paths_lru_first, registered,
    registered_all, room_made, stored, total_size, trimmed, unlisted_paths, MAX_ENTRIES,
};
use crate::recency::{
    lookup, promoted, recency_entries, recency_len, recency_limit, recency_new, recency_order,
    recency_peek, recency_pop, recency_pop_lru, recency_put, recency_touch, slot_of, without_key,
    Slot, SlotKey,
};
use crate::text::{option_text, texts};
use vstd::prelude::*;
use vstd::string::*;

verus! {

/// The number of bytes in a gigabyte, the unit in which the size limit is
/// configured.
pub const GIB: u64 = 0x4000_0000;

/// A file found in the cache directory at start-up.
#[derive(Debug, Clone, PartialEq, Eq)]
pub struct ScannedFile {
    /// The name of the directory that holds the file.
    pub media_id: String,
    /// The name of the file without its extension.
    pub stem: String,
    /// The path of the file.
    pub path: String,
    /// The size of the file in bytes.
    pub size: u64,
}

/// What the contracts see of a scanned file.
pub open spec fn scanned_slot(f: ScannedFile) -> Slot {
    ((f.media_id@, f.stem@), (f.path@, f.size))
}

/// What the contracts see of the scanned files, in scan order.
pub open spec fn scanned_slots(found: Seq<ScannedFile>) -> Seq<Slot> {
    Seq::new(found.len(), |i: int| scanned_slot(found[i]))
}

/// Where the file of a media item and kind is stored under `root`:
/// one directory per media item, one file per kind.
pub open spec fn asset_path(root: Seq<char>, media_id: Seq<char>, kind: AssetType) -> Seq<char> {
    root + "/"@ + media_id + "/"@ + kind_name(kind) + "."@ + kind_extension(kind)
}

/// Where the playlist snapshot is stored under `root`.
pub open spec fn snapshot_path(root: Seq<char>) -> Seq<char> {
    root + "/playlist.json"@
}

/// The path of the entry that leaves the index when `key` is registered in
/// `s`, if one has to leave.
pub open spec fn dropped_one(s: Seq<Slot>, key: SlotKey) -> Option<Seq<char>> {
    if lookup(s, key) is None && s.len() >= MAX_ENTRIES {
        Some(s.last().1.0)
    } else {
        None
    }
}

/// The paths of the entries that leave the index while `slots` are
/// registered in turn, in the order in which they leave.
pub open spec fn dropped_all(s: Seq<Slot>, slots: Seq<Slot>) -> Seq<Seq<char>>
    decreases slots.len(),
{
    if slots.len() == 0 {
        Seq::empty()
    } else {
        let before = dropped_all(s, slots.drop_last());
        match dropped_one(registered_all(s, slots.drop_last()), slots.last().0) {
            Some(p) => before.push(p),
            None => before,
        }
    }
}

/// The entries that are still tracked when a file is stored under `key`,
/// after eviction by size and by the limit of the index.
pub open spec fn survivors(s: Seq<Slot>, budget: nat, key: SlotKey, incoming: nat) -> Seq<Slot> {
    trimmed(room_made(s, budget, incoming), key)
}

/// One more eviction extends the list of evicted paths by the path of the
/// entry that was the least recently used one.
proof fn lemma_paths_push(s: Seq<Slot>, from: int, before: Seq<String>, after: Seq<String>)
    requires
        0 < from <= s.len(),
        texts(before) == paths_lru_first(s, from),
        after.len() == before.len() + 1,
        forall|i: int| 0 <= i < before.len() ==> after[i] == before[i],
        after[before.len() as int]@ == s[from - 1].1.0,
    ensures
        texts(after) == paths_lru_first(s, from - 1),
{
    let want = paths_lru_first(s, from - 1);
    assert(texts(before).len() == s.len() - from);
    assert forall|i: int| 0 <= i < want.len() implies texts(after)[i] == want[i] by {
        if i < before.len() {
            assert(texts(before)[i] == paths_lru_first(s, from)[i]);
        }
    }
    assert(texts(after) =~= want);
}

/// Cache statistics.
#[derive(Debug, Clone, PartialEq, Eq)]
pub struct CacheStats {
    pub current_size: u64,
    pub max_size: u64,
    pub item_count: usize,
}

/// The outcome of storing a file.
#[derive(Debug, Clone, PartialEq, Eq)]
pub struct Stored {
    /// Where the file belongs.
    pub path: String,
    /// The paths of the files that were evicted for it, in the order of
    /// their eviction.
    pub evicted: Vec<String>,
}

/// LRU cache for media assets.
pub struct Cache {
    /// Base directory for cached files.
    cache_dir: String,
    /// Maximum cache size in bytes.
    max_size: u64,
    /// Current cache size in bytes.
    current_size: u64,
    /// The tracked files by key, in order of use.
    lru: lru::LruCache<(String, String), (String, u64)>,
}

impl Cache {
    /// The tracked files, most recently used first.
    pub closed spec fn entries(&self) -> Seq<Slot> {
        recency_order(&self.lru)
    }

    /// The number of bytes that the cache counts as used.
    pub closed spec fn used(&self) -> nat {
        self.current_size as nat
    }

    /// The byte budget.
    pub closed spec fn budget(&self) -> nat {
        self.max_size as nat
    }

    /// The cache directory.
    pub closed spec fn root(&self) -> Seq<char> {
        self.cache_dir@
    }

    /// The index was made for `MAX_ENTRIES` entries.
    pub closed spec fn index_sized(&self) -> bool {
        recency_limit(&self.lru) == MAX_ENTRIES
    }

    /// The invariant of the cache: each key has at most one entry, the used
    /// size is the sum of the tracked sizes, and the index is within its
    /// limit.
    pub open spec fn wf(&self) -> bool {
        &&& distinct_keys(self.entries())
        &&& self.used() == total_size(self.entries())
        &&& self.entries().len() <= MAX_ENTRIES
        &&& self.index_sized()
    }

    /// Create a new cache for the given directory and byte budget, and
    /// register the files that a scan of the directory found, in scan order.
    /// Returns the cache and the paths of the files that the index has no
    /// room for.
    pub fn new(cache_dir: String, max_bytes: u64, found: &Vec<ScannedFile>) -> (r: (
        Cache,
        Vec<String>,
    ))
        requires
            total_size(scanned_slots(found@)) <= u64::MAX,
        ensures
            r.0.wf(),
            r.0.root() == cache_dir@,
            r.0.budget() == max_bytes,
            r.0.entries() == registered_all(Seq::empty(), scanned_slots(found@)),
            texts(r.1@) == dropped_all(Seq::empty(), scanned_slots(found@)),
    {
        let mut cache = Cache {
            cache_dir,
            max_size: max_bytes,
            current_size: 0,
            lru: recency_new(MAX_ENTRIES),
        };
        let dropped = cache.scan_existing(found);
        (cache, dropped)
    }

    /// Register the files that a scan of the cache directory found, in scan
    /// order: the last one scanned counts as the most recently used. Returns
    /// the paths of the files that the index has no room for.
    pub fn scan_existing(&mut self, found: &Vec<ScannedFile>) -> (dropped: Vec<String>)
        requires
            old(self).wf(),
            old(self).used() + total_size(scanned_slots(found@)) <= u64::MAX,
        ensures
            final(self).wf(),
            final(self).root() == old(self).root(),
            final(self).budget() == old(self).budget(),
            final(self).entries() == registered_all(old(self).entries(), scanned_slots(found@)),
            texts(dropped@) == dropped_all(old(self).entries(), scanned_slots(found@)),
    {
        let ghost start = self.entries();
        let ghost slots = scanned_slots(found@);
        let mut dropped: Vec<String> = Vec::new();
        let mut i: usize = 0;
        proof {
            assert(slots.take(0) =~= Seq::<Slot>::empty());
            assert(slots.skip(0) =~= slots);
            assert(texts(dropped@) =~= dropped_all(start, slots.take(0)));
        }
        while i < found.len()
            invariant
                i <= found.len(),
                slots == scanned_slots(found@),
                self.wf(),
                self.root() == old(self).root(),
                self.budget() == old(self).budget(),
                self.entries() == registered_all(start, slots.take(i as int)),
                texts(dropped@) == dropped_all(start, slots.take(i as int)),
                self.used() + total_size(slots.skip(i as int)) <= u64::MAX,
            decreases found.len() - i,
        {
            let file = &found[i];
            proof {
                assert(slots.skip(i as int).drop_first() =~= slots.skip(i + 1));
                assert(slots.skip(i as int)[0] == slots[i as int]);
                assert(slots.take(i + 1).drop_last() =~= slots.take(i as int));
                assert(slots.take(i + 1).last() == slots[i as int]);
            }
            let gone = self.register(
                file.media_id.clone(),
                file.stem.clone(),
                file.path.clone(),
                file.size,
            );
            let ghost before = dropped@;
            match gone {
                Some(p) => {
                    dropped.push(p);
                    assert(texts(dropped@) =~= texts(before).push(p@));
                },
                None => {},
            }
            i = i + 1;
        }
        proof {
            assert(slots.take(found.len() as int) =~= slots);
        }
        dropped
    }

    /// Get the path where an asset should be cached.
    pub fn cache_path(&self, media_id: &str, asset_type: AssetType) -> (r: String)
        ensures
            r@ == asset_path(self.root(), media_id@, asset_type),
    {
        let mut p: String = self.cache_dir.clone();
        p.append("/");
        p.append(media_id);
        p.append("/");
        p.append(asset_type.as_str());
        p.append(".");
        p.append(asset_type.extension());
        p
    }

    /// The path of the playlist snapshot in the cache directory.
    pub fn playlist_path(&self) -> (r: String)
        ensures
            r@ == snapshot_path(self.root()),
    {
        let mut p: String = self.cache_dir.clone();
        p.append("/playlist.json");
        p
    }

    /// The playlist to start from, given what reading the snapshot gave:
    /// a missing snapshot yields an empty playlist.
    pub fn load_playlist(&self, snapshot: Option<Vec<Media>>) -> (r: Vec<Media>)
        ensures
            r@ == match snapshot {
                Some(playlist) => playlist@,
                None => Seq::empty(),
            },
    {
        match snapshot {
            Some(playlist) => playlist,
            None => Vec::new(),
        }
    }

    /// Check if an asset is cached and return its path. The order of use
    /// stays as it is.
    pub fn get_cached_path(&self, media_id: &str, asset_type: AssetType) -> (r: Option<String>)
        ensures
            option_text(r) == match lookup(self.entries(), (media_id@, kind_name(asset_type))) {
                Some(v) => Some(v.0),
                None => None,
            },
    {
        match recency_peek(&self.lru, media_id, asset_type.as_str()) {
            Some(v) => Some(v.0),
            None => None,
        }
    }

    /// Whether `incoming` more bytes fit into the budget.
    fn has_room(&self, incoming: u64) -> (r: bool)
        requires
            self.wf(),
        ensures
            r == fits(self.entries(), self.budget(), incoming as nat),
    {
        incoming <= self.max_size && self.current_size <= self.max_size - incoming
    }

    /// Evict the least recently used item. Returns the path of its file.
    fn evict_lru(&mut self) -> (r: Option<String>)
        requires
            old(self).wf(),
        ensures
            final(self).wf(),
            final(self).root() == old(self).root(),
            final(self).budget() == old(self).budget(),
            match r {
                Some(p) => old(self).entries().len() > 0 && p@ == old(self).entries().last().1.0
                    && final(self).entries() == old(self).entries().drop_last(),
                None => old(self).entries().len() == 0 && final(self).entries() == old(
                    self,
                ).entries(),
            },
    {
        match recency_pop_lru(&mut self.lru) {
            Some(e) => {
                proof {
                    lemma_drop_last_wf(old(self).entries());
                }
                let ((_, _), (path, size)) = e;
                self.current_size = self.current_size - size;
                Some(path)
            },
            None => None,
        }
    }

    /// Evict least recently used items until `incoming` more bytes fit into
    /// the budget, or nothing is left to evict. Returns the paths of the
    /// evicted files in the order of their eviction.
    pub fn make_room(&mut self, incoming: u64) -> (evicted: Vec<String>)
        requires
            old(self).wf(),
        ensures
            final(self).wf(),
            final(self).root() == old(self).root(),
            final(self).budget() == old(self).budget(),
            final(self).entries() == room_made(
                old(self).entries(),
                old(self).budget(),
                incoming as nat,
            ),
            texts(evicted@) == paths_lru_first(
                old(self).entries(),
                final(self).entries().len() as int,
            ),
    {
        let ghost start = self.entries();
        let mut evicted: Vec<String> = Vec::new();
        let mut more: bool = recency_len(&self.lru) > 0 && !self.has_room(incoming);
        proof {
            assert(start.take(start.len() as int) =~= start);
            assert(texts(evicted@) =~= paths_lru_first(start, start.len() as int));
        }
        while more
            invariant
                self.wf(),
                self.root() == old(self).root(),
                self.budget() == old(self).budget(),
                start == old(self).entries(),
                self.entries().len() <= start.len(),
                self.entries() == start.take(self.entries().len() as int),
                room_made(self.entries(), self.budget(), incoming as nat) == room_made(
                    start,
                    self.budget(),
                    incoming as nat,
                ),
                texts(evicted@) == paths_lru_first(start, self.entries().len() as int),
                more == (self.entries().len() > 0 && !fits(
                    self.entries(),
                    self.budget(),
                    incoming as nat,
                )),
            decreases self.entries().len(),
        {
            let ghost cur = self.entries();
            let ghost before = evicted@;
            let gone = self.evict_lru();
            match gone {
                Some(p) => {
                    evicted.push(p);
                    proof {
                        assert(self.entries() =~= start.take(self.entries().len() as int));
                        assert(cur.last() == start[cur.len() - 1]);
                        lemma_paths_push(start, cur.len() as int, before, evicted@);
                    }
                },
                None => {},
            }
            more = recency_len(&self.lru) > 0 && !self.has_room(incoming);
        }
        evicted
    }

    /// Record one file under its key as the most recently used entry.
    /// Returns the path of the entry that had to leave the index, if any.
    fn register(&mut self, media_id: String, kind: String, path: String, size: u64) -> (dropped:
        Option<String>)
        requires
            old(self).wf(),
            old(self).used() + size <= u64::MAX,
        ensures
            final(self).wf(),
            final(self).root() == old(self).root(),
            final(self).budget() == old(self).budget(),
            final(self).entries() == registered(
                old(self).entries(),
                ((media_id@, kind@), (path@, size)),
            ),
            final(self).used() <= old(self).used() + size,
            option_text(dropped) == dropped_one(old(self).entries(), (media_id@, kind@)),
    {
        let ghost start = self.entries();
        let ghost key = (media_id@, kind@);
        let ghost slot = (key, (path@, size));
        let held = recency_peek(&self.lru, media_id.as_str(), kind.as_str());
        let mut dropped: Option<String> = None;
        if held.is_none() && recency_len(&self.lru) >= MAX_ENTRIES {
            dropped = self.evict_lru();
        }
        proof {
            lemma_registered_wf(start, slot);
            lemma_without_wf(trimmed(start, key), key);
            assert(self.entries() == trimmed(start, key));
        }
        let before = recency_put(&mut self.lru, media_id, kind, path, size);
        match before {
            Some(v) => {
                self.current_size = self.current_size - v.1;
            },
            None => {},
        }
        self.current_size = self.current_size + size;
        dropped
    }

    /// Admit a downloaded asset of `size` bytes: evict least recently used
    /// items until it fits, or nothing is left to evict, then record it as
    /// the most recently used entry. Returns where the file belongs and which
    /// files were evicted.
    pub fn download_and_cache(&mut self, media_id: &str, asset_type: AssetType, size: u64) -> (r:
        Stored)
        requires
            old(self).wf(),
        ensures
            final(self).wf(),
            final(self).root() == old(self).root(),
            final(self).budget() == old(self).budget(),
            r.path@ == asset_path(old(self).root(), media_id@, asset_type),
            final(self).entries() == stored(
                old(self).entries(),
                old(self).budget(),
                ((media_id@, kind_name(asset_type)), (r.path@, size)),
            ),
            texts(r.evicted@) == paths_lru_first(
                old(self).entries(),
                survivors(
                    old(self).entries(),
                    old(self).budget(),
                    (media_id@, kind_name(asset_type)),
                    size as nat,
                ).len() as int,
            ),
            final(self).used() <= old(self).budget() + size,
            final(self).used() <= old(self).budget() || final(self).entries() == seq![
                ((media_id@, kind_name(asset_type)), (r.path@, size)),
            ],
            lookup(final(self).entries(), (media_id@, kind_name(asset_type))) == Some(
                (r.path@, size),
            ),
    {
        let ghost start = self.entries();
        let ghost key = (media_id@, kind_name(asset_type));
        let path = self.cache_path(media_id, asset_type);
        let mut evicted = self.make_room(size);
        let ghost kept = self.entries();
        let ghost before = evicted@;
        proof {
            lemma_room_made(start, self.budget(), size as nat);
            lemma_registered_wf(kept, (key, (path@, size)));
            if kept.len() == 0 {
                assert(total_size(kept) == 0);
                assert(without_key(trimmed(kept, key), key) =~= Seq::<Slot>::empty());
            }
        }
        let dropped = self.register(
            media_id.to_owned(),
            asset_type.as_str().to_owned(),
            path.clone(),
            size,
        );
        match dropped {
            Some(p) => {
                evicted.push(p);
                proof {
                    assert(kept.last() == start[kept.len() - 1]);
                    lemma_paths_push(start, kept.len() as int, before, evicted@);
                }
            },
            None => {},
        }
        Stored { path, evicted }
    }

    /// Mark an asset as recently used. Without an entry for it nothing
    /// changes.
    pub fn touch(&mut self, media_id: &str, asset_type: AssetType)
        requires
            old(self).wf(),
        ensures
            final(self).wf(),
            final(self).root() == old(self).root(),
            final(self).budget() == old(self).budget(),
            final(self).used() == old(self).used(),
            final(self).entries() == promoted(
                old(self).entries(),
                (media_id@, kind_name(asset_type)),
            ),
    {
        proof {
            lemma_promoted_wf(self.entries(), (media_id@, kind_name(asset_type)));
        }
        recency_touch(&mut self.lru, media_id, asset_type.as_str());
    }

    /// Get cache statistics.
    pub fn stats(&self) -> (r: CacheStats)
        ensures
            r.current_size == self.used(),
            r.max_size == self.budget(),
            r.item_count == self.entries().len(),
    {
        CacheStats {
            current_size: self.current_size,
            max_size: self.max_size,
            item_count: recency_len(&self.lru),
        }
    }

    /// Clean up orphaned cache entries: those whose media item is not in the
    /// playlist. Returns the paths of their files, most recently used first.
    pub fn cleanup_orphans(&mut self, playlist: &Vec<Media>) -> (removed: Vec<String>)
        requires
            old(self).wf(),
        ensures
            final(self).wf(),
            final(self).root() == old(self).root(),
            final(self).budget() == old(self).budget(),
            final(self).entries() == keep_listed(old(self).entries(), playlist_ids(playlist@)),
            texts(removed@) == unlisted_paths(old(self).entries(), playlist_ids(playlist@)),
    {
        let ghost start = self.entries();
        let ghost ids = playlist_ids(playlist@);
        let listed = id_set(playlist);
        let all = recency_entries(&self.lru);
        let mut removed: Vec<String> = Vec::new();
        let mut i: usize = 0;
        proof {
            assert(start.take(0) =~= Seq::<Slot>::empty());
            assert(start.skip(0) =~= start);
            assert(keep_listed(start.take(0), ids) + start.skip(0) =~= start);
            assert(texts(removed@) =~= unlisted_paths(start.take(0), ids));
        }
        while i < all.len()
            invariant
                i <= all.len(),
                all@.len() == start.len(),
                forall|j: int| 0 <= j < all@.len() ==> slot_of(#[trigger] all@[j]) == start[j],
                ids == playlist_ids(playlist@),
                listed@ == ids,
                self.wf(),
                self.root() == old(self).root(),
                self.budget() == old(self).budget(),
                self.entries() == keep_listed(start.take(i as int), ids) + start.skip(i as int),
                texts(removed@) == unlisted_paths(start.take(i as int), ids),
            decreases all.len() - i,
        {
            let entry = &all[i];
            let ghost cur = self.entries();
            let ghost kept = keep_listed(start.take(i as int), ids);
            let ghost before = removed@;
            proof {
                assert(slot_of(all@[i as int]) == start[i as int]);
                assert(start.take(i + 1).drop_last() =~= start.take(i as int));
                assert(start.take(i + 1).last() == start[i as int]);
                assert(cur[kept.len() as int] == start[i as int]);
            }
            if listed.contains(entry.0.0.as_str()) {
                proof {
                    assert(kept.push(start[i as int]) + start.skip(i + 1) =~= cur);
                }
            } else {
                proof {
                    lemma_without_at(cur, start[i as int].0, kept.len() as int);
                    lemma_without_wf(cur, start[i as int].0);
                    assert(cur.take(kept.len() as int) + cur.skip(kept.len() as int + 1) =~= kept
                        + start.skip(i + 1));
                }
                let _ = recency_pop(&mut self.lru, entry.0.0.as_str(), entry.0.1.as_str());
                self.current_size = self.current_size - entry.1.1;
                removed.push(entry.1.0.clone());
                proof {
                    assert(texts(removed@) =~= texts(before).push(start[i as int].1.0));
                }
            }
            i = i + 1;
        }
        proof {
            assert(start.take(all.len() as int) =~= start);
            assert(start.skip(all.len() as int) =~= Seq::<Slot>::empty());
            assert(keep_listed(start, ids) + Seq::<Slot>::empty() =~= keep_listed(start, ids));
        }
        removed
    }
}

} // verus!
