//! Playlist entries, the kinds of asset that each entry can have, and the
//! planning of what to fetch for them.

use crate::cache::Cache;
use crate::recency::lookup;
use crate::text::{has_prefix, joined, option_text};
use vstd::hash_set::StringHashSet;
use vstd::prelude::*;
use vstd::string::*;

verus! {

/// One element of a device scope list.
#[derive(Debug, Clone, PartialEq, Eq)]
pub enum ScopeEntry {
    /// A device identifier.
    Device(String),
    /// Anything that is not a string, kept as its JSON text.
    Other(String),
}

/// The device scope of a playlist entry, as received.
#[derive(Debug, Clone, PartialEq, Eq)]
pub enum DeviceScopes {
    /// A list of entries: the entry is meant for the devices named in it,
    /// or for every device when the list is empty.
    List(Vec<ScopeEntry>),
    /// A value that is not a list, kept as its JSON text.
    Other(String),
}

/// A media item of the playlist.
#[derive(Debug, Clone, PartialEq, Eq)]
pub struct Media {
    /// The identifier that the remote source assigned.
    pub id: String,
    /// `"image"` or `"video"`.
    pub media_type: String,
    pub display_url: Option<String>,
    pub blur_url: Option<String>,
    pub video_url: Option<String>,
    pub poster_url: Option<String>,
    /// The declared duration in milliseconds.
    pub duration: Option<u64>,
    /// The tags of the item, kept as their JSON text.
    pub tags: Option<String>,
    pub device_scopes: Option<DeviceScopes>,
}

/// The identifiers of the entries of a playlist.
pub open spec fn playlist_ids(playlist: Seq<Media>) -> Set<Seq<char>> {
    Set::new(
        |id: Seq<char>|
            exists|i: int| 0 <= i < playlist.len() && (#[trigger] playlist[i]).id@ == id,
    )
}

/// Whether the playlist has an entry with the identifier `id`.
pub fn is_listed(playlist: &Vec<Media>, id: &str) -> (r: bool)
    ensures
        r == playlist_ids(playlist@).contains(id@),
{
    let mut i: usize = 0;
    while i < playlist.len()
        invariant
            i <= playlist.len(),
            forall|j: int| 0 <= j < i ==> (#[trigger] playlist@[j]).id@ != id@,
        decreases playlist.len() - i,
    {
        if crate::text::same_text(playlist[i].id.as_str(), id) {
            return true;
        }
        i = i + 1;
    }
    false
}

/// The set of the identifiers of the entries of a playlist.
pub fn id_set(playlist: &Vec<Media>) -> (r: StringHashSet)
    ensures
        r@ == playlist_ids(playlist@),
{
    let mut ids = StringHashSet::new();
    let mut i: usize = 0;
    assert(ids@ =~= playlist_ids(playlist@.take(0)));
    while i < playlist.len()
        invariant
            i <= playlist.len(),
            ids@ == playlist_ids(playlist@.take(i as int)),
        decreases playlist.len() - i,
    {
        let ghost before = playlist@.take(i as int);
        let ghost after = playlist@.take(i + 1);
        let _ = ids.insert(playlist[i].id.clone());
        proof {
            assert forall|id: Seq<char>| ids@.contains(id) <==> playlist_ids(after).contains(
                id,
            ) by {
                if playlist_ids(after).contains(id) {
                    let k = choose|k: int| 0 <= k < after.len() && (#[trigger] after[k]).id@ == id;
                    if k < i {
                        assert(before[k].id@ == id);
                    }
                }
                if playlist_ids(before).contains(id) {
                    let k = choose|k: int|
                        0 <= k < before.len() && (#[trigger] before[k]).id@ == id;
                    assert(after[k].id@ == id);
                }
                if id == playlist@[i as int].id@ {
                    assert(after[i as int].id@ == id);
                }
            }
            assert(ids@ =~= playlist_ids(after));
        }
        i = i + 1;
    }
    assert(playlist@.take(playlist.len() as int) =~= playlist@);
    ids
}

impl Media {
    /// Whether the item's type is `"video"`.
    pub open spec fn spec_is_video(&self) -> bool {
        self.media_type@ == "video"@
    }

    /// Check if this is a video media type.
    #[verifier::when_used_as_spec(spec_is_video)]
    pub fn is_video(&self) -> (r: bool)
        ensures
            r == self.spec_is_video(),
    {
        crate::text::same_text(self.media_type.as_str(), "video")
    }

    /// The address that the item declares for `kind`, if it declares one.
    pub open spec fn spec_url_for(&self, kind: AssetType) -> Option<String> {
        match kind {
            AssetType::Display => self.display_url,
            AssetType::Blur => self.blur_url,
            AssetType::Video => self.video_url,
            AssetType::Poster => self.poster_url,
        }
    }

    /// The address that the item declares for `kind`, if it declares one.
    pub fn url_for(&self, kind: AssetType) -> (r: Option<&String>)
        ensures
            r == match self.spec_url_for(kind) {
                Some(u) => Some(&u),
                None => None,
            },
    {
        match kind {
            AssetType::Display => self.display_url.as_ref(),
            AssetType::Blur => self.blur_url.as_ref(),
            AssetType::Video => self.video_url.as_ref(),
            AssetType::Poster => self.poster_url.as_ref(),
        }
    }
}

/// Asset types that can be cached.
#[derive(Debug, Clone, Copy, PartialEq, Eq, Hash, Structural)]
pub enum AssetType {
    Display,
    Blur,
    Video,
    Poster,
}

/// The name under which files of a kind are stored.
pub open spec fn kind_name(kind: AssetType) -> Seq<char> {
    match kind {
        AssetType::Display => "display"@,
        AssetType::Blur => "blur"@,
        AssetType::Video => "video"@,
        AssetType::Poster => "poster"@,
    }
}

/// The file extension of a kind: `mp4` for video, `jpg` for the image kinds.
pub open spec fn kind_extension(kind: AssetType) -> Seq<char> {
    match kind {
        AssetType::Video => "mp4"@,
        _ => "jpg"@,
    }
}

impl AssetType {
    /// The name under which files of this kind are stored.
    pub fn as_str(&self) -> (r: &'static str)
        ensures
            r@ == kind_name(*self),
    {
        match self {
            AssetType::Display => "display",
            AssetType::Blur => "blur",
            AssetType::Video => "video",
            AssetType::Poster => "poster",
        }
    }

    /// The file extension of this kind.
    pub fn extension(&self) -> (r: &'static str)
        ensures
            r@ == kind_extension(*self),
    {
        match self {
            AssetType::Display | AssetType::Blur | AssetType::Poster => "jpg",
            AssetType::Video => "mp4",
        }
    }
}

/// The address of an asset: `url` itself where it is an absolute `http` or
/// `https` address, else `url` appended to the base address.
pub open spec fn absolute_url(base: Seq<char>, url: Seq<char>) -> Seq<char> {
    if "http://"@.is_prefix_of(url) || "https://"@.is_prefix_of(url) {
        url
    } else {
        base + url
    }
}

/// The path that the cache has for an asset.
pub open spec fn cached_path(cache: Cache, media_id: Seq<char>, kind: AssetType) -> Option<
    Seq<char>,
> {
    match lookup(cache.entries(), (media_id, kind_name(kind))) {
        Some(v) => Some(v.0),
        None => None,
    }
}

/// The kinds of asset that an item needs: the display image and the blurred
/// background, and for a video also the poster and the video itself.
pub open spec fn wanted_kinds(is_video: bool) -> Seq<AssetType> {
    if is_video {
        seq![AssetType::Display, AssetType::Blur, AssetType::Poster, AssetType::Video]
    } else {
        seq![AssetType::Display, AssetType::Blur]
    }
}

/// The kind of asset that stands for an item on screen: the poster of a
/// video, the display image of anything else.
pub open spec fn shown_kind(is_video: bool) -> AssetType {
    if is_video {
        AssetType::Poster
    } else {
        AssetType::Display
    }
}

/// What is to be done to have an asset in the cache.
#[derive(Debug, Clone, PartialEq, Eq)]
pub enum CacheStep {
    /// Nothing: the item has no asset of this kind.
    Absent,
    /// Nothing: the file is in the cache, at this path.
    Cached(String),
    /// The asset is to be downloaded from this address.
    Download(String),
}

/// A step as the contracts see it.
pub enum CacheStepView {
    Absent,
    Cached(Seq<char>),
    Download(Seq<char>),
}

impl View for CacheStep {
    type V = CacheStepView;

    open spec fn view(&self) -> CacheStepView {
        match *self {
            CacheStep::Absent => CacheStepView::Absent,
            CacheStep::Cached(p) => CacheStepView::Cached(p@),
            CacheStep::Download(u) => CacheStepView::Download(u@),
        }
    }
}

/// The step for an asset with the declared address `url`, of which the cache
/// has the path `cached`; `on_disk` says whether the file at that path exists.
pub open spec fn cache_step(
    base: Seq<char>,
    url: Option<Seq<char>>,
    cached: Option<Seq<char>>,
    on_disk: bool,
) -> CacheStepView {
    match url {
        None => CacheStepView::Absent,
        Some(u) => match cached {
            Some(p) => if on_disk {
                CacheStepView::Cached(p)
            } else {
                CacheStepView::Download(absolute_url(base, u))
            },
            None => CacheStepView::Download(absolute_url(base, u)),
        },
    }
}

/// The cached files to show an item with.
#[derive(Debug, Clone, PartialEq, Eq)]
pub struct TextureSources {
    /// The path of the blurred background, if it is cached.
    pub blur: Option<String>,
    /// The path of the main image, if it is cached: the poster of a video,
    /// the display image of anything else.
    pub display: Option<String>,
}

/// Manages asset loading and preloading.
pub struct AssetManager {
    pb_url: String,
}

impl AssetManager {
    /// The base address of the remote source.
    pub closed spec fn base(&self) -> Seq<char> {
        self.pb_url@
    }

    /// Create a new asset manager.
    pub fn new(pb_url: String) -> (r: Self)
        ensures
            r.base() == pb_url@,
    {
        AssetManager { pb_url }
    }

    /// Get the full URL for an asset.
    pub fn full_url(&self, relative_url: &str) -> (r: String)
        ensures
            r@ == absolute_url(self.base(), relative_url@),
    {
        if has_prefix(relative_url, "http://") || has_prefix(relative_url, "https://") {
            relative_url.to_owned()
        } else {
            joined(self.pb_url.as_str(), relative_url)
        }
    }

    /// Decide how an asset gets into the cache. `on_disk` says whether the
    /// file that the cache has for the asset exists; it counts for nothing
    /// where the cache has none.
    pub fn ensure_cached(
        &self,
        media: &Media,
        asset_type: AssetType,
        cache: &Cache,
        on_disk: bool,
    ) -> (r: CacheStep)
        ensures
            r@ == cache_step(
                self.base(),
                option_text(media.spec_url_for(asset_type)),
                cached_path(*cache, media.id@, asset_type),
                on_disk,
            ),
    {
        let url = match media.url_for(asset_type) {
            Some(url) => url,
            None => {
                return CacheStep::Absent;
            },
        };
        match cache.get_cached_path(media.id.as_str(), asset_type) {
            Some(path) => {
                if on_disk {
                    return CacheStep::Cached(path);
                }
            },
            None => {},
        }
        CacheStep::Download(self.full_url(url.as_str()))
    }

    /// The kinds of asset to fetch for a media item, in the order of
    /// fetching. The fetches are independent: a failure of one does not
    /// keep the others from being tried.
    pub fn preload_media(&self, media: &Media) -> (r: Vec<AssetType>)
        ensures
            r@ == wanted_kinds(media.spec_is_video()),
    {
        let mut kinds: Vec<AssetType> = Vec::new();
        kinds.push(AssetType::Display);
        kinds.push(AssetType::Blur);
        if media.is_video() {
            kinds.push(AssetType::Poster);
            kinds.push(AssetType::Video);
        }
        assert(kinds@ =~= wanted_kinds(media.spec_is_video()));
        kinds
    }

    /// The cached files to load the textures of a media item from.
    pub fn load_textures(&self, media: &Media, cache: &Cache) -> (r: TextureSources)
        ensures
            option_text(r.blur) == cached_path(*cache, media.id@, AssetType::Blur),
            option_text(r.display) == cached_path(
                *cache,
                media.id@,
                shown_kind(media.spec_is_video()),
            ),
    {
        let blur = cache.get_cached_path(media.id.as_str(), AssetType::Blur);
        let display_asset = if media.is_video() {
            AssetType::Poster
        } else {
            AssetType::Display
        };
        let display = cache.get_cached_path(media.id.as_str(), display_asset);
        TextureSources { blur, display }
    }
}

/// How many entries a look-ahead of `count` visits, starting after the
/// entry at `current`: it stops where it would come round to `current`.
pub open spec fn upcoming_len(len: nat, current: nat, count: nat) -> nat {
    if current < len && count >= len {
        (len - 1) as nat
    } else {
        count
    }
}

/// The positions that a look-ahead of `count` visits in a playlist of `len`
/// entries, starting after the entry at `current` and wrapping round.
pub open spec fn upcoming(len: nat, current: nat, count: nat) -> Seq<int> {
    Seq::new(upcoming_len(len, current, count), |j: int| (current + j + 1) % (len as int))
}

/// Background preloader that downloads assets ahead of time.
pub struct Preloader {
    asset_manager: AssetManager,
}

impl Preloader {
    /// The base address of the remote source.
    pub closed spec fn base(&self) -> Seq<char> {
        self.asset_manager.base()
    }

    /// Create a new preloader.
    pub fn new(asset_manager: AssetManager) -> (r: Self)
        ensures
            r.base() == asset_manager.base(),
    {
        Preloader { asset_manager }
    }

    /// The asset manager that the preloader fetches with.
    pub fn asset_manager(&self) -> (r: &AssetManager)
        ensures
            r.base() == self.base(),
    {
        &self.asset_manager
    }

    /// The positions of the next `count` items in the playlist to preload,
    /// in the order of preloading.
    pub fn preload_next(&self, playlist: &Vec<Media>, current_index: usize, count: usize) -> (r:
        Vec<usize>)
        requires
            playlist@.len() > 0,
        ensures
            r@.len() == upcoming(playlist@.len(), current_index as nat, count as nat).len(),
            forall|j: int|
                0 <= j < r@.len() ==> r@[j] == upcoming(
                    playlist@.len(),
                    current_index as nat,
                    count as nat,
                )[j],
    {
        let len: usize = playlist.len();
        let mut out: Vec<usize> = Vec::new();
        let mut next: usize = current_index % len;
        let mut i: usize = 0;
        while i < count
            invariant_except_break
                next == (current_index + i) % (len as int),
            invariant
                len == playlist@.len(),
                len > 0,
                i <= count,
                current_index < len ==> i < len,
                out@.len() == i,
                forall|j: int| 0 <= j < i ==> out@[j] == (current_index + j + 1) % (len as int),
            ensures
                out@.len() == upcoming_len(len as nat, current_index as nat, count as nat),
                forall|j: int|
                    0 <= j < out@.len() ==> out@[j] == (current_index + j + 1) % (len as int),
            decreases count - i,
        {
            proof {
                lemma_next_position(len as int, current_index as int, i as int);
            }
            next = if next + 1 == len {
                0
            } else {
                next + 1
            };
            if next == current_index {
                proof {
                    lemma_wraps_at(len as int, current_index as int, i as int);
                }
                break ;
            }
            proof {
                if current_index < len && i + 1 == len {
                    lemma_full_round(len as int, current_index as int);
                }
            }
            out.push(next);
            i = i + 1;
        }
        out
    }

    /// The positions of all items of the playlist, in the order of
    /// preloading: from the first to the last.
    pub fn preload_all(&self, playlist: &Vec<Media>) -> (r: Vec<usize>)
        ensures
            r@.len() == playlist@.len(),
            forall|j: int| 0 <= j < r@.len() ==> r@[j] == j,
    {
        let mut out: Vec<usize> = Vec::new();
        let mut i: usize = 0;
        while i < playlist.len()
            invariant
                i <= playlist.len(),
                out@.len() == i,
                forall|j: int| 0 <= j < i ==> out@[j] == j,
            decreases playlist.len() - i,
        {
            out.push(i);
            i = i + 1;
        }
        out
    }
}

/// One step further round the playlist.
proof fn lemma_next_position(len: int, current: int, i: int)
    requires
        len > 0,
        current >= 0,
        i >= 0,
    ensures
        (current + i + 1) % len == if (current + i) % len + 1 == len {
            0
        } else {
            (current + i) % len + 1
        },
{
    vstd::arithmetic::div_mod::lemma_fundamental_div_mod(current + i, len);
    vstd::arithmetic::div_mod::lemma_mod_bound(current + i, len);
    let q = (current + i) / len;
    let r = (current + i) % len;
    if r + 1 == len {
        assert(current + i + 1 == len * (q + 1)) by (nonlinear_arith)
            requires
                current + i == len * q + r,
                r + 1 == len,
        ;
        vstd::arithmetic::div_mod::lemma_mod_multiples_basic(q + 1, len);
        assert(len * (q + 1) == (q + 1) * len) by (nonlinear_arith);
    } else {
        assert(q * len == len * q) by (nonlinear_arith);
        vstd::arithmetic::div_mod::lemma_fundamental_div_mod_converse(
            current + i + 1,
            len,
            q,
            r + 1,
        );
    }
}

/// The look-ahead comes round to a valid cursor after a full round, and no
/// earlier.
proof fn lemma_wraps_at(len: int, current: int, i: int)
    requires
        len > 0,
        current >= 0,
        0 <= i,
        current < len ==> i < len,
        (current + i + 1) % len == current,
    ensures
        current < len,
        i + 1 == len,
{
    vstd::arithmetic::div_mod::lemma_mod_bound(current + i + 1, len);
    vstd::arithmetic::div_mod::lemma_fundamental_div_mod(current + i + 1, len);
    let q = (current + i + 1) / len;
    assert(i + 1 == len * q);
    if q <= 0 {
        assert(len * q <= 0) by (nonlinear_arith)
            requires
                q <= 0,
                len > 0,
        ;
    }
    if q >= 2 {
        assert(len * q >= 2 * len) by (nonlinear_arith)
            requires
                q >= 2,
                len > 0,
        ;
    }
    assert(q == 1);
    assert(len * q == len) by (nonlinear_arith)
        requires
            q == 1,
    ;
}

/// A full round from a valid cursor ends at the cursor.
proof fn lemma_full_round(len: int, current: int)
    requires
        len > 0,
        0 <= current < len,
    ensures
        (current + len) % len == current,
{
    vstd::arithmetic::div_mod::lemma_fundamental_div_mod_converse(current + len, len, 1, current);
}

/// A look-ahead from a valid cursor visits fewer entries than the playlist
/// has, never the entry at the cursor, and no entry twice.
pub proof fn lemma_upcoming_skips_current(len: nat, current: nat, count: nat)
    requires
        current < len,
    ensures
        upcoming(len, current, count).len() <= len - 1,
        upcoming(len, current, count).len() <= count,
        forall|j: int|
            0 <= j < upcoming(len, current, count).len() ==> 0 <= #[trigger] upcoming(
                len,
                current,
                count,
            )[j] < len,
        forall|j: int|
            0 <= j < upcoming(len, current, count).len() ==> #[trigger] upcoming(
                len,
                current,
                count,
            )[j] != current,
        forall|j: int, k: int|
            0 <= j < k < upcoming(len, current, count).len() ==> #[trigger] upcoming(
                len,
                current,
                count,
            )[j] != #[trigger] upcoming(len, current, count)[k],
{
    let u = upcoming(len, current, count);
    assert forall|j: int| 0 <= j < u.len() implies 0 <= #[trigger] u[j] < len && u[j]
        != current by {
        lemma_position(len as int, current as int, j + 1);
    }
    assert forall|j: int, k: int| 0 <= j < k < u.len() implies #[trigger] u[j] != #[trigger] u[k] by {
        lemma_position(len as int, current as int, j + 1);
        lemma_position(len as int, current as int, k + 1);
    }
}

/// The position `step` entries after a valid cursor, for less than a full
/// round.
proof fn lemma_position(len: int, current: int, step: int)
    requires
        0 <= current < len,
        0 < step < len,
    ensures
        (current + step) % len == if current + step < len {
            current + step
        } else {
            current + step - len
        },
{
    if current + step < len {
        vstd::arithmetic::div_mod::lemma_fundamental_div_mod_converse(
            current + step,
            len,
            0,
            current + step,
        );
    } else {
        vstd::arithmetic::div_mod::lemma_fundamental_div_mod_converse(
            current + step,
            len,
            1,
            current + step - len,
        );
    }
}

} // verus!
