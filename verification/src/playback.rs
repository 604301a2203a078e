//! The playback orchestrator: the playlist and its cursor, how the playlist
//! is fetched and kept in step with the remote source, which credential is
//! used, and when the display moves on to the next entry.
//!
//! Requests, timers and the persistent snapshot are handled by the caller,
//! who hands their outcomes in and carries out what comes back.

use crate::addresses::{encode, percent_encoded};
use crate::assets::{
    cached_path, is_listed, kind_name, playlist_ids, shown_kind, AssetType, Media, TextureSources,
};
use crate::cache::{Cache, CacheStats, GIB};
use crate::cache_model::{keep_listed, unlisted_paths};
use crate::recency::promoted;
use crate::realtime::RealtimeEvent;
use crate::renderer::{OverlayInfo, Transition, UserAction};
use crate::text::{joined, option_text, same_text, texts};
use vstd::prelude::*;
use vstd::string::*;

verus! {

/// The longest wait between two attempts to fetch the playlist, in seconds.
pub const MAX_BACKOFF_SECS: u64 = 60;

/// The configuration values that playback works with. Durations are in
/// milliseconds.
#[derive(Debug, Clone, PartialEq, Eq)]
pub struct AppConfig {
    /// Base URL of the remote source.
    pub pb_url: String,
    /// Slide display interval.
    pub interval_ms: u64,
    /// Transition type: fade, crossfade, cut.
    pub transition: String,
    /// Transition duration.
    pub transition_duration_ms: u32,
    /// Local cache directory for downloaded assets.
    pub cache_dir: String,
    /// Maximum cache size in GB.
    pub cache_size_limit_gb: u64,
    /// Optional device ID for device-specific playlisting.
    pub device_id: Option<String>,
    /// Optional device API key for authentication.
    pub device_api_key: Option<String>,
    /// Static token for the remote source.
    pub auth_token: Option<String>,
    /// Identity to log in with.
    pub auth_email: Option<String>,
    /// Password to log in with.
    pub auth_password: Option<String>,
    /// Enable realtime subscription.
    pub enable_realtime: bool,
    /// A video shorter than this loops.
    pub video_loop_threshold_ms: u64,
    /// Shuffle playlist order.
    pub shuffle: bool,
    /// Preload all media on startup.
    pub full_sync: bool,
}

/// The credentials that are configured. An empty text counts as none.
#[derive(Debug, Clone, PartialEq, Eq)]
pub struct AuthCreds {
    pub email: Option<String>,
    pub password: Option<String>,
    pub token: Option<String>,
    pub device_api_key: Option<String>,
}

/// A configured text, or none where it is missing or empty.
pub open spec fn non_empty(o: Option<String>) -> Option<Seq<char>> {
    match o {
        Some(s) => if s@.len() > 0 {
            Some(s@)
        } else {
            None
        },
        None => None,
    }
}

/// A copy of a configured text that is not empty.
fn filled(o: &Option<String>) -> (r: Option<String>)
    ensures
        option_text(r) == non_empty(*o),
{
    match o {
        Some(s) => {
            if s.as_str().unicode_len() > 0 {
                Some(s.clone())
            } else {
                None
            }
        },
        None => None,
    }
}

/// The byte budget for a size limit in gigabytes, where it fits the counter.
pub open spec fn budget_of(limit_gb: u64) -> Option<u64> {
    if limit_gb * GIB <= u64::MAX {
        Some((limit_gb * GIB) as u64)
    } else {
        None
    }
}

impl AppConfig {
    /// The byte budget of the cache: the configured limit in bytes. There
    /// is none where the limit is beyond what the byte counter holds.
    pub fn cache_budget(&self) -> (r: Option<u64>)
        ensures
            r == budget_of(self.cache_size_limit_gb),
    {
        self.cache_size_limit_gb.checked_mul(GIB)
    }

    /// The credentials of this configuration, empty texts left out.
    pub fn to_auth_creds(&self) -> (r: AuthCreds)
        ensures
            option_text(r.token) == non_empty(self.auth_token),
            option_text(r.email) == non_empty(self.auth_email),
            option_text(r.password) == non_empty(self.auth_password),
            option_text(r.device_api_key) == non_empty(self.device_api_key),
    {
        AuthCreds {
            token: filled(&self.auth_token),
            email: filled(&self.auth_email),
            password: filled(&self.auth_password),
            device_api_key: filled(&self.device_api_key),
        }
    }
}

/// Where a bearer token comes from.
#[derive(Debug, Clone, PartialEq, Eq)]
pub enum TokenSource {
    /// This token is used as it is.
    Ready(String),
    /// A token is obtained by logging in.
    Login { identity: String, password: String },
    /// There is no credential.
    Unavailable,
}

/// A token source as the contracts see it.
pub enum TokenSourceView {
    Ready(Seq<char>),
    Login { identity: Seq<char>, password: Seq<char> },
    Unavailable,
}

impl View for TokenSource {
    type V = TokenSourceView;

    open spec fn view(&self) -> TokenSourceView {
        match *self {
            TokenSource::Ready(t) => TokenSourceView::Ready(t@),
            TokenSource::Login { identity, password } => TokenSourceView::Login {
                identity: identity@,
                password: password@,
            },
            TokenSource::Unavailable => TokenSourceView::Unavailable,
        }
    }
}

/// The source of a fresh token: the device key outranks the static token,
/// which outranks a login.
pub open spec fn refreshed_source(creds: AuthCreds) -> TokenSourceView {
    match (creds.device_api_key, creds.token, creds.email, creds.password) {
        (Some(key), _, _, _) => TokenSourceView::Ready(key@),
        (None, Some(token), _, _) => TokenSourceView::Ready(token@),
        (None, None, Some(identity), Some(password)) => TokenSourceView::Login {
            identity: identity@,
            password: password@,
        },
        _ => TokenSourceView::Unavailable,
    }
}

/// The source of the first token: the static token where there is one, else
/// what a refresh gives where a login is possible, else none.
pub open spec fn initial_source(creds: AuthCreds) -> TokenSourceView {
    match creds.token {
        Some(token) => TokenSourceView::Ready(token@),
        None => if creds.spec_can_login() {
            refreshed_source(creds)
        } else {
            TokenSourceView::Unavailable
        },
    }
}

impl AuthCreds {
    /// Whether identity and password are both there.
    pub open spec fn spec_can_login(&self) -> bool {
        self.email is Some && self.password is Some
    }

    /// Whether identity and password are both there.
    #[verifier::when_used_as_spec(spec_can_login)]
    pub fn can_login(&self) -> (r: bool)
        ensures
            r == self.spec_can_login(),
    {
        self.email.is_some() && self.password.is_some()
    }

    /// Where a fresh token comes from.
    pub fn refresh_token(&self) -> (r: TokenSource)
        ensures
            r@ == refreshed_source(*self),
    {
        match &self.device_api_key {
            Some(key) => {
                return TokenSource::Ready(key.clone());
            },
            None => {},
        }
        match &self.token {
            Some(token) => {
                return TokenSource::Ready(token.clone());
            },
            None => {},
        }
        match (&self.email, &self.password) {
            (Some(identity), Some(password)) => TokenSource::Login {
                identity: identity.clone(),
                password: password.clone(),
            },
            _ => TokenSource::Unavailable,
        }
    }

    /// Where the initial token comes from.
    pub fn init_auth(&self) -> (r: TokenSource)
        ensures
            r@ == initial_source(*self),
    {
        match &self.token {
            Some(token) => TokenSource::Ready(token.clone()),
            None => {
                if self.can_login() {
                    self.refresh_token()
                } else {
                    TokenSource::Unavailable
                }
            },
        }
    }
}

/// Why a request did not give what was asked for.
#[derive(Debug, Clone, Copy, PartialEq, Eq, Structural)]
pub enum FetchError {
    /// The connection failed or timed out.
    Transfer,
    /// The response had this status, which is no success.
    Status(u16),
    /// The response could not be decoded.
    Decode,
    /// The file system refused.
    Storage,
}

/// What came of a request for the playlist.
#[derive(Debug, PartialEq, Eq)]
pub enum FetchOutcome {
    /// The remote source answered with this playlist.
    Fetched(Vec<Media>),
    /// The request failed; `snapshot` is what reading the persisted
    /// snapshot gave.
    Failed { error: FetchError, snapshot: Result<Vec<Media>, FetchError> },
}

/// What to do about the response to a request.
#[derive(Debug, Clone, PartialEq, Eq)]
pub enum AuthStep {
    /// The response stands: decode it.
    Proceed,
    /// Send the request once more with this token.
    Retry(String),
    /// Log in, put the token in place with `set_token`, and send the request
    /// once more with it.
    Login { identity: String, password: String },
    /// Give up: the request was not authorized and nothing is left to try.
    GiveUp,
}

/// A step as the contracts see it.
pub enum AuthStepView {
    Proceed,
    Retry(Seq<char>),
    Login { identity: Seq<char>, password: Seq<char> },
    GiveUp,
}

impl View for AuthStep {
    type V = AuthStepView;

    open spec fn view(&self) -> AuthStepView {
        match *self {
            AuthStep::Proceed => AuthStepView::Proceed,
            AuthStep::Retry(t) => AuthStepView::Retry(t@),
            AuthStep::Login { identity, password } => AuthStepView::Login {
                identity: identity@,
                password: password@,
            },
            AuthStep::GiveUp => AuthStepView::GiveUp,
        }
    }
}

/// The step after a response: an authorized response stands, an
/// unauthorized one is answered with a fresh token where one can be had.
pub open spec fn auth_step(unauthorized: bool, creds: AuthCreds) -> AuthStepView {
    if !unauthorized {
        AuthStepView::Proceed
    } else {
        match refreshed_source(creds) {
            TokenSourceView::Ready(t) => AuthStepView::Retry(t),
            TokenSourceView::Login { identity, password } => AuthStepView::Login {
                identity,
                password,
            },
            TokenSourceView::Unavailable => AuthStepView::GiveUp,
        }
    }
}

/// What to do after an attempt to fetch the initial playlist.
#[derive(Debug, Clone, PartialEq, Eq)]
pub enum RetryStep {
    /// The playlist is there.
    Done(Vec<Media>),
    /// Wait `secs` seconds, then make the attempt numbered `attempt`.
    Wait { secs: u64, attempt: u32 },
    /// No attempt is left; this was the last error.
    GiveUp(FetchError),
}

/// The seconds to wait before the attempt numbered `attempt`, the first
/// attempt being number 0: nothing before the first, one second before the
/// second, then twice as long each time, and never more than
/// `MAX_BACKOFF_SECS`.
pub open spec fn backoff(attempt: nat) -> nat
    decreases attempt,
{
    if attempt == 0 {
        0
    } else if attempt == 1 {
        1
    } else if 2 * backoff((attempt - 1) as nat) > MAX_BACKOFF_SECS {
        MAX_BACKOFF_SECS as nat
    } else {
        2 * backoff((attempt - 1) as nat)
    }
}

/// The step after the attempt numbered `attempt`, the first attempt being
/// number 0: a playlist ends the matter; after a failure another attempt
/// follows a wait, unless `max_attempts` attempts were made.
pub open spec fn retry_step(
    attempt: u32,
    max_attempts: u32,
    result: Result<Vec<Media>, FetchError>,
) -> RetryStep {
    match result {
        Ok(playlist) => RetryStep::Done(playlist),
        Err(e) => if attempt + 1 < max_attempts {
            RetryStep::Wait {
                secs: backoff((attempt + 1) as nat) as u64,
                attempt: (attempt + 1) as u32,
            }
        } else {
            RetryStep::GiveUp(e)
        },
    }
}

/// The filter for published media, with a device id narrowed to the
/// device's scope.
pub open spec fn filter_for(device: Option<Seq<char>>) -> Seq<char> {
    match device {
        Some(d) => "(status='published') && (deviceScopes~'\""@ + d
            + "\"' || deviceScopes = [] || deviceScopes = null)"@,
        None => "status='published'"@,
    }
}

/// The address of the list request for a filter in percent-encoded form.
pub open spec fn list_url(base: Seq<char>, encoded: Seq<char>) -> Seq<char> {
    base + "/api/collections/media/records?filter="@ + encoded + "&perPage=500&sort=-created"@
}

/// The address of the login request.
pub open spec fn login_url(base: Seq<char>) -> Seq<char> {
    base + "/api/collections/users/auth-with-password"@
}

/// The position of the first entry with the identifier `id`, or the length
/// of the playlist where there is none.
pub open spec fn first_with_id(playlist: Seq<Media>, id: Seq<char>) -> int
    decreases playlist.len(),
{
    if playlist.len() == 0 {
        0
    } else if playlist[0].id@ == id {
        0
    } else {
        1 + first_with_id(playlist.drop_first(), id)
    }
}

/// The entries whose identifier is not `id`, in their order.
pub open spec fn without_id(playlist: Seq<Media>, id: Seq<char>) -> Seq<Media>
    decreases playlist.len(),
{
    if playlist.len() == 0 {
        playlist
    } else if playlist.last().id@ == id {
        without_id(playlist.drop_last(), id)
    } else {
        without_id(playlist.drop_last(), id).push(playlist.last())
    }
}

/// The playlist after a realtime event: a created item is appended unless
/// its identifier is there already; an updated item replaces the first entry
/// with its identifier, or is appended where there is none; a deleted
/// identifier takes all its entries away; the other events change nothing.
pub open spec fn applied(playlist: Seq<Media>, event: RealtimeEvent) -> Seq<Media> {
    match event {
        RealtimeEvent::MediaCreated(m) => if playlist_ids(playlist).contains(m.id@) {
            playlist
        } else {
            playlist.push(m)
        },
        RealtimeEvent::MediaUpdated(m) => if first_with_id(playlist, m.id@) < playlist.len() {
            playlist.update(first_with_id(playlist, m.id@), m)
        } else {
            playlist.push(m)
        },
        RealtimeEvent::MediaDeleted(id) => without_id(playlist, id@),
        _ => playlist,
    }
}

/// What the caller is to do after a realtime event was applied.
#[derive(Debug, Clone, Copy, PartialEq, Eq, Structural)]
pub enum Effect {
    /// Nothing.
    Nothing,
    /// Fetch the playlist anew; on success persist it, sweep the cache for
    /// orphans and put it in place.
    Refresh,
    /// Persist the playlist snapshot. A failure to do so is not an error.
    Persist,
}

/// The effect of a realtime event.
pub open spec fn effect_of(event: RealtimeEvent) -> Effect {
    match event {
        RealtimeEvent::Connected => Effect::Nothing,
        RealtimeEvent::Disconnected => Effect::Nothing,
        RealtimeEvent::RefreshNeeded => Effect::Refresh,
        _ => Effect::Persist,
    }
}

/// The cursor after an advance in a playlist of `len` entries.
pub open spec fn next_index(len: nat, index: nat) -> nat {
    ((index + 1) as int % (len as int)) as nat
}

/// The cursor after a step back in a playlist of `len` entries.
pub open spec fn previous_index(len: nat, index: nat) -> nat {
    if index == 0 {
        (len - 1) as nat
    } else {
        (index - 1) as nat
    }
}

/// Application state: the playlist, the cursor, the token and whether the
/// remote source is out of reach.
pub struct AppState {
    config: AppConfig,
    auth_token: Option<String>,
    playlist: Vec<Media>,
    current_index: usize,
    is_offline: bool,
}

impl AppState {
    /// The configuration.
    pub closed spec fn settings(&self) -> AppConfig {
        self.config
    }

    /// The bearer token in use.
    pub closed spec fn credential(&self) -> Option<String> {
        self.auth_token
    }

    /// The playlist in playback order.
    pub closed spec fn entries(&self) -> Seq<Media> {
        self.playlist@
    }

    /// The position of the entry that is shown.
    pub closed spec fn cursor(&self) -> nat {
        self.current_index as nat
    }

    /// Whether the playlist comes from the snapshot because the remote
    /// source is out of reach.
    pub closed spec fn offline(&self) -> bool {
        self.is_offline
    }

    /// Everything but the playlist stays as it is.
    pub open spec fn same_but_entries(&self, other: &Self) -> bool {
        &&& self.settings() == other.settings()
        &&& self.credential() == other.credential()
        &&& self.cursor() == other.cursor()
        &&& self.offline() == other.offline()
    }

    /// A state with an empty playlist, no token, and the cursor at the
    /// start.
    pub fn new(config: AppConfig) -> (r: Self)
        ensures
            r.settings() == config,
            r.credential() is None,
            r.entries() == Seq::<Media>::empty(),
            r.cursor() == 0,
            !r.offline(),
    {
        AppState {
            config,
            auth_token: None,
            playlist: Vec::new(),
            current_index: 0,
            is_offline: false,
        }
    }

    /// The configuration.
    pub fn config(&self) -> (r: &AppConfig)
        ensures
            *r == self.settings(),
    {
        &self.config
    }

    /// Get the current auth token.
    pub fn token(&self) -> (r: Option<String>)
        ensures
            r == self.credential(),
    {
        match &self.auth_token {
            Some(t) => Some(t.clone()),
            None => None,
        }
    }

    /// Put a token in place.
    pub fn set_token(&mut self, token: Option<String>)
        ensures
            final(self).credential() == token,
            final(self).settings() == old(self).settings(),
            final(self).entries() == old(self).entries(),
            final(self).cursor() == old(self).cursor(),
            final(self).offline() == old(self).offline(),
    {
        self.auth_token = token;
    }

    /// The playlist.
    pub fn playlist(&self) -> (r: &Vec<Media>)
        ensures
            r@ == self.entries(),
    {
        &self.playlist
    }

    /// Put a playlist in place.
    pub fn set_playlist(&mut self, playlist: Vec<Media>)
        ensures
            final(self).entries() == playlist@,
            final(self).same_but_entries(old(self)),
    {
        self.playlist = playlist;
    }

    /// The position of the entry that is shown.
    pub fn current_index(&self) -> (r: usize)
        ensures
            r == self.cursor(),
    {
        self.current_index
    }

    /// Whether the remote source is out of reach.
    pub fn is_offline(&self) -> (r: bool)
        ensures
            r == self.offline(),
    {
        self.is_offline
    }

    /// Build the filter string for media queries.
    pub fn build_filter(&self) -> (r: String)
        ensures
            r@ == filter_for(option_text(self.settings().device_id)),
    {
        match &self.config.device_id {
            Some(device_id) => {
                let mut s = joined(
                    "(status='published') && (deviceScopes~'\"",
                    device_id.as_str(),
                );
                s.append("\"' || deviceScopes = [] || deviceScopes = null)");
                s
            },
            None => "status='published'".to_owned(),
        }
    }

    /// The address of the request that lists the published media: the
    /// filter goes into the query in percent-encoded form.
    pub fn playlist_url(&self) -> (r: String)
        ensures
            r@ == list_url(
                self.settings().pb_url@,
                percent_encoded(
                    vstd::utf8::encode_utf8(filter_for(option_text(self.settings().device_id))),
                ),
            ),
    {
        let filter = self.build_filter();
        let encoded = encode(filter.as_str());
        let mut s = joined(self.config.pb_url.as_str(), "/api/collections/media/records?filter=");
        s.append(encoded.as_str());
        s.append("&perPage=500&sort=-created");
        s
    }

    /// The address of the request that logs in.
    pub fn login_url(&self) -> (r: String)
        ensures
            r@ == login_url(self.settings().pb_url@),
    {
        joined(self.config.pb_url.as_str(), "/api/collections/users/auth-with-password")
    }

    /// Take the outcome of a request for the playlist. A fetched playlist
    /// is returned as it is. After a failure the persisted snapshot stands
    /// in, unless it is empty, and the state is marked offline.
    pub fn fetch_playlist(&mut self, outcome: FetchOutcome) -> (r: Result<Vec<Media>, FetchError>)
        ensures
            final(self).settings() == old(self).settings(),
            final(self).credential() == old(self).credential(),
            final(self).entries() == old(self).entries(),
            final(self).cursor() == old(self).cursor(),
            final(self).offline() == (outcome is Failed),
            r == match outcome {
                FetchOutcome::Fetched(playlist) => Ok(playlist),
                FetchOutcome::Failed { error, snapshot } => match snapshot {
                    Ok(cached) => if cached@.len() > 0 {
                        Ok(cached)
                    } else {
                        Err(error)
                    },
                    Err(e) => Err(e),
                },
            },
    {
        match outcome {
            FetchOutcome::Fetched(playlist) => {
                self.is_offline = false;
                Ok(playlist)
            },
            FetchOutcome::Failed { error, snapshot } => {
                self.is_offline = true;
                match snapshot {
                    Ok(cached) => {
                        if cached.len() > 0 {
                            Ok(cached)
                        } else {
                            Err(error)
                        }
                    },
                    Err(e) => Err(e),
                }
            },
        }
    }

    /// Decide what to do about the response to a request: on an
    /// unauthorized response the request is retried once with a fresh
    /// token, which is put in place where it is at hand.
    pub fn fetch_with_retry(&mut self, unauthorized: bool, creds: &AuthCreds) -> (r: AuthStep)
        ensures
            r@ == auth_step(unauthorized, *creds),
            final(self).settings() == old(self).settings(),
            final(self).entries() == old(self).entries(),
            final(self).cursor() == old(self).cursor(),
            final(self).offline() == old(self).offline(),
            match r {
                AuthStep::Retry(t) => option_text(final(self).credential()) == Some(t@),
                _ => final(self).credential() == old(self).credential(),
            },
    {
        if !unauthorized {
            return AuthStep::Proceed;
        }
        match creds.refresh_token() {
            TokenSource::Ready(t) => {
                self.auth_token = Some(t.clone());
                AuthStep::Retry(t)
            },
            TokenSource::Login { identity, password } => AuthStep::Login { identity, password },
            TokenSource::Unavailable => AuthStep::GiveUp,
        }
    }

    /// The seconds to wait before the attempt numbered `attempt`.
    pub fn backoff_secs(attempt: u32) -> (r: u64)
        ensures
            r == backoff(attempt as nat),
            r <= MAX_BACKOFF_SECS,
    {
        if attempt == 0 {
            return 0;
        }
        let mut delay: u64 = 1;
        let mut k: u32 = 1;
        while k < attempt && delay < MAX_BACKOFF_SECS
            invariant
                1 <= k <= attempt,
                delay == backoff(k as nat),
                1 <= delay <= MAX_BACKOFF_SECS,
            decreases attempt - k,
        {
            delay = if 2 * delay > MAX_BACKOFF_SECS {
                MAX_BACKOFF_SECS
            } else {
                2 * delay
            };
            k = k + 1;
        }
        proof {
            if k < attempt {
                lemma_backoff_capped(k as nat, attempt as nat);
            }
        }
        delay
    }

    /// Decide what follows the attempt numbered `attempt` to fetch the
    /// initial playlist, of which `result` came, the first attempt being
    /// number 0. After a failure the next attempt is made after a wait. No
    /// more than `max_attempts` attempts are made: the failure of the last
    /// one is the outcome.
    pub fn fetch_playlist_with_retry(
        attempt: u32,
        max_attempts: u32,
        result: Result<Vec<Media>, FetchError>,
    ) -> (r: RetryStep)
        ensures
            r == retry_step(attempt, max_attempts, result),
    {
        match result {
            Ok(playlist) => RetryStep::Done(playlist),
            Err(e) => {
                if max_attempts > 0 && attempt < max_attempts - 1 {
                    RetryStep::Wait { secs: Self::backoff_secs(attempt + 1), attempt: attempt + 1 }
                } else {
                    RetryStep::GiveUp(e)
                }
            },
        }
    }

    /// The entry that is shown, if the cursor is on one.
    pub fn current_item(&self) -> (r: Option<&Media>)
        ensures
            r == if self.cursor() < self.entries().len() {
                Some(&self.entries()[self.cursor() as int])
            } else {
                None
            },
    {
        if self.current_index < self.playlist.len() {
            Some(&self.playlist[self.current_index])
        } else {
            None
        }
    }

    /// Advance to the next item in the playlist, wrapping round at the end.
    /// Returns the new position, or nothing for an empty playlist.
    pub fn advance_to_next(&mut self) -> (r: Option<usize>)
        ensures
            final(self).settings() == old(self).settings(),
            final(self).credential() == old(self).credential(),
            final(self).entries() == old(self).entries(),
            final(self).offline() == old(self).offline(),
            old(self).entries().len() == 0 ==> r is None,
            old(self).entries().len() == 0 ==> final(self).cursor() == old(self).cursor(),
            old(self).entries().len() > 0 ==> r == Some(final(self).cursor() as usize),
            old(self).entries().len() > 0 ==> final(self).cursor() == next_index(
                old(self).entries().len(),
                old(self).cursor(),
            ),
    {
        let len = self.playlist.len();
        if len == 0 {
            return None;
        }
        let at = self.current_index % len;
        proof {
            lemma_step(len as int, self.current_index as int);
        }
        self.current_index = if at + 1 == len {
            0
        } else {
            at + 1
        };
        Some(self.current_index)
    }

    /// Go to the previous item in the playlist, wrapping round at the
    /// start. Returns the new position, or nothing for an empty playlist.
    pub fn go_to_previous(&mut self) -> (r: Option<usize>)
        requires
            old(self).entries().len() == 0 || old(self).cursor() <= old(self).entries().len(),
        ensures
            final(self).settings() == old(self).settings(),
            final(self).credential() == old(self).credential(),
            final(self).entries() == old(self).entries(),
            final(self).offline() == old(self).offline(),
            old(self).entries().len() == 0 ==> r is None,
            old(self).entries().len() == 0 ==> final(self).cursor() == old(self).cursor(),
            old(self).entries().len() > 0 ==> r == Some(final(self).cursor() as usize),
            old(self).entries().len() > 0 ==> final(self).cursor() == previous_index(
                old(self).entries().len(),
                old(self).cursor(),
            ),
    {
        let len = self.playlist.len();
        if len == 0 {
            return None;
        }
        self.current_index = if self.current_index == 0 {
            len - 1
        } else {
            self.current_index - 1
        };
        Some(self.current_index)
    }

    /// The transition to move on with: a cut after a command of the user,
    /// else the configured one.
    pub fn transition_for(&self, manual: bool) -> (r: Transition)
        ensures
            r == if manual {
                Transition::Cut
            } else {
                crate::renderer::transition_named(
                    crate::text::lowercased(self.settings().transition@),
                )
            },
    {
        if manual {
            Transition::Cut
        } else {
            Transition::from_str(self.config.transition.as_str())
        }
    }

    /// Apply a realtime event to the playlist and say what is left to do.
    pub fn handle_realtime_event(&mut self, event: RealtimeEvent) -> (r: Effect)
        ensures
            final(self).same_but_entries(old(self)),
            final(self).entries() == applied(old(self).entries(), event),
            r == effect_of(event),
    {
        match event {
            RealtimeEvent::Connected => Effect::Nothing,
            RealtimeEvent::Disconnected => Effect::Nothing,
            RealtimeEvent::RefreshNeeded => Effect::Refresh,
            RealtimeEvent::MediaCreated(media) => {
                if !is_listed(&self.playlist, media.id.as_str()) {
                    self.playlist.push(media);
                }
                Effect::Persist
            },
            RealtimeEvent::MediaUpdated(media) => {
                let at = position_of(&self.playlist, media.id.as_str());
                if at < self.playlist.len() {
                    self.playlist.set(at, media);
                } else {
                    self.playlist.push(media);
                }
                Effect::Persist
            },
            RealtimeEvent::MediaDeleted(id) => {
                remove_id(&mut self.playlist, id.as_str());
                Effect::Persist
            },
        }
    }

    /// Take the outcome of the fetch that a `Refresh` effect asked for. A
    /// fetched playlist is put in place and the cache is swept against it:
    /// every cache entry whose media item is not in it goes. A failure
    /// changes nothing. Returns the paths of the swept files, most recently
    /// used first. The caller persists a fetched playlist and removes the
    /// swept files.
    pub fn refreshed(&mut self, cache: &mut Cache, fetched: Result<Vec<Media>, FetchError>) -> (removed:
        Vec<String>)
        requires
            old(cache).wf(),
        ensures
            final(cache).wf(),
            final(cache).root() == old(cache).root(),
            final(cache).budget() == old(cache).budget(),
            final(self).same_but_entries(old(self)),
            match fetched {
                Ok(p) => {
                    &&& final(self).entries() == p@
                    &&& final(cache).entries() == keep_listed(
                        old(cache).entries(),
                        playlist_ids(p@),
                    )
                    &&& texts(removed@) == unlisted_paths(old(cache).entries(), playlist_ids(p@))
                },
                Err(_) => {
                    &&& final(self).entries() == old(self).entries()
                    &&& final(cache).entries() == old(cache).entries()
                    &&& final(cache).used() == old(cache).used()
                    &&& removed@.len() == 0
                },
            },
    {
        match fetched {
            Ok(playlist) => {
                let removed = cache.cleanup_orphans(&playlist);
                self.playlist = playlist;
                removed
            },
            Err(_) => Vec::new(),
        }
    }

    /// Build overlay info from current state.
    pub fn build_overlay_info(
        &self,
        stats: &CacheStats,
        video_duration: Option<u64>,
        video_position: Option<u64>,
        is_video_playing: bool,
        is_paused: bool,
        is_realtime_connected: bool,
    ) -> (r: OverlayInfo)
        requires
            self.cursor() < usize::MAX,
        ensures
            r.is_connected == is_realtime_connected,
            r.is_offline == self.offline(),
            r.current_index == self.cursor() + 1,
            r.total_count == self.entries().len(),
            r.media_title@ == if self.cursor() < self.entries().len() {
                self.entries()[self.cursor() as int].id@
            } else {
                Seq::<char>::empty()
            },
            r.cache_used == stats.current_size,
            r.cache_max == stats.max_size,
            r.cache_items == stats.item_count,
            r.is_video == (self.cursor() < self.entries().len() && self.entries()[self.cursor() as int].spec_is_video()),
            r.is_paused == is_paused,
            r.video_duration == if is_video_playing {
                video_duration
            } else {
                None
            },
            r.video_position == if is_video_playing {
                video_position
            } else {
                None
            },
    {
        let (media_title, is_video) = match self.current_item() {
            Some(m) => (m.id.clone(), m.is_video()),
            None => (String::new(), false),
        };
        OverlayInfo {
            is_connected: is_realtime_connected,
            is_offline: self.is_offline,
            current_index: self.current_index + 1,
            total_count: self.playlist.len(),
            media_title,
            cache_used: stats.current_size,
            cache_max: stats.max_size,
            cache_items: stats.item_count,
            is_video,
            is_paused,
            video_duration: if is_video_playing {
                video_duration
            } else {
                None
            },
            video_position: if is_video_playing {
                video_position
            } else {
                None
            },
        }
    }
}

/// How many entries ahead are preloaded at start-up.
pub const LOOKAHEAD_AT_START: usize = 3;

/// How many entries ahead are preloaded after an advance.
pub const LOOKAHEAD_AFTER_ADVANCE: usize = 2;

/// What it takes to show the entry at the cursor.
#[derive(Debug, Clone, PartialEq, Eq)]
pub struct ItemPlan {
    /// The cached files to load the textures from.
    pub textures: TextureSources,
    /// The cached file to play, where the entry is a video and the cache
    /// has its file.
    pub video: Option<String>,
    /// The declared duration of the entry in milliseconds.
    pub duration: Option<u64>,
}

impl AppState {
    /// Load the current item: mark its display image and its blurred
    /// background as recently used, and say which cached files show it.
    /// Returns nothing for an empty playlist.
    pub fn load_current_item(&self, cache: &mut Cache) -> (r: Option<ItemPlan>)
        requires
            old(cache).wf(),
            self.entries().len() == 0 || self.cursor() < self.entries().len(),
        ensures
            final(cache).wf(),
            final(cache).root() == old(cache).root(),
            final(cache).budget() == old(cache).budget(),
            final(cache).used() == old(cache).used(),
            self.entries().len() == 0 ==> r is None && final(cache).entries() == old(
                cache,
            ).entries(),
            self.entries().len() > 0 ==> r is Some && shows(
                r->0,
                self.entries()[self.cursor() as int],
                *old(cache),
            ) && final(cache).entries() == touched(
                old(cache).entries(),
                self.entries()[self.cursor() as int].id@,
            ),
    {
        let media = match self.current_item() {
            Some(m) => m,
            None => {
                return None;
            },
        };
        let id = media.id.as_str();
        let blur = cache.get_cached_path(id, AssetType::Blur);
        let is_video = media.is_video();
        let display_asset = if is_video {
            AssetType::Poster
        } else {
            AssetType::Display
        };
        let display = cache.get_cached_path(id, display_asset);
        let video = if is_video {
            cache.get_cached_path(id, AssetType::Video)
        } else {
            None
        };
        cache.touch(id, AssetType::Display);
        cache.touch(id, AssetType::Blur);
        Some(ItemPlan { textures: TextureSources { blur, display }, video, duration: media.duration })
    }
}

/// The order of use after the display image and the blurred background of
/// an item were used.
pub open spec fn touched(s: Seq<crate::recency::Slot>, media_id: Seq<char>) -> Seq<
    crate::recency::Slot,
> {
    promoted(
        promoted(s, (media_id, kind_name(AssetType::Display))),
        (media_id, kind_name(AssetType::Blur)),
    )
}

/// Whether `plan` is what shows `media` from `cache`.
pub open spec fn shows(plan: ItemPlan, media: Media, cache: Cache) -> bool {
    &&& option_text(plan.textures.blur) == cached_path(cache, media.id@, AssetType::Blur)
    &&& option_text(plan.textures.display) == cached_path(
        cache,
        media.id@,
        shown_kind(media.spec_is_video()),
    )
    &&& option_text(plan.video) == if media.spec_is_video() {
        cached_path(cache, media.id@, AssetType::Video)
    } else {
        None
    }
    &&& plan.duration == media.duration
}

/// What the render loop is to do about an action of the user.
#[derive(Debug, Clone, Copy, PartialEq, Eq, Structural)]
pub enum LoopCommand {
    /// Go on.
    Continue,
    /// Leave the loop.
    Quit,
    /// Pause the video.
    PauseVideo,
    /// Resume the video.
    ResumeVideo,
    /// Move to the next entry, with a cut.
    Advance,
    /// Move to the previous entry, with a cut.
    GoBack,
    /// Fetch the playlist anew.
    Refresh,
}

/// What the render loop keeps from one frame to the next.
#[derive(Debug, Clone, Copy, PartialEq, Eq, Structural)]
pub struct RenderLoop {
    /// Whether the status overlay is shown.
    pub overlay_visible: bool,
    /// Whether playback is paused.
    pub is_paused: bool,
    /// Whether a video is playing.
    pub is_video_playing: bool,
    /// Whether the realtime feed is connected.
    pub is_realtime_connected: bool,
    /// When the display last moved on, in milliseconds.
    pub last_advance: u64,
    /// How long an entry is shown, in milliseconds.
    pub interval_ms: u64,
}

/// The loop state after an action of the user.
pub open spec fn after_action(state: RenderLoop, action: UserAction) -> RenderLoop {
    match action {
        UserAction::ToggleOverlay => RenderLoop { overlay_visible: !state.overlay_visible, ..state },
        UserAction::TogglePause => if state.is_video_playing {
            RenderLoop { is_paused: !state.is_paused, ..state }
        } else {
            state
        },
        _ => state,
    }
}

/// What the loop is to do about an action of the user. A pause toggle
/// counts only while a video is playing.
pub open spec fn command_for(state: RenderLoop, action: UserAction) -> LoopCommand {
    match action {
        UserAction::NoAction => LoopCommand::Continue,
        UserAction::Quit => LoopCommand::Quit,
        UserAction::ToggleOverlay => LoopCommand::Continue,
        UserAction::TogglePause => if !state.is_video_playing {
            LoopCommand::Continue
        } else if state.is_paused {
            LoopCommand::ResumeVideo
        } else {
            LoopCommand::PauseVideo
        },
        UserAction::Next => LoopCommand::Advance,
        UserAction::Previous => LoopCommand::GoBack,
        UserAction::Refresh => LoopCommand::Refresh,
    }
}

/// Whether the end of a video forces an advance: a video is playing
/// unpaused, it has ended, and it does not loop.
pub open spec fn video_forces_advance(state: RenderLoop, ended: bool, looping: bool) -> bool {
    state.is_video_playing && !state.is_paused && ended && !looping
}

/// Whether the timer advances the display at `now_ms`: playback is not
/// paused, no transition is under way, the interval has passed since the
/// last advance, and no video is playing unless it loops.
pub open spec fn timer_advances(state: RenderLoop, now_ms: u64, transitioning: bool, looping: bool)
    -> bool {
    &&& !state.is_paused
    &&& !transitioning
    &&& now_ms >= state.last_advance
    &&& now_ms - state.last_advance >= state.interval_ms
    &&& (!state.is_video_playing || looping)
}

impl RenderLoop {
    /// The loop state at the start: nothing paused, nothing playing, the
    /// overlay hidden, the timer started at `now_ms`.
    pub fn new(interval_ms: u64, now_ms: u64) -> (r: Self)
        ensures
            r == (RenderLoop {
                overlay_visible: false,
                is_paused: false,
                is_video_playing: false,
                is_realtime_connected: false,
                last_advance: now_ms,
                interval_ms,
            }),
    {
        RenderLoop {
            overlay_visible: false,
            is_paused: false,
            is_video_playing: false,
            is_realtime_connected: false,
            last_advance: now_ms,
            interval_ms,
        }
    }

    /// Take an action of the user and say what the loop is to do about it.
    pub fn on_action(&mut self, action: UserAction) -> (r: LoopCommand)
        ensures
            *final(self) == after_action(*old(self), action),
            r == command_for(*old(self), action),
    {
        match action {
            UserAction::NoAction => LoopCommand::Continue,
            UserAction::Quit => LoopCommand::Quit,
            UserAction::ToggleOverlay => {
                self.overlay_visible = !self.overlay_visible;
                LoopCommand::Continue
            },
            UserAction::TogglePause => {
                if self.is_video_playing {
                    self.is_paused = !self.is_paused;
                    if self.is_paused {
                        LoopCommand::PauseVideo
                    } else {
                        LoopCommand::ResumeVideo
                    }
                } else {
                    LoopCommand::Continue
                }
            },
            UserAction::Next => LoopCommand::Advance,
            UserAction::Previous => LoopCommand::GoBack,
            UserAction::Refresh => LoopCommand::Refresh,
        }
    }

    /// Take note of a realtime event: the feed is connected from a
    /// `Connected` event to the next `Disconnected` one.
    pub fn on_realtime(&mut self, event: &RealtimeEvent)
        ensures
            *final(self) == (RenderLoop {
                is_realtime_connected: match *event {
                    RealtimeEvent::Connected => true,
                    RealtimeEvent::Disconnected => false,
                    _ => old(self).is_realtime_connected,
                },
                ..*old(self)
            }),
    {
        match event {
            RealtimeEvent::Connected => {
                self.is_realtime_connected = true;
            },
            RealtimeEvent::Disconnected => {
                self.is_realtime_connected = false;
            },
            _ => {},
        }
    }

    /// Whether the frame of the video is to be refreshed.
    pub fn updates_video(&self) -> (r: bool)
        ensures
            r == (self.is_video_playing && !self.is_paused),
    {
        self.is_video_playing && !self.is_paused
    }

    /// Whether the end of the video forces an advance now, whatever the
    /// timer says.
    pub fn video_ended(&self, ended: bool, looping: bool) -> (r: bool)
        ensures
            r == video_forces_advance(*self, ended, looping),
    {
        self.is_video_playing && !self.is_paused && ended && !looping
    }

    /// Whether the timer advances the display now.
    pub fn should_advance(&self, now_ms: u64, transitioning: bool, looping: bool) -> (r: bool)
        ensures
            r == timer_advances(*self, now_ms, transitioning, looping),
    {
        !self.is_paused && !transitioning && now_ms >= self.last_advance && now_ms
            - self.last_advance >= self.interval_ms && (!self.is_video_playing || looping)
    }

    /// The display moved on at `now_ms`: the timer starts anew, and a
    /// command of the user ends a pause.
    pub fn advanced(&mut self, now_ms: u64, manual: bool, video_started: bool)
        ensures
            *final(self) == (RenderLoop {
                last_advance: now_ms,
                is_video_playing: video_started,
                is_paused: old(self).is_paused && !manual,
                ..*old(self)
            }),
    {
        self.last_advance = now_ms;
        self.is_video_playing = video_started;
        if manual {
            self.is_paused = false;
        }
    }
}

/// The position of the first entry with the identifier `id`.
fn position_of(playlist: &Vec<Media>, id: &str) -> (r: usize)
    ensures
        r == first_with_id(playlist@, id@),
        r <= playlist@.len(),
{
    let mut i: usize = 0;
    assert(playlist@.skip(0) =~= playlist@);
    while i < playlist.len()
        invariant
            i <= playlist.len(),
            first_with_id(playlist@, id@) == i + first_with_id(playlist@.skip(i as int), id@),
        decreases playlist.len() - i,
    {
        proof {
            assert(playlist@.skip(i as int)[0] == playlist@[i as int]);
            assert(playlist@.skip(i as int).drop_first() =~= playlist@.skip(i + 1));
        }
        if same_text(playlist[i].id.as_str(), id) {
            return i;
        }
        i = i + 1;
    }
    i
}

/// Remove all entries with the identifier `id`.
fn remove_id(playlist: &mut Vec<Media>, id: &str)
    ensures
        final(playlist)@ == without_id(old(playlist)@, id@),
{
    let ghost start = playlist@;
    let ghost n = start.len() as int;
    let ghost mut k: int = 0;
    let mut i: usize = 0;
    proof {
        assert(start.take(0) =~= Seq::<Media>::empty());
        assert(start.skip(0) =~= start);
        assert(without_id(start.take(0), id@) + start.skip(0) =~= start);
    }
    while i < playlist.len()
        invariant
            n == start.len(),
            0 <= k <= n,
            i == without_id(start.take(k), id@).len(),
            playlist@ == without_id(start.take(k), id@) + start.skip(k),
        decreases n - k,
    {
        let ghost kept = without_id(start.take(k), id@);
        proof {
            assert(playlist@[i as int] == start[k]);
            assert(start.take(k + 1).drop_last() =~= start.take(k));
            assert(start.take(k + 1).last() == start[k]);
        }
        if same_text(playlist[i].id.as_str(), id) {
            let _ = playlist.remove(i);
            proof {
                assert(playlist@ =~= kept + start.skip(k + 1));
            }
        } else {
            i = i + 1;
            proof {
                assert(playlist@ =~= kept.push(start[k]) + start.skip(k + 1));
            }
        }
        proof {
            k = k + 1;
        }
    }
    proof {
        assert(start.take(n) =~= start);
        assert(playlist@ =~= without_id(start, id@));
    }
}

/// No two entries of the playlist have the same identifier.
pub open spec fn unique_ids(playlist: Seq<Media>) -> bool {
    forall|i: int, j: int|
        0 <= i < j < playlist.len() ==> (#[trigger] playlist[i]).id@ != (#[trigger] playlist[j]).id@
}

/// The first entry with an identifier is where `first_with_id` says, and
/// there is none where it gives the length of the playlist.
pub proof fn lemma_first_with_id(playlist: Seq<Media>, id: Seq<char>)
    ensures
        0 <= first_with_id(playlist, id) <= playlist.len(),
        first_with_id(playlist, id) < playlist.len() ==> playlist[first_with_id(playlist, id)].id@
            == id,
        forall|i: int|
            0 <= i < first_with_id(playlist, id) ==> (#[trigger] playlist[i]).id@ != id,
        first_with_id(playlist, id) < playlist.len() <==> playlist_ids(playlist).contains(id),
    decreases playlist.len(),
{
    if playlist.len() == 0 {
    } else if playlist[0].id@ == id {
    } else {
        let rest = playlist.drop_first();
        lemma_first_with_id(rest, id);
        let r = first_with_id(rest, id);
        assert forall|i: int| 0 <= i < 1 + r implies (#[trigger] playlist[i]).id@ != id by {
            if i > 0 {
                assert(rest[i - 1].id@ != id);
            }
        }
        if r < rest.len() {
            assert(playlist[r + 1] == rest[r]);
        }
        if playlist_ids(playlist).contains(id) {
            let i = choose|i: int| 0 <= i < playlist.len() && (#[trigger] playlist[i]).id@ == id;
            assert(rest[i - 1].id@ == id);
        }
        if playlist_ids(rest).contains(id) {
            let i = choose|i: int| 0 <= i < rest.len() && (#[trigger] rest[i]).id@ == id;
            assert(playlist[i + 1].id@ == id);
        }
    }
}

/// A deletion leaves no entry with the identifier, and every entry that it
/// leaves was there before.
pub proof fn lemma_without_id(playlist: Seq<Media>, id: Seq<char>)
    ensures
        !playlist_ids(without_id(playlist, id)).contains(id),
        forall|i: int|
            0 <= i < without_id(playlist, id).len() ==> playlist.contains(
                #[trigger] without_id(playlist, id)[i],
            ),
        unique_ids(playlist) ==> unique_ids(without_id(playlist, id)),
    decreases playlist.len(),
{
    if playlist.len() > 0 {
        let rest = playlist.drop_last();
        let last = playlist.last();
        let w = without_id(rest, id);
        let out = without_id(playlist, id);
        lemma_without_id(rest, id);
        assert forall|i: int| 0 <= i < out.len() implies playlist.contains(#[trigger] out[i]) by {
            if i < w.len() {
                assert(rest.contains(w[i]));
                let j = choose|j: int| 0 <= j < rest.len() && rest[j] == w[i];
                assert(playlist[j] == w[i]);
            } else {
                assert(playlist[playlist.len() - 1] == last);
            }
        }
        if playlist_ids(out).contains(id) {
            let i = choose|i: int| 0 <= i < out.len() && (#[trigger] out[i]).id@ == id;
            if i < w.len() {
                assert(w[i].id@ == id);
            }
        }
        if unique_ids(playlist) {
            assert forall|i: int, j: int| 0 <= i < j < rest.len() implies (#[trigger] rest[i]).id@
                != (#[trigger] rest[j]).id@ by {
                assert(playlist[i] == rest[i]);
                assert(playlist[j] == rest[j]);
            }
            assert forall|i: int, j: int| 0 <= i < j < out.len() implies (#[trigger] out[i]).id@
                != (#[trigger] out[j]).id@ by {
                if j < w.len() {
                    assert(out[i] == w[i]);
                    assert(out[j] == w[j]);
                } else {
                    assert(out[i] == w[i]);
                    assert(rest.contains(w[i]));
                    let k = choose|k: int| 0 <= k < rest.len() && rest[k] == w[i];
                    assert(playlist[k] == w[i]);
                    assert(playlist[playlist.len() - 1] == last);
                }
            }
        }
    }
}

/// Identity is the identifier: a playlist without two entries of the same
/// identifier stays so under every realtime event.
pub proof fn lemma_applied_keeps_ids_unique(playlist: Seq<Media>, event: RealtimeEvent)
    requires
        unique_ids(playlist),
    ensures
        unique_ids(applied(playlist, event)),
{
    let out = applied(playlist, event);
    match event {
        RealtimeEvent::MediaCreated(m) => {
            if !playlist_ids(playlist).contains(m.id@) {
                assert forall|i: int, j: int| 0 <= i < j < out.len() implies (#[trigger] out[i]).id@
                    != (#[trigger] out[j]).id@ by {
                    assert(out[i] == playlist[i]);
                    if j < playlist.len() {
                        assert(out[j] == playlist[j]);
                    }
                }
            }
        },
        RealtimeEvent::MediaUpdated(m) => {
            lemma_first_with_id(playlist, m.id@);
            let at = first_with_id(playlist, m.id@);
            assert forall|i: int, j: int| 0 <= i < j < out.len() implies (#[trigger] out[i]).id@
                != (#[trigger] out[j]).id@ by {
                if at < playlist.len() {
                    assert(out[i].id@ == playlist[i].id@);
                    assert(out[j].id@ == playlist[j].id@);
                } else {
                    assert(out[i] == playlist[i]);
                    if j < playlist.len() {
                        assert(out[j] == playlist[j]);
                    }
                }
            }
        },
        RealtimeEvent::MediaDeleted(id) => {
            lemma_without_id(playlist, id@);
        },
        _ => {},
    }
}

/// One step round the playlist from any cursor.
proof fn lemma_step(len: int, index: int)
    requires
        len > 0,
        index >= 0,
    ensures
        (index + 1) % len == if index % len + 1 == len {
            0
        } else {
            index % len + 1
        },
        0 <= index % len < len,
{
    vstd::arithmetic::div_mod::lemma_fundamental_div_mod(index, len);
    vstd::arithmetic::div_mod::lemma_mod_bound(index, len);
    let q = index / len;
    let r = index % len;
    assert(q * len == len * q) by (nonlinear_arith);
    if r + 1 == len {
        assert((q + 1) * len == q * len + len) by (nonlinear_arith);
        vstd::arithmetic::div_mod::lemma_fundamental_div_mod_converse(index + 1, len, q + 1, 0);
    } else {
        vstd::arithmetic::div_mod::lemma_fundamental_div_mod_converse(index + 1, len, q, r + 1);
    }
}

/// Once the wait has reached its cap it stays there.
proof fn lemma_backoff_capped(k: nat, attempt: nat)
    requires
        1 <= k <= attempt,
        backoff(k) == MAX_BACKOFF_SECS,
    ensures
        backoff(attempt) == MAX_BACKOFF_SECS,
    decreases attempt - k,
{
    if k < attempt {
        assert(backoff(k + 1) == MAX_BACKOFF_SECS);
        lemma_backoff_capped(k + 1, attempt);
    }
}

} // verus!
