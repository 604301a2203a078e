use frame_viewer::assets::{AssetType, Media};
use frame_viewer::cache::Cache;
use frame_viewer::playback::{
    AppConfig, AppState, AuthCreds, AuthStep, Effect, FetchError, FetchOutcome, ItemPlan,
    LoopCommand, RenderLoop, RetryStep, TokenSource, LOOKAHEAD_AFTER_ADVANCE, LOOKAHEAD_AT_START,
    MAX_BACKOFF_SECS,
};
use frame_viewer::realtime::RealtimeEvent;
use frame_viewer::renderer::{Transition, UserAction};

fn entry(id: &str, kind: &str) -> Media {
    Media {
        id: id.to_string(),
        media_type: kind.to_string(),
        display_url: None,
        blur_url: None,
        video_url: None,
        poster_url: None,
        duration: Some(12_000),
        tags: None,
        device_scopes: None,
    }
}

fn titled(id: &str, tags: &str) -> Media {
    let mut m = entry(id, "image");
    m.tags = Some(tags.to_string());
    m
}

fn config(device: Option<&str>) -> AppConfig {
    AppConfig {
        pb_url: "http://localhost:8090".to_string(),
        interval_ms: 8000,
        transition: "Fade".to_string(),
        transition_duration_ms: 1000,
        cache_dir: "/var/cache/frame-viewer".to_string(),
        cache_size_limit_gb: 10,
        device_id: device.map(|d| d.to_string()),
        device_api_key: None,
        auth_token: None,
        auth_email: None,
        auth_password: None,
        enable_realtime: true,
        video_loop_threshold_ms: 30_000,
        shuffle: false,
        full_sync: false,
    }
}

fn creds(key: Option<&str>, token: Option<&str>, email: Option<&str>, pw: Option<&str>) -> AuthCreds {
    AuthCreds {
        device_api_key: key.map(|s| s.to_string()),
        token: token.map(|s| s.to_string()),
        email: email.map(|s| s.to_string()),
        password: pw.map(|s| s.to_string()),
    }
}

fn state_with(ids: &[&str]) -> AppState {
    let mut s = AppState::new(config(None));
    s.set_playlist(ids.iter().map(|id| entry(id, "image")).collect());
    s
}

fn ids(state: &AppState) -> Vec<String> {
    state.playlist().iter().map(|m| m.id.clone()).collect()
}

#[test]
fn a_new_state_is_empty_and_online() {
    let s = AppState::new(config(Some("tv")));
    assert!(s.playlist().is_empty());
    assert_eq!(s.current_index(), 0);
    assert_eq!(s.token(), None);
    assert!(!s.is_offline());
    assert_eq!(s.config().device_id, Some("tv".to_string()));
    assert_eq!(s.current_item(), None);
}

#[test]
fn empty_credentials_count_as_none() {
    let mut c = config(None);
    c.auth_token = Some(String::new());
    c.auth_email = Some("me@example.com".to_string());
    c.auth_password = Some(String::new());
    c.device_api_key = Some("key".to_string());
    let creds = c.to_auth_creds();
    assert_eq!(creds.token, None);
    assert_eq!(creds.email, Some("me@example.com".to_string()));
    assert_eq!(creds.password, None);
    assert_eq!(creds.device_api_key, Some("key".to_string()));
    assert!(!creds.can_login());
}

#[test]
fn login_needs_identity_and_password() {
    assert!(creds(None, None, Some("e"), Some("p")).can_login());
    assert!(!creds(None, None, Some("e"), None).can_login());
    assert!(!creds(None, None, None, Some("p")).can_login());
    assert!(!creds(Some("k"), Some("t"), None, None).can_login());
}

#[test]
fn refresh_prefers_device_key_then_token_then_login() {
    assert_eq!(
        creds(Some("k"), Some("t"), Some("e"), Some("p")).refresh_token(),
        TokenSource::Ready("k".to_string())
    );
    assert_eq!(
        creds(None, Some("t"), Some("e"), Some("p")).refresh_token(),
        TokenSource::Ready("t".to_string())
    );
    assert_eq!(
        creds(None, None, Some("e"), Some("p")).refresh_token(),
        TokenSource::Login { identity: "e".to_string(), password: "p".to_string() }
    );
    assert_eq!(creds(None, None, Some("e"), None).refresh_token(), TokenSource::Unavailable);
    assert_eq!(creds(None, None, None, None).refresh_token(), TokenSource::Unavailable);
}

#[test]
fn initial_token_prefers_the_static_token() {
    assert_eq!(
        creds(Some("k"), Some("t"), Some("e"), Some("p")).init_auth(),
        TokenSource::Ready("t".to_string())
    );
    assert_eq!(
        creds(Some("k"), None, Some("e"), Some("p")).init_auth(),
        TokenSource::Ready("k".to_string())
    );
    assert_eq!(
        creds(None, None, Some("e"), Some("p")).init_auth(),
        TokenSource::Login { identity: "e".to_string(), password: "p".to_string() }
    );
    assert_eq!(creds(Some("k"), None, None, None).init_auth(), TokenSource::Unavailable);
    assert_eq!(creds(None, None, None, None).init_auth(), TokenSource::Unavailable);
}

#[test]
fn list_filter_without_a_device() {
    assert_eq!(AppState::new(config(None)).build_filter(), "status='published'");
}

#[test]
fn list_filter_with_a_device() {
    assert_eq!(
        AppState::new(config(Some("tv-1"))).build_filter(),
        "(status='published') && (deviceScopes~'\"tv-1\"' || deviceScopes = [] || deviceScopes = null)"
    );
}

#[test]
fn list_address_without_a_device() {
    assert_eq!(
        AppState::new(config(None)).playlist_url(),
        "http://localhost:8090/api/collections/media/records?filter=status%3D%27published%27&perPage=500&sort=-created"
    );
}

#[test]
fn list_address_with_a_device() {
    assert_eq!(
        AppState::new(config(Some("tv-1"))).playlist_url(),
        "http://localhost:8090/api/collections/media/records?filter=%28status%3D%27published%27%29%20%26%26%20%28deviceScopes~%27%22tv-1%22%27%20%7C%7C%20deviceScopes%20%3D%20%5B%5D%20%7C%7C%20deviceScopes%20%3D%20null%29&perPage=500&sort=-created"
    );
}

#[test]
fn list_address_encodes_bytes_of_utf8() {
    let url = AppState::new(config(Some("é_~.z"))).playlist_url();
    assert!(url.contains("%27%22%C3%A9_~.z%22%27"));
}

#[test]
fn login_address() {
    assert_eq!(
        AppState::new(config(None)).login_url(),
        "http://localhost:8090/api/collections/users/auth-with-password"
    );
}

#[test]
fn a_fetched_playlist_clears_offline() {
    let mut s = AppState::new(config(None));
    let snapshot = Ok(vec![entry("old", "image")]);
    s.fetch_playlist(FetchOutcome::Failed { error: FetchError::Transfer, snapshot }).unwrap();
    assert!(s.is_offline());
    let fetched = vec![entry("a", "image"), entry("b", "video")];
    assert_eq!(s.fetch_playlist(FetchOutcome::Fetched(fetched.clone())), Ok(fetched));
    assert!(!s.is_offline());
    assert!(s.playlist().is_empty());
}

#[test]
fn a_failed_fetch_falls_back_to_the_snapshot() {
    let mut s = AppState::new(config(None));
    let snapshot = vec![entry("a", "image"), entry("b", "video")];
    let outcome =
        FetchOutcome::Failed { error: FetchError::Transfer, snapshot: Ok(snapshot.clone()) };
    assert_eq!(s.fetch_playlist(outcome), Ok(snapshot));
    assert!(s.is_offline());
}

#[test]
fn a_failed_fetch_with_an_empty_snapshot_is_the_first_error() {
    let mut s = AppState::new(config(None));
    let outcome = FetchOutcome::Failed { error: FetchError::Status(503), snapshot: Ok(Vec::new()) };
    assert_eq!(s.fetch_playlist(outcome), Err(FetchError::Status(503)));
    assert!(s.is_offline());
}

#[test]
fn a_failed_fetch_with_an_unreadable_snapshot_is_the_snapshot_error() {
    let mut s = AppState::new(config(None));
    let outcome =
        FetchOutcome::Failed { error: FetchError::Transfer, snapshot: Err(FetchError::Decode) };
    assert_eq!(s.fetch_playlist(outcome), Err(FetchError::Decode));
    assert!(s.is_offline());
}

#[test]
fn a_failed_fetch_with_an_unreadable_snapshot_file_is_a_storage_error() {
    let mut s = AppState::new(config(None));
    let outcome = FetchOutcome::Failed {
        error: FetchError::Status(401),
        snapshot: Err(FetchError::Storage),
    };
    assert_eq!(s.fetch_playlist(outcome), Err(FetchError::Storage));
    assert!(s.is_offline());
}

#[test]
fn an_authorized_response_stands() {
    let mut s = AppState::new(config(None));
    s.set_token(Some("old".to_string()));
    let step = s.fetch_with_retry(false, &creds(Some("k"), None, None, None));
    assert_eq!(step, AuthStep::Proceed);
    assert_eq!(s.token(), Some("old".to_string()));
}

#[test]
fn an_unauthorized_response_is_retried_with_a_fresh_token() {
    let mut s = AppState::new(config(None));
    s.set_token(Some("old".to_string()));
    let step = s.fetch_with_retry(true, &creds(Some("k"), Some("t"), None, None));
    assert_eq!(step, AuthStep::Retry("k".to_string()));
    assert_eq!(s.token(), Some("k".to_string()));
}

#[test]
fn an_unauthorized_response_asks_for_a_login() {
    let mut s = AppState::new(config(None));
    let step = s.fetch_with_retry(true, &creds(None, None, Some("e"), Some("p")));
    assert_eq!(step, AuthStep::Login { identity: "e".to_string(), password: "p".to_string() });
    assert_eq!(s.token(), None);
}

#[test]
fn an_unauthorized_response_without_credentials_gives_up() {
    let mut s = AppState::new(config(None));
    s.set_token(Some("old".to_string()));
    assert_eq!(s.fetch_with_retry(true, &creds(None, None, None, Some("p"))), AuthStep::GiveUp);
    assert_eq!(s.token(), Some("old".to_string()));
}

#[test]
fn backoff_doubles_from_one_second_up_to_the_cap() {
    let waits: Vec<u64> = (0..10).map(AppState::backoff_secs).collect();
    assert_eq!(waits, vec![0, 1, 2, 4, 8, 16, 32, 60, 60, 60]);
    assert_eq!(AppState::backoff_secs(u32::MAX), 60);
    assert_eq!(MAX_BACKOFF_SECS, 60);
}

#[test]
fn retry_after_a_failure_until_the_attempts_are_used_up() {
    let err = Err(FetchError::Transfer);
    assert_eq!(
        AppState::fetch_playlist_with_retry(0, 5, err.clone()),
        RetryStep::Wait { secs: 1, attempt: 1 }
    );
    assert_eq!(
        AppState::fetch_playlist_with_retry(1, 5, err.clone()),
        RetryStep::Wait { secs: 2, attempt: 2 }
    );
    assert_eq!(
        AppState::fetch_playlist_with_retry(3, 5, err.clone()),
        RetryStep::Wait { secs: 8, attempt: 4 }
    );
    assert_eq!(
        AppState::fetch_playlist_with_retry(4, 5, err.clone()),
        RetryStep::GiveUp(FetchError::Transfer)
    );
    assert_eq!(
        AppState::fetch_playlist_with_retry(0, 1, Err(FetchError::Decode)),
        RetryStep::GiveUp(FetchError::Decode)
    );
    assert_eq!(
        AppState::fetch_playlist_with_retry(0, 0, Err(FetchError::Decode)),
        RetryStep::GiveUp(FetchError::Decode)
    );
    assert_eq!(
        AppState::fetch_playlist_with_retry(u32::MAX, u32::MAX, err.clone()),
        RetryStep::GiveUp(FetchError::Transfer)
    );
    assert_eq!(
        AppState::fetch_playlist_with_retry(u32::MAX - 2, u32::MAX, err),
        RetryStep::Wait { secs: 60, attempt: u32::MAX - 1 }
    );
}

#[test]
fn a_limit_of_n_attempts_allows_exactly_n() {
    for n in 1..=8u32 {
        let mut attempt = 0;
        let mut made = 0;
        loop {
            made += 1;
            match AppState::fetch_playlist_with_retry(attempt, n, Err(FetchError::Status(500))) {
                RetryStep::Wait { attempt: next, .. } => attempt = next,
                RetryStep::GiveUp(e) => {
                    assert_eq!(e, FetchError::Status(500));
                    break;
                }
                RetryStep::Done(_) => unreachable!(),
            }
        }
        assert_eq!(made, n);
    }
}

#[test]
fn previous_on_an_emptied_playlist_stays() {
    let mut s = state_with(&["a", "b", "c"]);
    s.advance_to_next();
    s.advance_to_next();
    s.set_playlist(Vec::new());
    assert_eq!(s.current_index(), 2);
    assert_eq!(s.go_to_previous(), None);
    assert_eq!(s.current_index(), 2);
}

#[test]
fn a_fetched_refresh_replaces_the_playlist_and_sweeps_the_cache() {
    let mut s = state_with(&["a", "b"]);
    s.set_token(Some("t".to_string()));
    s.advance_to_next();
    let mut cache = Cache::new("/c".to_string(), 1 << 30, &Vec::new()).0;
    cache.download_and_cache("a", AssetType::Display, 1);
    cache.download_and_cache("b", AssetType::Display, 2);
    cache.download_and_cache("b", AssetType::Blur, 4);
    cache.download_and_cache("c", AssetType::Display, 8);
    let fetched = vec![entry("c", "image"), entry("a", "image"), entry("z", "video")];
    let removed = s.refreshed(&mut cache, Ok(fetched.clone()));
    assert_eq!(removed, vec!["/c/b/blur.jpg".to_string(), "/c/b/display.jpg".to_string()]);
    assert_eq!(s.playlist(), &fetched);
    assert_eq!(s.current_index(), 1);
    assert_eq!(s.token(), Some("t".to_string()));
    assert!(!s.is_offline());
    assert_eq!(cache.get_cached_path("b", AssetType::Display), None);
    assert_eq!(cache.get_cached_path("b", AssetType::Blur), None);
    assert!(cache.get_cached_path("a", AssetType::Display).is_some());
    assert!(cache.get_cached_path("c", AssetType::Display).is_some());
    assert_eq!(cache.stats().current_size, 9);
    assert_eq!(cache.stats().item_count, 2);
}

#[test]
fn a_failed_refresh_changes_nothing() {
    let mut s = state_with(&["a", "b"]);
    let mut cache = Cache::new("/c".to_string(), 1 << 30, &Vec::new()).0;
    cache.download_and_cache("gone", AssetType::Display, 5);
    let removed = s.refreshed(&mut cache, Err(FetchError::Transfer));
    assert!(removed.is_empty());
    assert_eq!(ids(&s), vec!["a", "b"]);
    assert!(cache.get_cached_path("gone", AssetType::Display).is_some());
    assert_eq!(cache.stats().current_size, 5);
}

#[test]
fn a_refresh_with_an_empty_playlist_empties_playlist_and_cache() {
    let mut s = state_with(&["a"]);
    let mut cache = Cache::new("/c".to_string(), 1 << 30, &Vec::new()).0;
    cache.download_and_cache("a", AssetType::Display, 5);
    let removed = s.refreshed(&mut cache, Ok(Vec::new()));
    assert_eq!(removed, vec!["/c/a/display.jpg".to_string()]);
    assert!(s.playlist().is_empty());
    assert_eq!(cache.stats().item_count, 0);
}

#[test]
fn cache_budget_from_the_limit_in_gigabytes() {
    let mut c = config(None);
    assert_eq!(c.cache_budget(), Some(10 * 1024 * 1024 * 1024));
    c.cache_size_limit_gb = 0;
    assert_eq!(c.cache_budget(), Some(0));
    c.cache_size_limit_gb = (1 << 34) - 1;
    assert_eq!(c.cache_budget(), Some(u64::MAX - (1 << 30) + 1));
    c.cache_size_limit_gb = 1 << 34;
    assert_eq!(c.cache_budget(), None);
    c.cache_size_limit_gb = u64::MAX;
    assert_eq!(c.cache_budget(), None);
}

#[test]
fn retry_is_done_with_a_playlist() {
    let list = vec![entry("a", "image")];
    assert_eq!(
        AppState::fetch_playlist_with_retry(2, 5, Ok(list.clone())),
        RetryStep::Done(list)
    );
    assert_eq!(
        AppState::fetch_playlist_with_retry(0, 0, Ok(Vec::new())),
        RetryStep::Done(Vec::new())
    );
}

#[test]
fn advance_wraps_round() {
    let mut s = state_with(&["a", "b", "c"]);
    assert_eq!(s.advance_to_next(), Some(1));
    assert_eq!(s.advance_to_next(), Some(2));
    assert_eq!(s.current_item().map(|m| m.id.clone()), Some("c".to_string()));
    assert_eq!(s.advance_to_next(), Some(0));
    assert_eq!(s.current_index(), 0);
}

#[test]
fn advance_on_an_empty_playlist_stays() {
    let mut s = state_with(&[]);
    assert_eq!(s.advance_to_next(), None);
    assert_eq!(s.current_index(), 0);
    assert_eq!(s.go_to_previous(), None);
    assert_eq!(s.current_index(), 0);
}

#[test]
fn advance_recovers_from_a_stale_cursor() {
    let mut s = state_with(&["a", "b", "c", "d", "e"]);
    for _ in 0..4 {
        s.advance_to_next();
    }
    assert_eq!(s.current_index(), 4);
    s.set_playlist(vec![entry("a", "image"), entry("b", "image")]);
    assert_eq!(s.current_item(), None);
    assert_eq!(s.advance_to_next(), Some(1));
}

#[test]
fn previous_wraps_round() {
    let mut s = state_with(&["a", "b", "c"]);
    assert_eq!(s.go_to_previous(), Some(2));
    assert_eq!(s.go_to_previous(), Some(1));
    assert_eq!(s.go_to_previous(), Some(0));
    assert_eq!(s.go_to_previous(), Some(2));
}

#[test]
fn manual_moves_cut() {
    let s = AppState::new(config(None));
    assert_eq!(s.transition_for(true), Transition::Cut);
    assert_eq!(s.transition_for(false), Transition::Fade);
}

#[test]
fn created_is_appended_if_absent() {
    let mut s = state_with(&["a", "b"]);
    assert_eq!(s.handle_realtime_event(RealtimeEvent::MediaCreated(entry("c", "image"))), Effect::Persist);
    assert_eq!(ids(&s), vec!["a", "b", "c"]);
    assert_eq!(s.handle_realtime_event(RealtimeEvent::MediaCreated(titled("a", "[1]"))), Effect::Persist);
    assert_eq!(ids(&s), vec!["a", "b", "c"]);
    assert_eq!(s.playlist()[0].tags, None);
}

#[test]
fn updated_replaces_the_first_match_or_is_appended() {
    let mut s = AppState::new(config(None));
    s.set_playlist(vec![entry("a", "image"), entry("b", "image"), entry("a", "image")]);
    assert_eq!(s.handle_realtime_event(RealtimeEvent::MediaUpdated(titled("a", "[2]"))), Effect::Persist);
    assert_eq!(ids(&s), vec!["a", "b", "a"]);
    assert_eq!(s.playlist()[0].tags, Some("[2]".to_string()));
    assert_eq!(s.playlist()[2].tags, None);
    assert_eq!(s.handle_realtime_event(RealtimeEvent::MediaUpdated(titled("z", "[3]"))), Effect::Persist);
    assert_eq!(ids(&s), vec!["a", "b", "a", "z"]);
    assert_eq!(s.playlist()[3].tags, Some("[3]".to_string()));
}

#[test]
fn deleted_removes_every_entry_with_the_id() {
    let mut s = state_with(&["a", "b", "a", "c", "a"]);
    assert_eq!(s.handle_realtime_event(RealtimeEvent::MediaDeleted("a".to_string())), Effect::Persist);
    assert_eq!(ids(&s), vec!["b", "c"]);
    assert_eq!(s.handle_realtime_event(RealtimeEvent::MediaDeleted("zzz".to_string())), Effect::Persist);
    assert_eq!(ids(&s), vec!["b", "c"]);
    s.handle_realtime_event(RealtimeEvent::MediaDeleted("b".to_string()));
    s.handle_realtime_event(RealtimeEvent::MediaDeleted("c".to_string()));
    assert!(s.playlist().is_empty());
}

#[test]
fn connection_events_leave_the_playlist() {
    let mut s = state_with(&["a"]);
    assert_eq!(s.handle_realtime_event(RealtimeEvent::Connected), Effect::Nothing);
    assert_eq!(s.handle_realtime_event(RealtimeEvent::Disconnected), Effect::Nothing);
    assert_eq!(s.handle_realtime_event(RealtimeEvent::RefreshNeeded), Effect::Refresh);
    assert_eq!(ids(&s), vec!["a"]);
}

#[test]
fn overlay_info_of_the_current_entry() {
    let mut s = AppState::new(config(None));
    s.set_playlist(vec![entry("a", "image"), entry("clip", "video")]);
    s.advance_to_next();
    let mut cache = Cache::new("/c".to_string(), 2 << 30, &Vec::new()).0;
    cache.download_and_cache("a", AssetType::Display, 77);
    let info = s.build_overlay_info(&cache.stats(), Some(9000), Some(100), true, true, true);
    assert!(info.is_connected);
    assert!(!info.is_offline);
    assert_eq!(info.current_index, 2);
    assert_eq!(info.total_count, 2);
    assert_eq!(info.media_title, "clip");
    assert_eq!(info.cache_used, 77);
    assert_eq!(info.cache_max, 2 * 1024 * 1024 * 1024);
    assert_eq!(info.cache_items, 1);
    assert!(info.is_video);
    assert!(info.is_paused);
    assert_eq!(info.video_duration, Some(9000));
    assert_eq!(info.video_position, Some(100));
}

#[test]
fn overlay_info_without_a_playing_video() {
    let s = state_with(&[]);
    let cache = Cache::new("/c".to_string(), 1 << 30, &Vec::new()).0;
    let info = s.build_overlay_info(&cache.stats(), Some(9000), Some(100), false, false, false);
    assert_eq!(info.current_index, 1);
    assert_eq!(info.total_count, 0);
    assert_eq!(info.media_title, "");
    assert!(!info.is_video);
    assert_eq!(info.video_duration, None);
    assert_eq!(info.video_position, None);
}

#[test]
fn loading_the_current_item_marks_its_images_as_used() {
    let mut s = AppState::new(config(None));
    s.set_playlist(vec![entry("clip", "video"), entry("b", "image")]);
    let gib = 1024 * 1024 * 1024;
    let mut cache = Cache::new("/c".to_string(), 4 << 30, &Vec::new()).0;
    cache.download_and_cache("clip", AssetType::Display, gib);
    cache.download_and_cache("clip", AssetType::Blur, gib);
    cache.download_and_cache("clip", AssetType::Video, gib);
    cache.download_and_cache("b", AssetType::Display, gib);
    let plan = s.load_current_item(&mut cache).unwrap();
    assert_eq!(plan.textures.blur, Some("/c/clip/blur.jpg".to_string()));
    assert_eq!(plan.textures.display, None);
    assert_eq!(plan.video, Some("/c/clip/video.mp4".to_string()));
    assert_eq!(plan.duration, Some(12_000));
    let evicted = cache.make_room(3 * gib);
    assert_eq!(
        evicted,
        vec!["/c/clip/video.mp4".to_string(), "/c/b/display.jpg".to_string(), "/c/clip/display.jpg".to_string()]
    );
}

#[test]
fn loading_the_current_image() {
    let mut s = state_with(&["a", "b"]);
    s.advance_to_next();
    let mut cache = Cache::new("/c".to_string(), 1 << 30, &Vec::new()).0;
    cache.download_and_cache("b", AssetType::Display, 1);
    cache.download_and_cache("b", AssetType::Video, 1);
    let plan: ItemPlan = s.load_current_item(&mut cache).unwrap();
    assert_eq!(plan.textures.display, Some("/c/b/display.jpg".to_string()));
    assert_eq!(plan.textures.blur, None);
    assert_eq!(plan.video, None);
}

#[test]
fn loading_from_an_empty_playlist() {
    let s = state_with(&[]);
    let mut cache = Cache::new("/c".to_string(), 1 << 30, &Vec::new()).0;
    assert_eq!(s.load_current_item(&mut cache), None);
}

#[test]
fn look_ahead_counts() {
    assert_eq!(LOOKAHEAD_AT_START, 3);
    assert_eq!(LOOKAHEAD_AFTER_ADVANCE, 2);
}

#[test]
fn user_actions_and_loop_commands() {
    let mut l = RenderLoop::new(8000, 0);
    assert_eq!(l.on_action(UserAction::NoAction), LoopCommand::Continue);
    assert_eq!(l.on_action(UserAction::Quit), LoopCommand::Quit);
    assert_eq!(l.on_action(UserAction::Next), LoopCommand::Advance);
    assert_eq!(l.on_action(UserAction::Previous), LoopCommand::GoBack);
    assert_eq!(l.on_action(UserAction::Refresh), LoopCommand::Refresh);
    assert_eq!(l, RenderLoop::new(8000, 0));
    assert_eq!(l.on_action(UserAction::ToggleOverlay), LoopCommand::Continue);
    assert!(l.overlay_visible);
    assert_eq!(l.on_action(UserAction::ToggleOverlay), LoopCommand::Continue);
    assert!(!l.overlay_visible);
}

#[test]
fn pause_counts_only_while_a_video_plays() {
    let mut l = RenderLoop::new(8000, 0);
    assert_eq!(l.on_action(UserAction::TogglePause), LoopCommand::Continue);
    assert!(!l.is_paused);
    l.advanced(10, false, true);
    assert!(l.updates_video());
    assert_eq!(l.on_action(UserAction::TogglePause), LoopCommand::PauseVideo);
    assert!(l.is_paused);
    assert!(!l.updates_video());
    assert_eq!(l.on_action(UserAction::TogglePause), LoopCommand::ResumeVideo);
    assert!(!l.is_paused);
}

#[test]
fn timer_advance_policy() {
    let mut l = RenderLoop::new(8000, 1000);
    assert!(!l.should_advance(8999, false, false));
    assert!(l.should_advance(9000, false, false));
    assert!(!l.should_advance(9000, true, false));
    assert!(!l.should_advance(500, false, false));
    l.advanced(9000, false, true);
    assert!(!l.should_advance(17_000, false, false));
    assert!(l.should_advance(17_000, false, true));
    l.on_action(UserAction::TogglePause);
    assert!(!l.should_advance(17_000, false, true));
    assert!(!l.video_ended(true, false));
    l.advanced(20_000, true, false);
    assert!(!l.is_paused);
    assert!(!l.should_advance(27_999, false, false));
    assert!(l.should_advance(28_000, false, false));
}

#[test]
fn video_end_forces_an_advance_only_without_loop() {
    let mut l = RenderLoop::new(8000, 0);
    assert!(!l.video_ended(true, false));
    l.advanced(0, false, true);
    assert!(l.video_ended(true, false));
    assert!(!l.video_ended(true, true));
    assert!(!l.video_ended(false, false));
}

#[test]
fn an_automatic_advance_keeps_a_pause() {
    let mut l = RenderLoop::new(8000, 0);
    l.advanced(0, false, true);
    l.on_action(UserAction::TogglePause);
    l.advanced(5, false, true);
    assert!(l.is_paused);
    assert_eq!(l.last_advance, 5);
}

#[test]
fn realtime_connection_flag() {
    let mut l = RenderLoop::new(8000, 0);
    l.on_realtime(&RealtimeEvent::RefreshNeeded);
    assert!(!l.is_realtime_connected);
    l.on_realtime(&RealtimeEvent::Connected);
    assert!(l.is_realtime_connected);
    l.on_realtime(&RealtimeEvent::MediaDeleted("a".to_string()));
    assert!(l.is_realtime_connected);
    l.on_realtime(&RealtimeEvent::Disconnected);
    assert!(!l.is_realtime_connected);
}
