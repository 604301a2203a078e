use frame_viewer::assets::{
    id_set, is_listed, AssetManager, AssetType, CacheStep, Media, Preloader, TextureSources,
};
use frame_viewer::cache::Cache;

fn media(id: &str, kind: &str) -> Media {
    Media {
        id: id.to_string(),
        media_type: kind.to_string(),
        display_url: Some("/files/display.jpg".to_string()),
        blur_url: Some("https://cdn.example.com/blur.jpg".to_string()),
        video_url: None,
        poster_url: None,
        duration: None,
        tags: None,
        device_scopes: None,
    }
}

fn assets() -> AssetManager {
    AssetManager::new("http://localhost:8090".to_string())
}

fn cache() -> Cache {
    Cache::new("/cache".to_string(), 1 << 30, &Vec::new()).0
}

#[test]
fn kind_names() {
    assert_eq!(AssetType::Display.as_str(), "display");
    assert_eq!(AssetType::Blur.as_str(), "blur");
    assert_eq!(AssetType::Video.as_str(), "video");
    assert_eq!(AssetType::Poster.as_str(), "poster");
}

#[test]
fn kind_extensions() {
    assert_eq!(AssetType::Display.extension(), "jpg");
    assert_eq!(AssetType::Blur.extension(), "jpg");
    assert_eq!(AssetType::Poster.extension(), "jpg");
    assert_eq!(AssetType::Video.extension(), "mp4");
}

#[test]
fn video_by_type() {
    assert!(media("a", "video").is_video());
    assert!(!media("a", "image").is_video());
    assert!(!media("a", "Video").is_video());
    assert!(!media("a", "").is_video());
}

#[test]
fn url_by_kind() {
    let mut m = media("a", "video");
    m.video_url = Some("v.mp4".to_string());
    m.poster_url = Some("p.jpg".to_string());
    assert_eq!(m.url_for(AssetType::Display), Some(&"/files/display.jpg".to_string()));
    assert_eq!(m.url_for(AssetType::Blur), Some(&"https://cdn.example.com/blur.jpg".to_string()));
    assert_eq!(m.url_for(AssetType::Video), Some(&"v.mp4".to_string()));
    assert_eq!(m.url_for(AssetType::Poster), Some(&"p.jpg".to_string()));
    assert_eq!(media("a", "image").url_for(AssetType::Video), None);
}

#[test]
fn listed_by_id() {
    let playlist = vec![media("a", "image"), media("b", "image")];
    assert!(is_listed(&playlist, "a"));
    assert!(is_listed(&playlist, "b"));
    assert!(!is_listed(&playlist, "c"));
    assert!(!is_listed(&playlist, ""));
    assert!(!is_listed(&Vec::new(), "a"));
}

#[test]
fn set_of_ids() {
    let playlist = vec![media("a", "image"), media("b", "image"), media("a", "video")];
    let ids = id_set(&playlist);
    assert!(ids.contains("a"));
    assert!(ids.contains("b"));
    assert!(!ids.contains("c"));
    assert_eq!(ids.len(), 2);
    assert!(id_set(&Vec::new()).is_empty());
}

#[test]
fn full_url_appends_to_the_base() {
    let a = assets();
    assert_eq!(a.full_url("/api/files/x.jpg"), "http://localhost:8090/api/files/x.jpg");
    assert_eq!(a.full_url("x.jpg"), "http://localhost:8090x.jpg");
    assert_eq!(a.full_url(""), "http://localhost:8090");
    assert_eq!(a.full_url("ftp://host/x"), "http://localhost:8090ftp://host/x");
    assert_eq!(a.full_url("http:/x"), "http://localhost:8090http:/x");
    assert_eq!(a.full_url("HTTP://host/x"), "http://localhost:8090HTTP://host/x");
}

#[test]
fn full_url_keeps_absolute_addresses() {
    let a = assets();
    assert_eq!(a.full_url("http://other/x.jpg"), "http://other/x.jpg");
    assert_eq!(a.full_url("https://other/x.jpg"), "https://other/x.jpg");
    assert_eq!(a.full_url("http://"), "http://");
}

#[test]
fn ensure_without_a_url_is_absent() {
    let m = media("a", "image");
    assert_eq!(assets().ensure_cached(&m, AssetType::Video, &cache(), false), CacheStep::Absent);
    assert_eq!(assets().ensure_cached(&m, AssetType::Poster, &cache(), true), CacheStep::Absent);
}

#[test]
fn ensure_of_an_uncached_asset_downloads() {
    let m = media("a", "image");
    assert_eq!(
        assets().ensure_cached(&m, AssetType::Display, &cache(), false),
        CacheStep::Download("http://localhost:8090/files/display.jpg".to_string())
    );
    assert_eq!(
        assets().ensure_cached(&m, AssetType::Blur, &cache(), true),
        CacheStep::Download("https://cdn.example.com/blur.jpg".to_string())
    );
}

#[test]
fn ensure_of_a_cached_asset_depends_on_the_file() {
    let m = media("a", "image");
    let mut c = cache();
    c.download_and_cache("a", AssetType::Display, 10);
    assert_eq!(
        assets().ensure_cached(&m, AssetType::Display, &c, true),
        CacheStep::Cached("/cache/a/display.jpg".to_string())
    );
    assert_eq!(
        assets().ensure_cached(&m, AssetType::Display, &c, false),
        CacheStep::Download("http://localhost:8090/files/display.jpg".to_string())
    );
}

#[test]
fn preload_kinds_of_an_image() {
    assert_eq!(
        assets().preload_media(&media("a", "image")),
        vec![AssetType::Display, AssetType::Blur]
    );
}

#[test]
fn preload_kinds_of_a_video() {
    assert_eq!(
        assets().preload_media(&media("a", "video")),
        vec![AssetType::Display, AssetType::Blur, AssetType::Poster, AssetType::Video]
    );
}

#[test]
fn textures_of_an_image() {
    let mut c = cache();
    c.download_and_cache("a", AssetType::Display, 1);
    c.download_and_cache("a", AssetType::Blur, 1);
    c.download_and_cache("a", AssetType::Poster, 1);
    assert_eq!(
        assets().load_textures(&media("a", "image"), &c),
        TextureSources {
            blur: Some("/cache/a/blur.jpg".to_string()),
            display: Some("/cache/a/display.jpg".to_string()),
        }
    );
}

#[test]
fn textures_of_a_video_use_the_poster() {
    let mut c = cache();
    c.download_and_cache("a", AssetType::Display, 1);
    c.download_and_cache("a", AssetType::Poster, 1);
    assert_eq!(
        assets().load_textures(&media("a", "video"), &c),
        TextureSources { blur: None, display: Some("/cache/a/poster.jpg".to_string()) }
    );
}

#[test]
fn textures_of_an_uncached_item_are_empty() {
    assert_eq!(
        assets().load_textures(&media("a", "video"), &cache()),
        TextureSources { blur: None, display: None }
    );
}

#[test]
fn look_ahead_on_a_short_playlist_stops_before_the_cursor() {
    let p = Preloader::new(assets());
    let playlist = vec![media("a", "image"), media("b", "image"), media("c", "image")];
    assert_eq!(p.preload_next(&playlist, 0, 10), vec![1, 2]);
    assert_eq!(p.preload_next(&playlist, 1, 10), vec![2, 0]);
    assert_eq!(p.preload_next(&playlist, 2, 10), vec![0, 1]);
    assert_eq!(p.preload_next(&playlist, 2, 3), vec![0, 1]);
}

#[test]
fn look_ahead_visits_the_next_entries_in_order() {
    let p = Preloader::new(assets());
    let playlist: Vec<Media> = (0..5).map(|n| media(&format!("m{}", n), "image")).collect();
    assert_eq!(p.preload_next(&playlist, 0, 3), vec![1, 2, 3]);
    assert_eq!(p.preload_next(&playlist, 3, 2), vec![4, 0]);
    assert_eq!(p.preload_next(&playlist, 4, 4), vec![0, 1, 2, 3]);
    assert_eq!(p.preload_next(&playlist, 4, 0), Vec::<usize>::new());
}

#[test]
fn look_ahead_on_a_single_entry_visits_nothing() {
    let p = Preloader::new(assets());
    let playlist = vec![media("a", "image")];
    assert_eq!(p.preload_next(&playlist, 0, 3), Vec::<usize>::new());
}

#[test]
fn look_ahead_from_a_stale_cursor_does_not_stop_early() {
    let p = Preloader::new(assets());
    let playlist = vec![media("a", "image"), media("b", "image")];
    assert_eq!(p.preload_next(&playlist, 5, 3), vec![0, 1, 0]);
    assert_eq!(p.preload_next(&playlist, usize::MAX, 2), vec![0, 1]);
}

#[test]
fn preload_all_visits_every_entry_once() {
    let p = Preloader::new(assets());
    let playlist = vec![media("a", "image"), media("b", "image"), media("c", "image")];
    assert_eq!(p.preload_all(&playlist), vec![0, 1, 2]);
    assert_eq!(p.preload_all(&Vec::new()), Vec::<usize>::new());
    assert_eq!(p.asset_manager().full_url("/x"), "http://localhost:8090/x");
}
