use total_recall::{relative_path, storage_key, AssetError, AssetJob, AssetKind, CacheStep};

#[test]
fn storage_key_removes_unsafe_characters() {
    assert_eq!(storage_key("bar"), "bar");
    assert_eq!(storage_key("a/b\\c"), "abc");
    assert_eq!(storage_key(".."), "");
    assert_eq!(storage_key("Straße am See"), "Straße am See");
    assert_eq!(storage_key("a\u{1}b"), "ab");
}

#[test]
fn paths_are_deterministic() {
    assert_eq!(relative_path(AssetKind::Audio, "de", "Haus"), "audio/de/Haus.mp3");
    assert_eq!(relative_path(AssetKind::Image, "de", "Haus"), "images/de/Haus.jpg");
    let a = AssetJob::new(AssetKind::Image, "fr".to_string(), "chat/noir".to_string());
    let b = AssetJob::new(AssetKind::Image, "fr".to_string(), "chat/noir".to_string());
    assert_eq!(a.path(), "images/fr/chatnoir.jpg");
    assert_eq!(a.path(), b.path());
    assert_eq!(a.directory(), "images/fr");
}

#[test]
fn cache_hit_needs_no_fetch_and_keeps_the_path() {
    let job = AssetJob::new(AssetKind::Audio, "en".to_string(), "hello".to_string());
    match job.on_cache_check(true) {
        CacheStep::Hit(p) => assert_eq!(p, "audio/en/hello.mp3"),
        CacheStep::Fetch(u) => panic!("fetched {} although cached", u),
    }
    match job.on_cache_check(true) {
        CacheStep::Hit(p) => assert_eq!(p, job.path()),
        CacheStep::Fetch(u) => panic!("fetched {} although cached", u),
    }
}

#[test]
fn cache_miss_fetches_from_the_source() {
    let audio = AssetJob::new(AssetKind::Audio, "en".to_string(), "Hello, World!".to_string());
    match audio.on_cache_check(false) {
        CacheStep::Fetch(u) => assert_eq!(
            u,
            "https://translate.google.com/translate_tts?ie=UTF-8&q=Hello, World!&tl=en&tk=418730.60457&client=webapp"
        ),
        CacheStep::Hit(p) => panic!("hit {} although missing", p),
    }
    let image = AssetJob::new(AssetKind::Image, "en".to_string(), "cat".to_string());
    match image.on_cache_check(false) {
        CacheStep::Fetch(u) => assert_eq!(u, "https://www.google.com/search?q=cat&tbm=isch&tbs=ift:jpg"),
        CacheStep::Hit(p) => panic!("hit {} although missing", p),
    }
}

#[test]
fn search_page_gives_first_image() {
    let job = AssetJob::new(AssetKind::Image, "en".to_string(), "cat".to_string());
    let page = "<html><body><img alt=\"logo\" src=\"/logo.png\"><img alt=\"\"><img alt=\"\" src=\"http://img/1.jpg\"><img alt=\"\" src=\"http://img/2.jpg\"></body></html>";
    assert_eq!(job.on_search_page(page), Ok("http://img/1.jpg".to_string()));
    assert_eq!(job.on_search_page("<html><body><p>none</p></body></html>"), Err(AssetError::NoResult));
}
