use reqwest::header::{HeaderMap, HeaderName, HeaderValue};
use std::collections::hash_map::DefaultHasher;
use std::hash::{Hash, Hasher};
use std::str::FromStr;
use webscout::http::cache::{cache_ttl, RequestCache};
use webscout::http::HttpResponse;

fn ok_response() -> HttpResponse {
    HttpResponse {
        status: 200,
        final_url: "https://example.com".to_string(),
        headers: HeaderMap::new(),
        body: b"ok".to_vec(),
    }
}

#[test]
fn test_cache_ttl_expiry() {
    let mut cache = RequestCache::new();
    let key = RequestCache::generate_cache_key("GET", "https://example.com", None);

    let resp = ok_response();

    // Should cache for 1 second
    cache.insert(key, &resp, Some("max-age=1"));

    {
        let loaded = cache.get(key);
        assert!(loaded.is_some());
    }

    let start = std::time::Instant::now();
    while start.elapsed() < std::time::Duration::from_millis(1100) {
        std::hint::spin_loop();
    }

    {
        let expired = cache.get(key);
        assert!(expired.is_none());
    }
}

#[test]
fn served_entry_keeps_the_response() {
    let mut cache = RequestCache::new();
    let mut headers = HeaderMap::new();
    headers.insert(HeaderName::from_str("etag").unwrap(), HeaderValue::from_str("\"v1\"").unwrap());
    let resp = HttpResponse { status: 203, final_url: String::new(), headers, body: b"payload".to_vec() };
    cache.insert(7, &resp, Some("public, max-age=60"));
    let e = cache.serve(7, 0).unwrap();
    assert_eq!(e.status, 203);
    assert_eq!(e.body, b"payload".to_vec());
    assert_eq!(e.headers.get("etag").unwrap(), "\"v1\"");
    assert_eq!(e.ttl_secs, 60);
    assert!(cache.serve(7, 60_000_000_000).is_some());
    assert!(cache.serve(7, 60_000_000_001).is_none());
    assert!(cache.serve(8, 0).is_none());
    assert!(cache.get(8).is_none());
}

#[test]
fn uncacheable_responses_are_not_stored() {
    let mut cache = RequestCache::new();
    cache.insert(1, &ok_response(), Some("no-store"));
    cache.insert(2, &ok_response(), Some("private, no-cache"));
    assert!(cache.entry(1).is_none());
    assert!(cache.entry(2).is_none());
    cache.insert(3, &ok_response(), None);
    assert_eq!(cache.entry(3).unwrap().ttl_secs, 300);
}

#[test]
fn later_insert_replaces_earlier() {
    let mut cache = RequestCache::new();
    cache.insert(1, &ok_response(), Some("max-age=5"));
    let mut other = ok_response();
    other.status = 404;
    cache.insert(1, &other, Some("max-age=9"));
    let e = cache.entry(1).unwrap();
    assert_eq!(e.status, 404);
    assert_eq!(e.ttl_secs, 9);
}

#[test]
fn ttl_from_cache_control() {
    assert_eq!(cache_ttl(None), Some(300));
    assert_eq!(cache_ttl(Some("max-age=1")), Some(1));
    assert_eq!(cache_ttl(Some("public, max-age=3600")), Some(3600));
    assert_eq!(cache_ttl(Some("public,  max-age = 42 ")), Some(300));
    assert_eq!(cache_ttl(Some("max-age= 42 ")), Some(42));
    assert_eq!(cache_ttl(Some("max-age=abc, max-age=5")), Some(300));
    assert_eq!(cache_ttl(Some("max-age=10=20")), Some(10));
    assert_eq!(cache_ttl(Some("public")), Some(300));
    assert_eq!(cache_ttl(Some("\u{a0}max-age=7")), Some(7));
    assert_eq!(cache_ttl(Some("no-store, max-age=5")), None);
    assert_eq!(cache_ttl(Some("max-age=5, no-cache")), None);
    assert_eq!(cache_ttl(Some("")), Some(300));
}

fn std_key(method: &str, url: &str, accept: Option<&str>) -> u64 {
    let mut hasher = DefaultHasher::new();
    method.hash(&mut hasher);
    url.hash(&mut hasher);
    if let Some(a) = accept {
        a.hash(&mut hasher);
    }
    hasher.finish()
}

#[test]
fn cache_key_matches_std_hashing() {
    for (m, u, a) in [
        ("GET", "https://example.com", None),
        ("POST", "https://example.com/form", Some("text/html")),
        ("GET", "", Some("")),
    ] {
        assert_eq!(RequestCache::generate_cache_key(m, u, a), std_key(m, u, a));
    }
    assert_ne!(
        RequestCache::generate_cache_key("GET", "https://example.com", None),
        RequestCache::generate_cache_key("GET", "https://example.com", Some("*/*"))
    );
    assert_eq!(
        RequestCache::generate_cache_key("GET", "https://a.test", None),
        RequestCache::generate_cache_key("GET", "https://a.test", None)
    );
}

#[test]
fn serve_refuses_an_entry_past_its_age() {
    let mut cache = RequestCache::new();
    let key = RequestCache::generate_cache_key("GET", "https://example.com/clock", None);
    cache.insert(key, &ok_response(), Some("max-age=1"));
    assert!(cache.serve(key, 1_000_000_000).is_some());
    assert!(cache.serve(key, 1_100_000_000).is_none());
}
