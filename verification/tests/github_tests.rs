use rusher::scanner::github::{auth_header, flatten_ranges, sort_dedup, text_less, GithubMetaResponse, MetaCache};
use rusher::time::Duration;

fn meta() -> GithubMetaResponse {
    GithubMetaResponse {
        hooks: vec!["192.30.252.0/22".to_string(), "185.199.108.0/22".to_string()],
        web: vec!["140.82.112.0/20".to_string(), "192.30.252.0/22".to_string()],
        api: vec!["140.82.112.0/20".to_string()],
        git: vec![],
        packages: vec!["2a0a:a440::/29".to_string()],
        pages: vec![],
        importer: vec![],
        actions: vec!["4.148.0.0/16".to_string()],
        dependabot: vec![],
    }
}

#[test]
fn texts_compare_character_by_character() {
    assert!(text_less("abc", "abd"));
    assert!(!text_less("abd", "abc"));
    assert!(text_less("ab", "abc"));
    assert!(!text_less("abc", "abc"));
    assert!(text_less("192.30.252.0/22", "2a0a:a440::/29"));
    assert!(text_less("Z", "a"));
}

#[test]
fn sort_dedup_orders_and_drops_repeats() {
    let v = vec!["b".to_string(), "a".to_string(), "c".to_string(), "a".to_string(), "b".to_string()];
    assert_eq!(sort_dedup(&v), vec!["a", "b", "c"]);
    assert!(sort_dedup(&vec![]).is_empty());
}

#[test]
fn flattening_sorts_all_categories_and_custom_ranges() {
    let custom = vec!["10.0.0.0/8".to_string(), "4.148.0.0/16".to_string()];
    let out = flatten_ranges(&meta(), &custom);
    assert_eq!(
        out,
        vec!["10.0.0.0/8", "140.82.112.0/20", "185.199.108.0/22", "192.30.252.0/22", "2a0a:a440::/29", "4.148.0.0/16"]
    );
    let mut expected: Vec<String> = out.clone();
    expected.sort();
    expected.dedup();
    assert_eq!(out, expected);
}

#[test]
fn bearer_header_only_with_enabled_non_empty_token() {
    assert_eq!(auth_header(true, &Some("abc".to_string())), Some("Bearer abc".to_string()));
    assert_eq!(auth_header(true, &Some(String::new())), None);
    assert_eq!(auth_header(true, &None), None);
    assert_eq!(auth_header(false, &Some("abc".to_string())), None);
}

#[test]
fn meta_cache_serves_fresh_documents() {
    let mut cache = MetaCache::new(Duration::from_secs(3600));
    assert!(cache.get_cached_response().is_none());
    let status = cache.get_api_status("https://api.github.com/meta", false);
    assert!(!status.has_cache);
    assert!(!status.cache_valid);

    cache.update_cache(meta());
    let cached = cache.get_cached_response().expect("fresh document");
    assert_eq!(cached.web, meta().web);
    let ranges = cache.get_cached_ip_ranges(&vec![]).expect("fresh document");
    assert_eq!(ranges.len(), 5);
    let status = cache.get_api_status("https://api.github.com/meta", true);
    assert!(status.has_cache);
    assert!(status.cache_valid);
    assert!(status.auth_enabled);
    assert_eq!(status.api_url, "https://api.github.com/meta");
    assert_eq!(status.cache_ttl.as_secs(), 3600);

    cache.clear_cache();
    assert!(cache.get_cached_response().is_none());
}

#[test]
fn meta_cache_with_no_time_to_live_serves_nothing() {
    let mut cache = MetaCache::new(Duration::from_secs(0));
    cache.update_cache(meta());
    assert!(cache.get_cached_response().is_none());
    assert!(cache.get_cached_ip_ranges(&vec![]).is_none());
    let status = cache.get_api_status("u", false);
    assert!(status.has_cache);
    assert!(!status.cache_valid);
}

#[test]
fn meta_cache_by_age() {
    let mut cache = MetaCache::new(Duration::from_secs(60));
    assert!(cache.response_at_age(Duration::from_secs(0)).is_none());
    assert!(!cache.status_at_age("u", false, Duration::from_secs(0)).cache_valid);
    cache.update_cache(meta());
    assert!(cache.response_at_age(Duration::from_secs(59)).is_some());
    assert!(cache.response_at_age(Duration::new(59, 999_999_999)).is_some());
    assert!(cache.response_at_age(Duration::from_secs(60)).is_none());
    assert!(cache.ranges_at_age(&vec!["10.0.0.0/8".to_string()], Duration::from_secs(1)).unwrap().len() == 6);
    assert!(cache.ranges_at_age(&vec![], Duration::from_secs(61)).is_none());
    assert!(cache.status_at_age("u", false, Duration::from_secs(30)).cache_valid);
    assert!(!cache.status_at_age("u", false, Duration::from_secs(90)).cache_valid);
}
