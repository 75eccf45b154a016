use bingus_blog::post::cache::{Cache, CacheKey, CacheValue, CACHE_VERSION};
use bingus_blog::post::PostMetadata;

fn meta(name: &str) -> PostMetadata {
    PostMetadata {
        name: name.to_string(),
        title: format!("{} title", name),
        description: "desc".to_string(),
        author: "me".to_string(),
        icon: None,
        icon_alt: None,
        color: None,
        written_at: Some(100),
        modified_at: Some(200),
        tags: vec!["x".to_string()],
    }
}

#[test]
fn insert_then_lookup_hits() {
    let mut cache = Cache::new(None);
    cache.insert("a".to_string(), meta("a"), 50, "<p>body</p>".to_string(), 7, 1000);
    let hit = cache.lookup("a", 50, 7, 2000).expect("fresh entry should hit");
    assert_eq!(&*hit.body, "<p>body</p>");
    assert_eq!(hit.mtime, 50);
    assert_eq!(hit.cached_at, 1000);
    assert_eq!(&*hit.meta.title, "a title");
}

#[test]
fn lookup_with_older_source_hits() {
    // source mtime observed at lookup is older than the cached render
    let mut cache = Cache::new(None);
    cache.insert("a".to_string(), meta("a"), 50, "b".to_string(), 7, 1000);
    assert!(cache.lookup("a", 49, 7, 2000).is_some());
}

#[test]
fn freshness_newer_source_misses_and_evicts() {
    let mut cache = Cache::new(None);
    cache.insert("a".to_string(), meta("a"), 50, "b".to_string(), 7, 1000);
    // the source changed after the render: stale, evicted
    assert!(cache.lookup("a", 51, 7, 2000).is_none());
    // the stale entry is gone even for a lookup that would have been fresh
    assert!(cache.lookup("a", 50, 7, 2000).is_none());
    assert_eq!(cache.len(), 0);
}

#[test]
fn variant_isolation() {
    let mut cache = Cache::new(None);
    cache.insert("a".to_string(), meta("a"), 50, "variant-a".to_string(), 1, 1000);
    assert!(cache.lookup("a", 50, 2, 1000).is_none());
    let hit = cache.lookup("a", 50, 1, 1000).unwrap();
    assert_eq!(&*hit.body, "variant-a");
}

#[test]
fn ttl_expiry() {
    // TTL of 1ms; inserted at t, looked up 10ms later: a miss even though
    // the source is unchanged
    let mut cache = Cache::new(Some(1));
    cache.insert("a".to_string(), meta("a"), 50, "b".to_string(), 7, 1000);
    assert!(cache.lookup("a", 50, 7, 1010).is_none());
    // within the TTL it hits
    let mut cache = Cache::new(Some(1));
    cache.insert("a".to_string(), meta("a"), 50, "b".to_string(), 7, 1000);
    assert!(cache.lookup("a", 50, 7, 1001).is_some());
}

#[test]
fn last_insert_wins() {
    let mut cache = Cache::new(None);
    assert!(cache.insert("a".to_string(), meta("a"), 50, "one".to_string(), 7, 1000).is_none());
    let prev = cache
        .insert("a".to_string(), meta("a"), 51, "two".to_string(), 7, 1500)
        .expect("second insert replaces the first");
    assert_eq!(&*prev.body, "one");
    let hit = cache.lookup("a", 51, 7, 1600).unwrap();
    assert_eq!(&*hit.body, "two");
    assert_eq!(cache.len(), 1);
}

#[test]
fn remove_returns_entry() {
    let mut cache = Cache::new(None);
    cache.insert("a".to_string(), meta("a"), 50, "b".to_string(), 7, 1000);
    let (key, value) = cache.remove("a", 7).unwrap();
    assert_eq!(&*key.name, "a");
    assert_eq!(key.extra, 7);
    assert_eq!(&*value.body, "b");
    assert!(cache.remove("a", 7).is_none());
    assert_eq!(cache.len(), 0);
}

#[test]
fn lookup_metadata_matches_lookup() {
    let mut cache = Cache::new(None);
    cache.insert("a".to_string(), meta("a"), 50, "b".to_string(), 7, 1000);
    let m = cache.lookup_metadata("a", 50, 7, 2000).unwrap();
    assert_eq!(&*m.title, "a title");
    assert!(cache.lookup_metadata("a", 99, 7, 2000).is_none());
    assert!(cache.lookup_metadata("a", 50, 7, 2000).is_none());
}

#[test]
fn retain_keeps_only_approved() {
    let mut cache = Cache::new(None);
    cache.insert("a".to_string(), meta("a"), 50, "b".to_string(), 1, 1000);
    cache.insert("b".to_string(), meta("b"), 50, "b".to_string(), 2, 1000);
    cache.retain(|k: &CacheKey, _v: &CacheValue| k.extra == 1);
    assert_eq!(cache.len(), 1);
    assert!(cache.lookup("a", 50, 1, 1000).is_some());
    assert!(cache.lookup("b", 50, 2, 1000).is_none());
}

#[test]
fn cleanup_enforces_ttl() {
    let mut cache = Cache::new(Some(5));
    cache.insert("old".to_string(), meta("old"), 50, "b".to_string(), 1, 1000);
    cache.insert("new".to_string(), meta("new"), 50, "b".to_string(), 1, 2000);
    cache.cleanup(2003, |_k: &CacheKey, _v: &CacheValue| true);
    assert_eq!(cache.len(), 1);
    assert!(cache.lookup("new", 50, 1, 2004).is_some());
}

#[test]
fn version_discard_on_load() {
    let mut donor = Cache::new(None);
    donor.insert("a".to_string(), meta("a"), 50, "b".to_string(), 7, 1000);
    let (key, value) = donor.remove("a", 7).unwrap();

    // a blob tagged with an older version yields an empty cache
    let mut loaded = Cache::from_loaded(CACHE_VERSION - 1, None, vec![(key, value)]);
    assert_eq!(loaded.len(), 0);
    assert_eq!(loaded.version(), CACHE_VERSION);
    assert!(loaded.lookup("a", 50, 7, 2000).is_none());
}

#[test]
fn current_version_load_keeps_entries() {
    let mut donor = Cache::new(None);
    donor.insert("a".to_string(), meta("a"), 50, "b".to_string(), 7, 1000);
    let entry = donor.remove("a", 7).unwrap();

    let mut loaded = Cache::from_loaded(CACHE_VERSION, None, vec![entry]);
    assert_eq!(loaded.len(), 1);
    assert_eq!(loaded.version(), CACHE_VERSION);
    let hit = loaded.lookup("a", 50, 7, 2000).unwrap();
    assert_eq!(&*hit.body, "b");
}

#[test]
fn load_with_duplicate_keys_keeps_last() {
    let mut donor = Cache::new(None);
    donor.insert("a".to_string(), meta("a"), 50, "one".to_string(), 7, 1000);
    let first = donor.remove("a", 7).unwrap();
    donor.insert("a".to_string(), meta("a"), 60, "two".to_string(), 7, 1100);
    let second = donor.remove("a", 7).unwrap();

    let mut loaded = Cache::from_loaded(CACHE_VERSION, None, vec![first, second]);
    assert_eq!(loaded.len(), 1);
    let hit = loaded.lookup("a", 60, 7, 2000).unwrap();
    assert_eq!(&*hit.body, "two");
}

#[test]
fn new_cache_is_empty_and_current() {
    let mut cache = Cache::new(Some(1000));
    assert_eq!(cache.len(), 0);
    assert_eq!(cache.version(), CACHE_VERSION);
    assert!(cache.lookup("a", 0, 0, 0).is_none());
}
