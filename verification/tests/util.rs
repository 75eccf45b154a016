use std::sync::Arc;

use bingus_blog::config::{
    check_millis, check_zstd_level_bounds, CacheConfig, MarkdownConfig, StyleConfig,
};
use bingus_blog::error::FsError;
use bingus_blog::hash_arc_store::HashArcStore;
use bingus_blog::hashing::hash_str;
use bingus_blog::helpers::{duration, u128_to_string};
use bingus_blog::path::{is_safe_path, SafePath};
use bingus_blog::post::tags_strictly_sorted;
use bingus_blog::strutil::{append_suffix, ends_with, lex_lt, path_join, str_eq, strip_suffix_str};
use bingus_blog::systemtime_as_secs::{as_millis, as_secs, SysTime};
use bingus_blog::PostError;

#[test]
fn string_helpers() {
    assert!(str_eq("hello", "hello"));
    assert!(!str_eq("hello", "hellO"));
    assert!(!str_eq("hello", "hell"));
    assert!(str_eq("", ""));
    assert!(str_eq("héllo", "héllo"));

    assert!(ends_with("post.md", ".md"));
    assert!(!ends_with("post.mdx", ".md"));
    assert!(!ends_with("md", ".md"));
    assert!(ends_with("anything", ""));

    assert_eq!(append_suffix("post", ".md"), "post.md");
    assert_eq!(strip_suffix_str("post.md", ".md").as_deref(), Some("post"));
    assert_eq!(strip_suffix_str("post.txt", ".md"), None);
    assert_eq!(path_join("posts", "a.md"), "posts/a.md");
}

#[test]
fn hashing_is_deterministic_and_content_dependent() {
    assert_eq!(hash_str("abc"), hash_str("abc"));
    assert_ne!(hash_str("abc"), hash_str("abd"));
    assert_ne!(hash_str(""), hash_str("a"));
}

#[test]
fn decimal_formatting() {
    assert_eq!(u128_to_string(0), "0");
    assert_eq!(u128_to_string(7), "7");
    assert_eq!(u128_to_string(1234567890), "1234567890");
    assert_eq!(duration(&1500), "1500ns");
    assert_eq!(duration(&0), "0ns");
}

#[test]
fn timestamps() {
    let t = SysTime { secs: 12, nanos: 345_000_000 };
    assert_eq!(as_secs(t), 12);
    assert_eq!(as_millis(t), 12_345);
    let zero = SysTime { secs: 0, nanos: 0 };
    assert_eq!(as_millis(zero), 0);
}

#[test]
fn memo_slot_builds_once_per_hash() {
    let mut slot: HashArcStore<String> = HashArcStore::new();
    let a = slot.get_or_init(1, || Arc::new("built-1".to_string()));
    assert_eq!(&*a, "built-1");
    // same hash: the stored value comes back, the builder does not run
    let b = slot.get_or_init(1, || Arc::new("should not run".to_string()));
    assert!(Arc::ptr_eq(&a, &b));
    // a changed hash rebuilds
    let c = slot.get_or_init(2, || Arc::new("built-2".to_string()));
    assert_eq!(&*c, "built-2");
}

#[test]
fn safe_paths() {
    assert!(is_safe_path("hello"));
    assert!(is_safe_path("hello.md"));
    assert!(is_safe_path("a.b.c"));
    assert!(!is_safe_path("../etc"));
    assert!(!is_safe_path("a/b"));
    assert!(!is_safe_path(".."));
    assert!(SafePath::new("hello".to_string()).is_some());
    assert!(SafePath::new("h/ello".to_string()).is_none());
}

#[test]
fn config_defaults_match_documentation() {
    let cache = CacheConfig::default();
    assert!(cache.enable);
    assert_eq!(cache.ttl, None);
    assert!(cache.cleanup);
    assert!(cache.persistence);
    assert_eq!(cache.file, "cache");
    assert!(cache.compress);
    assert_eq!(cache.compression_level, 3);

    let md = MarkdownConfig::default();
    assert_eq!(md.root, "posts");
    assert!(md.raw_access);

    let style = StyleConfig::default();
    assert_eq!(style.title, "bingus-blog");
    assert!(style.js_enable);
}

#[test]
fn error_kinds() {
    assert_eq!(PostError::NotFound("x".to_string()).kind(), "post not found");
    assert_eq!(PostError::IoError("x".to_string()).kind(), "io error");
    assert_eq!(PostError::ParseError("x".to_string()).kind(), "failed to parse post metadata");
    assert_eq!(PostError::RenderError("x".to_string()).kind(), "failed to render post");
    assert_eq!(PostError::Other("x".to_string()).kind(), "unexpected");
    assert_eq!(FsError::NotFound, FsError::NotFound);
}

#[test]
fn config_validation_bounds() {
    assert_eq!(check_zstd_level_bounds(1), Some(1));
    assert_eq!(check_zstd_level_bounds(22), Some(22));
    assert_eq!(check_zstd_level_bounds(0), None);
    assert_eq!(check_zstd_level_bounds(23), None);
    assert_eq!(check_zstd_level_bounds(-3), None);
    assert_eq!(check_millis(0), None);
    assert_eq!(check_millis(1), Some(1));
}

#[test]
fn lexicographic_order() {
    assert!(lex_lt("a", "b"));
    assert!(!lex_lt("b", "a"));
    assert!(lex_lt("a", "ab"));
    assert!(!lex_lt("ab", "a"));
    assert!(!lex_lt("a", "a"));
    assert!(lex_lt("", "a"));
    assert!(lex_lt("abc", "abd"));
}

#[test]
fn tag_lists_are_checked_for_strict_order() {
    let sorted = vec!["a".to_string(), "b".to_string(), "c".to_string()];
    let duplicate = vec!["a".to_string(), "a".to_string()];
    let unsorted = vec!["b".to_string(), "a".to_string()];
    let empty: Vec<String> = Vec::new();
    assert!(tags_strictly_sorted(&sorted));
    assert!(tags_strictly_sorted(&empty));
    assert!(tags_strictly_sorted(&vec!["only".to_string()]));
    assert!(!tags_strictly_sorted(&duplicate));
    assert!(!tags_strictly_sorted(&unsorted));
}
