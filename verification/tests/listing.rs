use bingus_blog::filters::collect_tags;
use bingus_blog::post::{
    collect_listing, get_max_n_post_metadata_with_optional_tag_sorted, sort_posts, ApplyFilters,
    Filter, PostMetadata, RenderStats,
};
use bingus_blog::PostError;

fn post(name: &str, written: Option<i64>, modified: Option<i64>, tags: &[&str]) -> PostMetadata {
    PostMetadata {
        name: name.to_string(),
        title: name.to_string(),
        description: String::new(),
        author: String::new(),
        icon: None,
        icon_alt: None,
        color: None,
        written_at: written,
        modified_at: modified,
        tags: tags.iter().map(|t| t.to_string()).collect(),
    }
}

fn names(posts: &[PostMetadata]) -> Vec<String> {
    posts.iter().map(|p| p.name.clone()).collect()
}

#[test]
fn sort_is_most_recent_first() {
    let posts = vec![
        post("old", Some(10), None, &[]),
        post("new", Some(30), None, &[]),
        post("mid", Some(20), None, &[]),
    ];
    let sorted = sort_posts(posts);
    assert_eq!(names(&sorted), vec!["new", "mid", "old"]);
}

#[test]
fn sort_ties_break_on_modified() {
    let posts = vec![
        post("a", Some(10), Some(1), &[]),
        post("b", Some(10), Some(9), &[]),
        post("undated", None, None, &[]),
    ];
    let sorted = sort_posts(posts);
    // equal written_at: the later-modified post first; missing dates fall
    // back to the epoch and sort last
    assert_eq!(names(&sorted), vec!["b", "a", "undated"]);
}

#[test]
fn listing_with_tag_and_limit() {
    // tag "x", n = 1: at most one document, the most recently written
    // among those tagged x
    let posts = vec![
        post("untagged", Some(99), None, &[]),
        post("x-old", Some(10), None, &["x"]),
        post("x-new", Some(20), None, &["x", "y"]),
        post("y-only", Some(50), None, &["y"]),
    ];
    let top = get_max_n_post_metadata_with_optional_tag_sorted(posts, Some(1), Some("x"));
    assert_eq!(names(&top), vec!["x-new"]);
}

#[test]
fn listing_without_tag_keeps_everything_sorted() {
    let posts = vec![
        post("a", Some(1), None, &[]),
        post("b", Some(3), None, &[]),
        post("c", Some(2), None, &[]),
    ];
    let all = get_max_n_post_metadata_with_optional_tag_sorted(posts, None, None);
    assert_eq!(names(&all), vec!["b", "c", "a"]);
}

#[test]
fn listing_limit_zero_is_empty() {
    let posts = vec![post("a", Some(1), None, &["x"])];
    let top = get_max_n_post_metadata_with_optional_tag_sorted(posts, Some(0), None);
    assert!(top.is_empty());
}

#[test]
fn listing_limit_above_count_returns_all() {
    let posts = vec![post("a", Some(1), None, &["x"]), post("b", Some(2), None, &["x"])];
    let top = get_max_n_post_metadata_with_optional_tag_sorted(posts, Some(10), Some("x"));
    assert_eq!(names(&top), vec!["b", "a"]);
}

#[test]
fn filters_require_a_matching_tag() {
    let p = post("a", None, None, &["x", "y"]);
    let yes = Filter::Tags(vec!["z".to_string(), "y".to_string()]);
    let no = Filter::Tags(vec!["z".to_string()]);
    assert!(yes.apply(&p));
    assert!(!no.apply(&p));
    assert!(p.apply_filters(&vec![]));
    assert!(p.apply_filters(&vec![Filter::Tags(vec!["x".to_string()])]));
    assert!(!p.apply_filters(&vec![
        Filter::Tags(vec!["x".to_string()]),
        Filter::Tags(vec!["z".to_string()]),
    ]));
}

#[test]
fn collect_tags_counts_every_occurrence() {
    let posts = vec![
        post("alpha", None, None, &["x", "y"]),
        post("beta", None, None, &["y"]),
        post("gamma", None, None, &["y", "z"]),
    ];
    let tags = collect_tags(&posts);
    let expected: Vec<(String, u64)> = vec![
        ("y".to_string(), 3),
        ("x".to_string(), 1),
        ("z".to_string(), 1),
    ];
    assert_eq!(tags, expected);
}

#[test]
fn collect_tags_of_empty_listing_is_empty() {
    let tags = collect_tags(&Vec::new());
    assert!(tags.is_empty());
}

#[test]
fn collect_listing_keeps_matching_successes_in_order() {
    let results = vec![
        Ok((post("one", None, None, &["x"]), "b1".to_string(), RenderStats::Unknown)),
        Err(PostError::NotFound("broken".to_string())),
        Ok((post("two", None, None, &["y"]), "b2".to_string(), RenderStats::Unknown)),
        Ok((post("three", None, None, &["x", "y"]), "b3".to_string(), RenderStats::Unknown)),
    ];
    let filters = vec![Filter::Tags(vec!["x".to_string()])];
    let kept = collect_listing(results, &filters);
    let names: Vec<String> = kept.iter().map(|(m, ..)| m.name.clone()).collect();
    assert_eq!(names, vec!["one".to_string(), "three".to_string()]);
    assert_eq!(kept[0].1, "b1");
    assert_eq!(kept[1].1, "b3");
}

#[test]
fn collect_listing_without_filters_drops_only_failures() {
    let results = vec![
        Err(PostError::IoError("disk".to_string())),
        Ok((post("only", None, None, &[]), "b".to_string(), RenderStats::Unknown)),
    ];
    let kept = collect_listing(results, &Vec::new());
    assert_eq!(kept.len(), 1);
    assert_eq!(kept[0].0.name, "only");
}
