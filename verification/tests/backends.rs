use bingus_blog::config::{BlagConfig, MarkdownConfig, MarkdownRenderConfig, SyntectConfig};
use bingus_blog::error::FsError;
use bingus_blog::post::blag::{Blag, BlagMetadata, BlagRoute, BlagStep};
use bingus_blog::post::cache::Cache;
use bingus_blog::post::front_matter::{split_front_matter, FrontMatter};
use bingus_blog::post::markdown_posts::{MarkdownPosts, MdRoute, MdStep};
use bingus_blog::post::{get_post_metadata, PostManager, RenderStats, ReturnedPost};
use bingus_blog::PostError;
use comrak::plugins::syntect::SyntectAdapterBuilder;
use syntect::highlighting::ThemeSet;

fn md_config() -> MarkdownConfig {
    MarkdownConfig {
        root: "posts".to_string(),
        render: MarkdownRenderConfig {
            syntect: SyntectConfig { load_defaults: false, themes_dir: None, theme: None },
            escape: false,
            raw_html: false,
        },
        raw_access: true,
    }
}

fn md_backend(cache: Option<Cache>) -> MarkdownPosts {
    // CSS-class mode: highlighting needs no theme, so no theme can be missing
    let adapter = SyntectAdapterBuilder::new().theme_set(ThemeSet::new()).css().build();
    MarkdownPosts::new(md_config(), cache, adapter)
}

const HELLO: &str = "---\ntitle: Hi\ndescription: a greeting\nauthor: tester\ntags:\n- x\n- y\n---\n# Hello\n";

fn hello_front_matter() -> FrontMatter {
    // the fields the header block of HELLO carries, as the serde layer
    // hands them over
    FrontMatter {
        title: "Hi".to_string(),
        description: "a greeting".to_string(),
        author: "tester".to_string(),
        icon: None,
        icon_alt: None,
        color: None,
        written_at: None,
        modified_at: None,
        tags: vec!["x".to_string(), "y".to_string()],
    }
}

#[test]
fn split_front_matter_hello() {
    let (headers, body) = split_front_matter(HELLO).unwrap();
    assert_eq!(headers, "title: Hi\ndescription: a greeting\nauthor: tester\ntags:\n- x\n- y");
    assert_eq!(body, "# Hello\n");
}

#[test]
fn split_front_matter_missing_beginning() {
    match split_front_matter("# Hello\n") {
        Err(PostError::ParseError(m)) => assert_eq!(m, "missing beginning line"),
        other => panic!("expected a parse error, got {:?}", other),
    }
}

#[test]
fn split_front_matter_missing_ending() {
    match split_front_matter("---\ntitle: Hi\n# Hello\n") {
        Err(PostError::ParseError(m)) => assert_eq!(m, "missing ending line"),
        other => panic!("expected a parse error, got {:?}", other),
    }
}

#[test]
fn split_front_matter_empty_headers() {
    let (headers, body) = split_front_matter("---\n\n---\nbody").unwrap();
    assert_eq!(headers, "");
    assert_eq!(body, "body");
}

#[test]
fn markdown_end_to_end_render_then_cached() {
    let mut backend = md_backend(Some(Cache::new(None)));

    // first call: stat succeeds, cache is cold
    match backend.get_post_after_stat("hello", Ok(500), 1000, 10) {
        MdStep::Miss => {},
        other => panic!("expected a miss on a cold cache, got {:?}", other),
    }

    // the caller reads the file; the library splits and renders it
    let (_, md_body) = split_front_matter(HELLO).unwrap();
    let (meta, body) = backend.render_post(
        "hello",
        hello_front_matter(),
        &md_body,
        500,
        Some(400),
        Some(500),
        1000,
    );
    assert_eq!(meta.title, "Hi");
    assert_eq!(meta.name, "hello");
    let mut tags = meta.tags.clone();
    tags.sort();
    assert_eq!(tags, vec!["x".to_string(), "y".to_string()]);
    // timestamps absent from front matter fall back to filesystem times
    assert_eq!(meta.written_at, Some(400));
    assert_eq!(meta.modified_at, Some(500));
    assert!(body.contains("<h1"), "rendered body should hold a heading: {}", body);
    assert!(body.contains("Hello"), "rendered body should hold the text: {}", body);

    // second call with unchanged mtime: a hit with Cached stats and the
    // byte-identical body
    match backend.get_post_after_stat("hello", Ok(500), 2000, 33) {
        MdStep::Hit(ReturnedPost::Rendered { meta, body: cached, perf, raw_name }) => {
            assert_eq!(meta.title, "Hi");
            assert_eq!(cached, body);
            match perf {
                RenderStats::Cached(e) => assert_eq!(e, 33),
                other => panic!("expected Cached stats, got {:?}", other),
            }
            assert_eq!(raw_name.as_deref(), Some("hello.md"));
        },
        other => panic!("expected a hit, got {:?}", other),
    }

    // the same document under a changed source mtime renders afresh
    match backend.get_post_after_stat("hello", Ok(501), 3000, 1) {
        MdStep::Miss => {},
        other => panic!("expected a miss after the source changed, got {:?}", other),
    }
}

#[test]
fn markdown_stat_errors() {
    let mut backend = md_backend(None);
    match backend.get_post_after_stat("gone", Err(FsError::NotFound), 0, 0) {
        MdStep::Failed(PostError::NotFound(n)) => assert_eq!(n, "gone"),
        other => panic!("expected not-found, got {:?}", other),
    }
    match backend.get_post_after_stat("x", Err(FsError::Other("denied".to_string())), 0, 0) {
        MdStep::Failed(PostError::IoError(m)) => assert_eq!(m, "denied"),
        other => panic!("expected an io error, got {:?}", other),
    }
}

#[test]
fn markdown_route() {
    let backend = md_backend(None);
    match backend.route("hello.md") {
        MdRoute::RawFile { path } => assert_eq!(path, "posts/hello.md"),
        other => panic!("raw access to an .md name should serve the file, got {:?}", other),
    }
    match backend.route("hello") {
        MdRoute::Post { path, raw_name } => {
            assert_eq!(path, "posts/hello.md");
            assert_eq!(raw_name, "hello.md");
        },
        other => panic!("expected the rendered route, got {:?}", other),
    }
}

#[test]
fn markdown_cleanup_retains_live_and_drops_dead() {
    let mut backend = md_backend(Some(Cache::new(None)));
    let (_, md_body) = split_front_matter(HELLO).unwrap();
    backend.render_post("alpha", hello_front_matter(), &md_body, 500, None, None, 1000);
    backend.render_post("beta", hello_front_matter(), &md_body, 500, None, None, 1000);

    // alpha's source still exists with a matching mtime; beta's is gone
    let sources = vec![("alpha".to_string(), 500u64)];
    backend.cleanup(&sources, 2000);

    match backend.get_post_after_stat("alpha", Ok(500), 2000, 0) {
        MdStep::Hit(_) => {},
        other => panic!("alpha should survive cleanup, got {:?}", other),
    }
    match backend.get_post_after_stat("beta", Ok(500), 2000, 0) {
        MdStep::Miss => {},
        other => panic!("beta should be swept, got {:?}", other),
    }
}

#[test]
fn markdown_cleanup_drops_newer_source() {
    let mut backend = md_backend(Some(Cache::new(None)));
    let (_, md_body) = split_front_matter(HELLO).unwrap();
    backend.render_post("alpha", hello_front_matter(), &md_body, 500, None, None, 1000);
    // the source was rewritten after the render
    backend.cleanup(&vec![("alpha".to_string(), 600u64)], 2000);
    match backend.get_post_after_stat("alpha", Ok(500), 2000, 0) {
        MdStep::Miss => {},
        other => panic!("a stale entry should be swept, got {:?}", other),
    }
}

#[test]
fn render_hash_depends_on_configuration() {
    let a = md_backend(None);
    let mut cfg = md_config();
    cfg.render.escape = true;
    let adapter = SyntectAdapterBuilder::new().theme_set(ThemeSet::new()).css().build();
    let b = MarkdownPosts::new(cfg, None, adapter);
    let c = md_backend(None);
    assert_eq!(a.render_hash, c.render_hash, "equal configurations share a fingerprint");
    assert_ne!(a.render_hash, b.render_hash, "a changed configuration gets a new fingerprint");
}

fn blag_meta(dont_cache: bool) -> BlagMetadata {
    BlagMetadata {
        title: "Scripted".to_string(),
        description: "out of a pipe".to_string(),
        author: "sh".to_string(),
        icon: None,
        icon_alt: None,
        color: None,
        written_at: Some(42),
        modified_at: None,
        tags: vec!["z".to_string()],
        dont_cache,
        raw: None,
    }
}

#[test]
fn blag_render_then_cached_per_query() {
    let mut blag = Blag::new(BlagConfig::default(), Some(Cache::new(None)));

    let query = "{\"page\":\"1\"}";
    let qh = match blag.get_post_after_stat("demo", Ok((true, 700)), query, 1000, 5) {
        BlagStep::Miss { query_hash } => query_hash,
        other => panic!("expected a miss on a cold cache, got {:?}", other),
    };

    let post = blag.finish_render(
        "demo".to_string(),
        blag_meta(false),
        "script output".to_string(),
        700,
        query,
        1000,
        90,
        30,
        60,
    );
    match post {
        ReturnedPost::Rendered { meta, body, perf, raw_name } => {
            assert_eq!(meta.title, "Scripted");
            assert_eq!(meta.name, "demo");
            assert_eq!(body, "script output");
            match perf {
                RenderStats::Rendered { total, parsed, rendered } => {
                    assert_eq!((total, parsed, rendered), (90, 30, 60));
                },
                other => panic!("expected Rendered stats, got {:?}", other),
            }
            assert_eq!(raw_name.as_deref(), Some("demo.sh"));
        },
        other => panic!("expected a rendered post, got {:?}", other),
    }

    // the same query hits; a different query misses
    match blag.get_post_after_stat("demo", Ok((true, 700)), query, 1500, 2) {
        BlagStep::Hit(ReturnedPost::Rendered { body, perf, .. }) => {
            assert_eq!(body, "script output");
            assert!(matches!(perf, RenderStats::Cached(2)));
        },
        other => panic!("expected a hit for the cached query, got {:?}", other),
    }
    match blag.get_post_after_stat("demo", Ok((true, 700)), "{\"page\":\"2\"}", 1500, 2) {
        BlagStep::Miss { query_hash } => assert_ne!(query_hash, qh),
        other => panic!("expected a miss for another query, got {:?}", other),
    }
}

#[test]
fn blag_dont_cache_is_honoured() {
    let mut blag = Blag::new(BlagConfig::default(), Some(Cache::new(None)));
    let query = "{}";
    blag.finish_render(
        "demo".to_string(),
        blag_meta(true),
        "volatile".to_string(),
        700,
        query,
        1000,
        1,
        1,
        1,
    );
    match blag.get_post_after_stat("demo", Ok((true, 700)), query, 1001, 0) {
        BlagStep::Miss { .. } => {},
        other => panic!("a dont_cache render must not populate the cache, got {:?}", other),
    }
}

#[test]
fn blag_not_found_cases() {
    let mut blag = Blag::new(BlagConfig::default(), None);
    match blag.get_post_after_stat("demo", Err(FsError::NotFound), "{}", 0, 0) {
        BlagStep::Failed(PostError::NotFound(n)) => assert_eq!(n, "demo"),
        other => panic!("expected not-found, got {:?}", other),
    }
    // a directory of the right name is not a document
    match blag.get_post_after_stat("demo", Ok((false, 700)), "{}", 0, 0) {
        BlagStep::Failed(PostError::NotFound(n)) => assert_eq!(n, "demo"),
        other => panic!("expected not-found for a non-file, got {:?}", other),
    }
    match blag.get_post_after_stat("demo", Err(FsError::Other("oops".to_string())), "{}", 0, 0) {
        BlagStep::Failed(PostError::IoError(m)) => assert_eq!(m, "oops"),
        other => panic!("expected an io error, got {:?}", other),
    }
}

#[test]
fn blag_cleanup_retains_live_and_drops_dead() {
    let mut blag = Blag::new(BlagConfig::default(), Some(Cache::new(None)));
    let query = "{}";
    blag.finish_render(
        "alpha".to_string(),
        blag_meta(false),
        "a".to_string(),
        500,
        query,
        1000,
        1,
        1,
        1,
    );
    blag.finish_render(
        "beta".to_string(),
        blag_meta(false),
        "b".to_string(),
        500,
        query,
        1000,
        1,
        1,
        1,
    );
    blag.cleanup(&vec![("alpha".to_string(), 500u64)], 2000);
    assert!(matches!(
        blag.get_post_after_stat("alpha", Ok((true, 500)), query, 2000, 0),
        BlagStep::Hit(_)
    ));
    assert!(matches!(
        blag.get_post_after_stat("beta", Ok((true, 500)), query, 2000, 0),
        BlagStep::Miss { .. }
    ));
}

#[test]
fn blag_raw_helpers() {
    let post = Blag::raw_response(vec![1, 2, 3], "text/x-shellscript".to_string());
    match post {
        ReturnedPost::Raw { buffer, content_type } => {
            assert_eq!(buffer, vec![1, 2, 3]);
            assert_eq!(content_type, "text/x-shellscript");
        },
        other => panic!("expected a raw response, got {:?}", other),
    }
}

#[test]
fn blag_route_gates_raw_access() {
    let open = Blag::new(BlagConfig::default(), None);
    match open.route("demo.sh") {
        BlagRoute::RawFile { path } => assert_eq!(path, "posts/demo.sh"),
        other => panic!("raw access enabled should serve the script, got {:?}", other),
    }
    match open.route("demo") {
        BlagRoute::Post { path } => assert_eq!(path, "posts/demo.sh"),
        other => panic!("expected the rendered route, got {:?}", other),
    }

    let mut closed_config = BlagConfig::default();
    closed_config.raw_access = false;
    let closed = Blag::new(closed_config, None);
    // with raw access off, a .sh name is treated as a document name, so it
    // resolves to a source that does not exist rather than to the script
    match closed.route("demo.sh") {
        BlagRoute::Post { path } => assert_eq!(path, "posts/demo.sh.sh"),
        other => panic!("raw access disabled must not serve the script, got {:?}", other),
    }
}

#[test]
fn blag_render_decisions() {
    let mut meta = blag_meta(false);
    assert_eq!(Blag::decide_after_meta(&meta), None);
    meta.raw = Some("text/plain".to_string());
    assert_eq!(Blag::decide_after_meta(&meta).as_deref(), Some("text/plain"));

    assert!(Blag::decide_after_body(true, "exit status: 0".to_string()).is_ok());
    match Blag::decide_after_body(false, "exit status: 3".to_string()) {
        Err(PostError::RenderError(s)) => assert_eq!(s, "exit status: 3"),
        other => panic!("expected a render error, got {:?}", other),
    }
}

#[test]
fn raw_name_conventions() {
    let blag = Blag::new(BlagConfig::default(), None);
    assert_eq!(Blag::as_raw("demo"), "demo.sh");
    assert!(Blag::is_raw("demo.sh"));
    assert!(!Blag::is_raw("demo"));
    assert_eq!(blag.raw_name("demo").as_deref(), Some("demo.sh"));
    assert_eq!(blag.source_name("demo"), "demo.sh");
    assert_eq!(blag.source_path("demo"), "posts/demo.sh");

    let md = md_backend(None);
    assert_eq!(MarkdownPosts::as_raw("post").as_deref(), Some("post.md"));
    assert!(MarkdownPosts::is_raw("post.md"));
    assert!(!MarkdownPosts::is_raw("post.mdx"));
    assert_eq!(md.raw_name("post").as_deref(), Some("post.md"));
    assert_eq!(md.source_name("post"), "post.md");
}

#[test]
fn metadata_of_returned_post() {
    let (meta, dont_cache, raw_signal) = blag_meta(false).into_full("demo".to_string());
    assert!(!dont_cache);
    assert!(raw_signal.is_none());
    let rendered = ReturnedPost::Rendered {
        meta,
        body: "b".to_string(),
        perf: RenderStats::Unknown,
        raw_name: None,
    };
    match get_post_metadata("demo", rendered) {
        Ok(meta) => assert_eq!(meta.name, "demo"),
        Err(e) => panic!("expected metadata, got {:?}", e),
    }
    let raw = ReturnedPost::Raw { buffer: vec![], content_type: "text/plain".to_string() };
    match get_post_metadata("demo", raw) {
        Err(PostError::NotFound(n)) => assert_eq!(n, "demo"),
        other => panic!("raw posts carry no metadata, got {:?}", other),
    }
}

#[test]
fn metadata_listing_step_hits_after_render() {
    let mut backend = md_backend(Some(Cache::new(None)));
    assert!(backend.get_post_metadata_after_stat("hello", 500, 1000).is_none());
    let (_, md_body) = split_front_matter(HELLO).unwrap();
    backend.render_post("hello", hello_front_matter(), &md_body, 500, None, None, 1000);
    let meta = backend.get_post_metadata_after_stat("hello", 500, 2000).unwrap();
    assert_eq!(meta.title, "Hi");
    // a newer source misses and evicts
    assert!(backend.get_post_metadata_after_stat("hello", 501, 2000).is_none());
    assert!(backend.get_post_metadata_after_stat("hello", 500, 2000).is_none());
}
