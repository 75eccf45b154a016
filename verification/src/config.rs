//! Configuration consumed by the rendering and caching engine. Every field
//! is a plain value; directories and files are carried as path strings.

use vstd::prelude::*;
use vstd::string::StringExecFns;

verus! {

/// Syntax-highlighting configuration: whether to load the built-in theme
/// set, an optional directory of extra themes, and the selected theme name.
#[derive(Debug, Clone)]
pub struct SyntectConfig {
    pub load_defaults: bool,
    pub themes_dir: Option<String>,
    pub theme: Option<String>,
}

impl Default for SyntectConfig {
    fn default() -> (c: Self)
        ensures
            !c.load_defaults,
            c.themes_dir matches Some(d) && d@ == "themes"@,
            c.theme matches Some(t) && t@ == "Catppuccin Mocha"@,
    {
        SyntectConfig {
            load_defaults: false,
            themes_dir: Some(String::from_str("themes")),
            theme: Some(String::from_str("Catppuccin Mocha")),
        }
    }
}

/// Cache store configuration. `ttl` and `cleanup_interval` are milliseconds;
/// both must be positive when present. `compression_level` is a zstd level
/// between 1 and 22.
#[derive(Debug, Clone)]
pub struct CacheConfig {
    pub enable: bool,
    pub ttl: Option<u64>,
    pub cleanup: bool,
    pub cleanup_interval: Option<u64>,
    pub persistence: bool,
    pub file: String,
    pub compress: bool,
    pub compression_level: i32,
}

impl CacheConfig {
    /// Bounds that deserialization of a configuration file must enforce.
    pub open spec fn wf(&self) -> bool {
        &&& self.ttl matches Some(t) ==> t > 0
        &&& self.cleanup_interval matches Some(i) ==> i > 0
        &&& 1 <= self.compression_level <= 22
    }
}

impl Default for CacheConfig {
    fn default() -> (c: Self)
        ensures
            c.enable,
            c.ttl is None,
            c.cleanup,
            c.cleanup_interval is None,
            c.persistence,
            c.file@ == "cache"@,
            c.compress,
            c.compression_level == 3,
            c.wf(),
    {
        CacheConfig {
            enable: true,
            ttl: None,
            cleanup: true,
            cleanup_interval: None,
            persistence: true,
            file: String::from_str("cache"),
            compress: true,
            compression_level: 3,
        }
    }
}

/// Directories served beside the rendered posts.
#[derive(Debug, Clone)]
pub struct DirsConfig {
    pub media: String,
    pub static_: String,
    pub templates: String,
}

impl Default for DirsConfig {
    fn default() -> (c: Self)
        ensures
            c.media@ == "media"@,
            c.static_@ == "static"@,
            c.templates@ == "templates"@,
    {
        DirsConfig {
            media: String::from_str("media"),
            static_: String::from_str("static"),
            templates: String::from_str("templates"),
        }
    }
}

/// How dates are rendered: RFC 3339, or a custom strftime format string.
#[derive(Debug, Clone)]
pub enum DateFormat {
    RFC3339,
    Strftime(String),
}

impl Default for DateFormat {
    fn default() -> (c: Self)
        ensures
            c is RFC3339,
    {
        DateFormat::RFC3339
    }
}

/// Default ordering of listings.
#[derive(Debug, Clone, Copy, PartialEq, Eq, Structural)]
pub enum Sort {
    Date,
    Name,
}

impl Default for Sort {
    fn default() -> (c: Self)
        ensures
            c is Date,
    {
        Sort::Date
    }
}

/// Which timestamps listings display.
#[derive(Debug, Clone, Copy, PartialEq, Eq, Structural)]
pub struct DisplayDates {
    pub creation: bool,
    pub modification: bool,
}

impl Default for DisplayDates {
    fn default() -> (c: Self)
        ensures
            c.creation,
            c.modification,
    {
        DisplayDates { creation: true, modification: true }
    }
}

/// Presentation settings passed through to the (out-of-scope) page layer.
#[derive(Debug, Clone)]
pub struct StyleConfig {
    pub title: String,
    pub description: String,
    pub js_enable: bool,
    pub display_dates: DisplayDates,
    pub date_format: DateFormat,
    pub default_sort: Sort,
    pub default_color: Option<String>,
}

impl Default for StyleConfig {
    fn default() -> (c: Self)
        ensures
            c.title@ == "bingus-blog"@,
            c.js_enable,
            c.display_dates.creation && c.display_dates.modification,
            c.date_format is RFC3339,
            c.default_sort is Date,
            c.default_color is None,
    {
        StyleConfig {
            title: String::from_str("bingus-blog"),
            description: String::from_str(
                "blazingly fast markdown blog software written in rust memory safe",
            ),
            js_enable: true,
            display_dates: Default::default(),
            date_format: Default::default(),
            default_sort: Default::default(),
            default_color: None,
        }
    }
}

/// Markdown-to-HTML rendering options. `raw_html` lets raw HTML in the
/// source through to the output; `escape` escapes it instead.
#[derive(Debug, Clone)]
pub struct MarkdownRenderConfig {
    pub syntect: SyntectConfig,
    pub escape: bool,
    pub raw_html: bool,
}

impl Default for MarkdownRenderConfig {
    fn default() -> (c: Self)
        ensures
            !c.escape,
            !c.raw_html,
            !c.syntect.load_defaults,
    {
        MarkdownRenderConfig { syntect: Default::default(), escape: false, raw_html: false }
    }
}

/// Markdown backend configuration: the directory holding `*.md` sources,
/// render options, and whether raw sources may be served.
#[derive(Debug, Clone)]
pub struct MarkdownConfig {
    pub root: String,
    pub render: MarkdownRenderConfig,
    pub raw_access: bool,
}

impl Default for MarkdownConfig {
    fn default() -> (c: Self)
        ensures
            c.root@ == "posts"@,
            c.raw_access,
    {
        MarkdownConfig {
            root: String::from_str("posts"),
            render: Default::default(),
            raw_access: true,
        }
    }
}

/// Script backend configuration: the directory holding `*.sh` sources, the
/// renderer executable, and whether raw sources may be served.
#[derive(Debug, Clone)]
pub struct BlagConfig {
    pub root: String,
    pub bin: String,
    pub raw_access: bool,
}

impl Default for BlagConfig {
    fn default() -> (c: Self)
        ensures
            c.root@ == "posts"@,
            c.bin@ == "blag"@,
            c.raw_access,
    {
        BlagConfig {
            root: String::from_str("posts"),
            bin: String::from_str("blag"),
            raw_access: true,
        }
    }
}

/// Which backend serves posts.
#[derive(Debug, Clone, Copy, PartialEq, Eq, Structural)]
pub enum EngineMode {
    Markdown,
    Blag,
}

impl Default for EngineMode {
    fn default() -> (c: Self)
        ensures
            c is Markdown,
    {
        EngineMode::Markdown
    }
}

/// The engine selection together with both backends' configuration.
#[derive(Debug, Clone)]
pub struct Engine {
    pub mode: EngineMode,
    pub markdown: MarkdownConfig,
    pub blag: BlagConfig,
}

impl Default for Engine {
    fn default() -> (c: Self)
        ensures
            c.mode is Markdown,
            c.markdown.root@ == "posts"@,
            c.blag.root@ == "posts"@,
    {
        Engine {
            mode: Default::default(),
            markdown: Default::default(),
            blag: Default::default(),
        }
    }
}

/// Validates a configured zstd compression level: accepted only between 1
/// and 22.
pub fn check_zstd_level_bounds(v: i64) -> (r: Option<i32>)
    ensures
        match r {
            Some(level) => 1 <= v <= 22 && level == v,
            None => !(1 <= v <= 22),
        },
{
    if 1 <= v && v <= 22 {
        Some(v as i32)
    } else {
        None
    }
}

/// Validates a configured duration in milliseconds: zero is rejected.
pub fn check_millis(v: u64) -> (r: Option<u64>)
    ensures
        match r {
            Some(ms) => v > 0 && ms == v,
            None => v == 0,
        },
{
    if v > 0 {
        Some(v)
    } else {
        None
    }
}

} // verus!
