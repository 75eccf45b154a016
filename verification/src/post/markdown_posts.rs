//! The markdown backend: documents are `<name>.md` files under a root
//! directory, carrying front matter headers; bodies are rendered to HTML
//! through the markdown engine. Freshness is the source file's modification
//! time; the variant fingerprint is a hash of the render configuration, so
//! a configuration change invalidates every cached render.
//!
//! Filesystem access happens outside the library; each operation here takes
//! the observed file data as an argument and decides everything that
//! follows from it.

use crate::config::{MarkdownConfig, MarkdownRenderConfig};
use crate::error::{FsError, PostError};
use crate::hashing::{hash64_of, hash_str};
use crate::markdown_render::render;
use crate::post::cache::{
    spec_after_lookup, spec_hit, spec_ttl_live, Cache, CacheKey, CacheKeyView, CacheValue,
    CacheValueView,
};
use crate::post::front_matter::{spec_into_full, FrontMatter};
use crate::post::{spec_tags_sorted, PostMetadata, RenderStats, ReturnedPost};
use crate::strutil::{append_suffix, ends_with, path_join, spec_ends_with, spec_path_join};
use comrak::plugins::syntect::SyntectAdapter;
use vstd::prelude::*;
use vstd::string::StringExecFns;

verus! {

/// Canonical text of an optional string, distinguishing absence from any
/// value.
pub open spec fn spec_opt_canon(o: Option<Seq<char>>) -> Seq<char> {
    match o {
        Some(s) => "+"@ + s,
        None => "-"@,
    }
}

/// Canonical text of the render configuration; its hash is the variant
/// fingerprint of every markdown render.
pub open spec fn spec_render_config_canon(c: MarkdownRenderConfig) -> Seq<char> {
    "ld:"@ + (if c.syntect.load_defaults {
        "1"@
    } else {
        "0"@
    }) + ";td:"@ + spec_opt_canon(c.syntect.themes_dir.deep_view()) + ";th:"@ + spec_opt_canon(
        c.syntect.theme.deep_view(),
    ) + ";esc:"@ + (if c.escape {
        "1"@
    } else {
        "0"@
    }) + ";raw:"@ + (if c.raw_html {
        "1"@
    } else {
        "0"@
    })
}

fn append_opt_canon(s: &mut String, o: &Option<String>)
    ensures
        final(s)@ == old(s)@ + spec_opt_canon(o.deep_view()),
{
    match o {
        Some(v) => {
            s.append("+");
            s.append(v.as_str());
            proof {
                assert(s@ =~= old(s)@ + spec_opt_canon(o.deep_view()));
            }
        },
        None => {
            s.append("-");
        },
    }
}

fn append_bool_canon(s: &mut String, b: bool)
    ensures
        final(s)@ == old(s)@ + (if b {
            "1"@
        } else {
            "0"@
        }),
{
    if b {
        s.append("1");
    } else {
        s.append("0");
    }
}

fn render_config_canon(c: &MarkdownRenderConfig) -> (r: String)
    ensures
        r@ == spec_render_config_canon(*c),
{
    let mut s = String::from_str("ld:");
    append_bool_canon(&mut s, c.syntect.load_defaults);
    s.append(";td:");
    append_opt_canon(&mut s, &c.syntect.themes_dir);
    s.append(";th:");
    append_opt_canon(&mut s, &c.syntect.theme);
    s.append(";esc:");
    append_bool_canon(&mut s, c.escape);
    s.append(";raw:");
    append_bool_canon(&mut s, c.raw_html);
    proof {
        assert(s@ =~= spec_render_config_canon(*c));
    }
    s
}

/// Where a requested name leads: straight to the raw source bytes, or to a
/// rendered post backed by the named source file.
#[derive(Debug)]
pub enum MdRoute {
    RawFile { path: String },
    Post { path: String, raw_name: String },
}

/// Outcome of consulting the cache once the source has been stat'ed: a
/// finished response, a miss that needs the source rendered, or an error.
#[derive(Debug)]
pub enum MdStep {
    Hit(ReturnedPost),
    Miss,
    Failed(PostError),
}

/// The markdown backend: render configuration, its fingerprint, the
/// highlighting adapter, and the cache it keeps warm.
pub struct MarkdownPosts {
    pub cache: Option<Cache>,
    pub config: MarkdownConfig,
    pub render_hash: u64,
    pub syntect: SyntectAdapter,
}

impl MarkdownPosts {
    /// The backend's cache is internally consistent.
    pub open spec fn wf(&self) -> bool {
        match self.cache {
            Some(c) => c.wf(),
            None => true,
        }
    }

    /// The cache's contents, empty when caching is disabled.
    pub open spec fn spec_cache_map(&self) -> Map<CacheKeyView, CacheValueView> {
        match self.cache {
            Some(c) => c@,
            None => Map::empty(),
        }
    }

    /// Builds the backend over a configuration, an optional cache carried
    /// over from an earlier run, and a prebuilt highlighting adapter. The
    /// variant fingerprint is the hash of the render configuration's
    /// canonical text.
    pub fn new(config: MarkdownConfig, cache: Option<Cache>, syntect: SyntectAdapter) -> (s: Self)
        requires
            cache matches Some(c) ==> c.wf(),
        ensures
            s.wf(),
            s.config == config,
            s.cache == cache,
            s.render_hash == hash64_of(spec_render_config_canon(config.render)),
    {
        let canon = render_config_canon(&config.render);
        let render_hash = hash_str(canon.as_str());
        MarkdownPosts { cache, config, render_hash, syntect }
    }

    /// Whether a requested name addresses a raw source (`.md`-suffixed).
    pub fn is_raw(name: &str) -> (r: bool)
        ensures
            r == spec_ends_with(name@, ".md"@),
    {
        ends_with(name, ".md")
    }

    /// The raw-source sibling of a document name.
    pub fn as_raw(name: &str) -> (r: Option<String>)
        ensures
            r matches Some(s) && s@ == name@ + ".md"@,
    {
        Some(append_suffix(name, ".md"))
    }

    /// Resolves a requested name to the file it is served from: the raw
    /// source itself when raw access is enabled and the name asks for it,
    /// otherwise the `.md` source behind a rendered post.
    pub fn route(&self, name: &str) -> (r: MdRoute)
        ensures
            (self.config.raw_access && spec_ends_with(name@, ".md"@)) ==> (r matches
                MdRoute::RawFile { path } && path@ == spec_path_join(self.config.root@, name@)),
            !(self.config.raw_access && spec_ends_with(name@, ".md"@)) ==> (r matches MdRoute::Post {
                path,
                raw_name,
            } && raw_name@ == name@ + ".md"@ && path@ == spec_path_join(
                self.config.root@,
                name@ + ".md"@,
            )),
    {
        if self.config.raw_access && Self::is_raw(name) {
            MdRoute::RawFile { path: path_join(self.config.root.as_str(), name) }
        } else {
            let raw_name = append_suffix(name, ".md");
            let path = path_join(self.config.root.as_str(), raw_name.as_str());
            MdRoute::Post { path, raw_name }
        }
    }

    /// Decides a request after the source was stat'ed: a missing source is
    /// the not-found outcome, another filesystem failure propagates, and
    /// otherwise the cache answers — fresh hit or miss — under this
    /// backend's render-configuration fingerprint.
    pub fn get_post_after_stat(
        &mut self,
        name: &str,
        stat: Result<u64, FsError>,
        now: u128,
        elapsed: u128,
    ) -> (r: MdStep)
        requires
            old(self).wf(),
        ensures
            final(self).wf(),
            final(self).config == old(self).config,
            final(self).render_hash == old(self).render_hash,
            match stat {
                Err(FsError::NotFound) => final(self).spec_cache_map() == old(
                    self,
                ).spec_cache_map() && (r matches MdStep::Failed(PostError::NotFound(n)) && n@
                    == name@),
                Err(FsError::Other(e)) => final(self).spec_cache_map() == old(self).spec_cache_map()
                    && (r matches MdStep::Failed(PostError::IoError(m)) && m@ == e@),
                Ok(mtime) => match old(self).cache {
                    None => final(self).cache is None && r is Miss,
                    Some(c0) => {
                        &&& final(self).cache matches Some(c1)
                        &&& c1@ == spec_after_lookup(
                            c0@,
                            (name@, old(self).render_hash),
                            mtime,
                            now,
                            c0.spec_ttl(),
                        )
                        &&& c1.spec_ttl() == c0.spec_ttl()
                        &&& c1.spec_version() == c0.spec_version()
                        &&& match spec_hit(
                            c0@,
                            (name@, old(self).render_hash),
                            mtime,
                            now,
                            c0.spec_ttl(),
                        ) {
                            Some(v) => r matches MdStep::Hit(
                                ReturnedPost::Rendered { meta, body, perf, raw_name },
                            ) && meta@ == v.meta && body@ == v.body && (perf matches
                                RenderStats::Cached(e) && e == elapsed) && (
                            old(self).config.raw_access ==> (raw_name matches Some(rn) && rn@
                                == name@ + ".md"@)) && (!old(self).config.raw_access
                                ==> raw_name is None),
                            None => r is Miss,
                        }
                    },
                },
            },
    {
        match stat {
            Err(FsError::NotFound) => MdStep::Failed(
                PostError::NotFound(String::from_str(name)),
            ),
            Err(FsError::Other(e)) => MdStep::Failed(PostError::IoError(e)),
            Ok(mtime) => {
                let rh = self.render_hash;
                match &mut self.cache {
                    None => MdStep::Miss,
                    Some(cache) => {
                        match cache.lookup(name, mtime, rh, now) {
                            Some(v) => {
                                let raw_name = if self.config.raw_access {
                                    Some(append_suffix(name, ".md"))
                                } else {
                                    None
                                };
                                MdStep::Hit(
                                    ReturnedPost::Rendered {
                                        meta: v.meta,
                                        body: v.body,
                                        perf: RenderStats::Cached(elapsed),
                                        raw_name,
                                    },
                                )
                            },
                            None => MdStep::Miss,
                        }
                    },
                }
            },
        }
    }

    /// The metadata-only twin of [`MarkdownPosts::get_post_after_stat`],
    /// for listings that would waste work rendering bodies: same freshness
    /// rule, same eviction side effect, but only the metadata comes back.
    pub fn get_post_metadata_after_stat(&mut self, name: &str, mtime: u64, now: u128) -> (r:
        Option<PostMetadata>)
        requires
            old(self).wf(),
        ensures
            final(self).wf(),
            final(self).config == old(self).config,
            final(self).render_hash == old(self).render_hash,
            match old(self).cache {
                None => final(self).cache is None && r is None,
                Some(c0) => {
                    &&& final(self).cache matches Some(c1)
                    &&& c1@ == spec_after_lookup(
                        c0@,
                        (name@, old(self).render_hash),
                        mtime,
                        now,
                        c0.spec_ttl(),
                    )
                    &&& c1.spec_ttl() == c0.spec_ttl()
                    &&& c1.spec_version() == c0.spec_version()
                    &&& match spec_hit(
                        c0@,
                        (name@, old(self).render_hash),
                        mtime,
                        now,
                        c0.spec_ttl(),
                    ) {
                        Some(v) => r matches Some(m) && m@ == v.meta,
                        None => r is None,
                    }
                },
            },
    {
        let rh = self.render_hash;
        match &mut self.cache {
            None => None,
            Some(cache) => cache.lookup_metadata(name, mtime, rh, now),
        }
    }

    /// Renders a document from its parsed front matter and markdown body,
    /// storing the result in the cache under this backend's fingerprint.
    /// Returns the metadata and the rendered body.
    pub fn render_post(
        &mut self,
        name: &str,
        fm: FrontMatter,
        md_body: &str,
        mtime: u64,
        created: Option<i64>,
        modified: Option<i64>,
        now: u128,
    ) -> (r: (PostMetadata, String))
        requires
            old(self).wf(),
            spec_tags_sorted(fm.tags.deep_view()),
        ensures
            final(self).wf(),
            final(self).config == old(self).config,
            final(self).render_hash == old(self).render_hash,
            r.0@ == spec_into_full(
                fm.title@,
                fm.description@,
                fm.author@,
                fm.icon.deep_view(),
                fm.icon_alt.deep_view(),
                fm.color.deep_view(),
                fm.written_at,
                fm.modified_at,
                fm.tags.deep_view(),
                name@,
                created,
                modified,
            ),
            match old(self).cache {
                None => final(self).cache is None,
                Some(c0) => {
                    &&& final(self).cache matches Some(c1)
                    &&& c1@ == c0@.insert(
                        (name@, old(self).render_hash),
                        CacheValueView { meta: r.0@, body: r.1@, mtime, cached_at: now },
                    )
                    &&& c1.spec_ttl() == c0.spec_ttl()
                    &&& c1.spec_version() == c0.spec_version()
                },
            },
    {
        let meta = fm.into_full(String::from_str(name), created, modified);
        let body = render(md_body, &self.config.render, Some(&self.syntect));
        let rh = self.render_hash;
        match &mut self.cache {
            None => {},
            Some(cache) => {
                let _ = cache.insert(
                    String::from_str(name),
                    meta.clone(),
                    mtime,
                    body.clone(),
                    rh,
                    now,
                );
            },
        }
        (meta, body)
    }
}

impl crate::post::PostManager for MarkdownPosts {
    open spec fn spec_as_raw(&self, name: Seq<char>) -> Option<Seq<char>> {
        Some(name + ".md"@)
    }

    open spec fn spec_source_name(&self, name: Seq<char>) -> Seq<char> {
        name + ".md"@
    }

    fn raw_name(&self, name: &str) -> (r: Option<String>)
        ensures
            r.deep_view() == self.spec_as_raw(name@),
    {
        Some(append_suffix(name, ".md"))
    }

    fn source_name(&self, name: &str) -> (r: String)
        ensures
            r@ == self.spec_source_name(name@),
    {
        append_suffix(name, ".md")
    }
}

/// The modification time recorded for a named source, if the source exists:
/// the first entry under that name.
pub open spec fn spec_source_mtime(sources: Seq<(Seq<char>, u64)>, name: Seq<char>) -> Option<u64>
    decreases sources.len(),
{
    if sources.len() == 0 {
        None
    } else if sources.first().0 == name {
        Some(sources.first().1)
    } else {
        spec_source_mtime(sources.drop_first(), name)
    }
}

/// Looks a document's source up in a snapshot of the source directory.
pub fn source_mtime(sources: &Vec<(String, u64)>, name: &str) -> (r: Option<u64>)
    ensures
        r == spec_source_mtime(sources.deep_view(), name@),
{
    let ghost dv = sources.deep_view();
    proof {
        assert(dv.skip(0) =~= dv);
    }
    let mut i: usize = 0;
    while i < sources.len()
        invariant
            dv == sources.deep_view(),
            dv.len() == sources@.len(),
            i <= sources@.len(),
            spec_source_mtime(dv, name@) == spec_source_mtime(dv.skip(i as int), name@),
        decreases sources@.len() - i,
    {
        proof {
            assert(dv.skip(i as int).first() == dv[i as int]);
            assert(dv.skip(i as int).drop_first() =~= dv.skip(i + 1));
            assert(dv[i as int] == (sources@[i as int].0@, sources@[i as int].1));
        }
        if crate::strutil::str_eq(sources[i].0.as_str(), name) {
            return Some(sources[i].1);
        }
        i = i + 1;
    }
    proof {
        assert(dv.skip(sources@.len() as int).len() == 0);
    }
    None
}

/// A cached markdown entry survives cleanup only if it was rendered under
/// the current render configuration and its source still exists, no newer
/// than the cached render.
pub open spec fn spec_md_keep(
    key: CacheKeyView,
    v: CacheValueView,
    sources: Seq<(Seq<char>, u64)>,
    render_hash: u64,
) -> bool {
    &&& key.1 == render_hash
    &&& match spec_source_mtime(sources, key.0) {
        Some(m) => m <= v.mtime,
        None => false,
    }
}

impl MarkdownPosts {
    /// The maintenance pass over the cache: an entry survives exactly when
    /// it is within the TTL at `now`, carries the current configuration
    /// fingerprint, and its source — looked up by document name in the
    /// given directory snapshot — still exists with a modification time no
    /// newer than the cached one. Surviving entries are unchanged.
    pub fn cleanup(&mut self, sources: &Vec<(String, u64)>, now: u128)
        requires
            old(self).wf(),
        ensures
            final(self).wf(),
            final(self).config == old(self).config,
            final(self).render_hash == old(self).render_hash,
            old(self).cache is None ==> final(self).cache is None,
            match old(self).cache {
                None => true,
                Some(c0) => {
                    &&& final(self).cache matches Some(c1)
                    &&& c1.spec_ttl() == c0.spec_ttl()
                    &&& c1.spec_version() == c0.spec_version()
                    &&& forall|k: CacheKeyView| #[trigger]
                        c1@.contains_key(k) <==> c0@.contains_key(k) && spec_ttl_live(
                            c0@[k],
                            now,
                            c0.spec_ttl(),
                        ) && spec_md_keep(
                            k,
                            c0@[k],
                            sources.deep_view(),
                            old(self).render_hash,
                        )
                    &&& forall|k: CacheKeyView| #[trigger]
                        c1@.contains_key(k) ==> c1@[k] == c0@[k]
                },
            },
    {
        let rh = self.render_hash;
        match &mut self.cache {
            None => {},
            Some(cache) => {
                let ghost c0map = cache@;
                let pred = |k: &CacheKey, v: &CacheValue| -> (b: bool)
                    ensures
                        b == spec_md_keep(k@, v@, sources.deep_view(), rh),
                    {
                        rh == k.extra && match source_mtime(sources, k.name.as_str()) {
                            Some(m) => m <= v.mtime,
                            None => false,
                        }
                    };
                cache.cleanup(now, pred);
                proof {
                    assert forall|k: CacheKeyView| #[trigger]
                        cache@.contains_key(k) <==> c0map.contains_key(k) && spec_ttl_live(
                        c0map[k],
                        now,
                        cache.spec_ttl(),
                    ) && spec_md_keep(k, c0map[k], sources.deep_view(), rh) by {
                        if cache@.contains_key(k) {
                            let (kx, vx) = choose|kx: CacheKey, vx: CacheValue|
                                kx@ == k && vx@ == c0map[k] && call_ensures(
                                    pred,
                                    (&kx, &vx),
                                    true,
                                );
                        } else if c0map.contains_key(k) && spec_ttl_live(
                            c0map[k],
                            now,
                            cache.spec_ttl(),
                        ) {
                            if !spec_md_keep(k, c0map[k], sources.deep_view(), rh) {
                            } else {
                                let (kx, vx) = choose|kx: CacheKey, vx: CacheValue|
                                    kx@ == k && vx@ == c0map[k] && call_ensures(
                                        pred,
                                        (&kx, &vx),
                                        false,
                                    );
                            }
                        }
                    }
                }
            },
        }
    }
}

} // verus!
