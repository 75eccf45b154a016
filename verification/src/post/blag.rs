//! The script backend: each document is a `<name>.sh` executable under a
//! root directory. Rendering a document runs the configured renderer on it,
//! which prints one line of structured metadata and then either the
//! rendered body or a raw response. Freshness is the script's modification
//! time; the variant fingerprint is a hash of the serialized query, so each
//! query variant is cached separately.
//!
//! Spawning the process and reading its output happen outside the library;
//! each operation here takes the observed data as an argument and decides
//! everything that follows from it.

use crate::config::BlagConfig;
use crate::error::{FsError, PostError};
use crate::hashing::{hash64_of, hash_str};
use crate::post::cache::{
    spec_after_lookup, spec_hit, spec_ttl_live, Cache, CacheKey, CacheKeyView, CacheValue,
    CacheValueView,
};
use crate::post::markdown_posts::{source_mtime, spec_source_mtime};
use crate::post::{spec_tags_sorted, PostMetadata, PostMetadataView, RenderStats, ReturnedPost};
use crate::strutil::{append_suffix, ends_with, path_join, spec_ends_with, spec_path_join};
use vstd::prelude::*;
use vstd::string::StringExecFns;

verus! {

/// The metadata line a renderer process prints before the body: the
/// front-matter fields, plus whether this render may be cached and, for a
/// raw response, its content type.
#[derive(Debug)]
pub struct BlagMetadata {
    pub title: String,
    pub description: String,
    pub author: String,
    pub icon: Option<String>,
    pub icon_alt: Option<String>,
    pub color: Option<String>,
    pub written_at: Option<i64>,
    pub modified_at: Option<i64>,
    pub tags: Vec<String>,
    pub dont_cache: bool,
    pub raw: Option<String>,
}

impl BlagMetadata {
    /// Attaches the document name, separating the cache-control flag and
    /// the raw-response signal from the metadata proper. Script metadata
    /// carries no filesystem fallback times. The tags must arrive as the
    /// data model keeps them — an unordered set materialized strictly
    /// ascending — and leave the same way.
    pub fn into_full(self, name: String) -> (r: (PostMetadata, bool, Option<String>))
        requires
            spec_tags_sorted(self.tags.deep_view()),
        ensures
            spec_tags_sorted(r.0@.tags),
            r.0@ == (PostMetadataView {
                name: name@,
                title: self.title@,
                description: self.description@,
                author: self.author@,
                icon: self.icon.deep_view(),
                icon_alt: self.icon_alt.deep_view(),
                color: self.color.deep_view(),
                written_at: self.written_at,
                modified_at: self.modified_at,
                tags: self.tags.deep_view(),
            }),
            r.1 == self.dont_cache,
            r.2 == self.raw,
    {
        let meta = PostMetadata {
            name,
            title: self.title,
            description: self.description,
            author: self.author,
            icon: self.icon,
            icon_alt: self.icon_alt,
            color: self.color,
            written_at: self.written_at,
            modified_at: self.modified_at,
            tags: self.tags,
        };
        (meta, self.dont_cache, self.raw)
    }
}

/// Where a requested name leads: straight to the raw script bytes, or to a
/// rendered post backed by the named script.
#[derive(Debug)]
pub enum BlagRoute {
    RawFile { path: String },
    Post { path: String },
}

/// Outcome of consulting the cache once the script has been stat'ed: a
/// finished response, a miss that needs the renderer run, or an error.
#[derive(Debug)]
pub enum BlagStep {
    Hit(ReturnedPost),
    Miss { query_hash: u64 },
    Failed(PostError),
}

/// The script backend: its configuration and the cache it keeps warm.
pub struct Blag {
    pub cache: Option<Cache>,
    pub config: BlagConfig,
}

impl Blag {
    /// The backend's cache is internally consistent.
    pub open spec fn wf(&self) -> bool {
        match self.cache {
            Some(c) => c.wf(),
            None => true,
        }
    }

    /// The cache's contents, empty when caching is disabled.
    pub open spec fn spec_cache_map(&self) -> Map<CacheKeyView, CacheValueView> {
        match self.cache {
            Some(c) => c@,
            None => Map::empty(),
        }
    }

    /// Builds the backend over a configuration and an optional cache
    /// carried over from an earlier run.
    pub fn new(config: BlagConfig, cache: Option<Cache>) -> (s: Self)
        requires
            cache matches Some(c) ==> c.wf(),
        ensures
            s.wf(),
            s.config == config,
            s.cache == cache,
    {
        Blag { config, cache }
    }

    /// Whether a requested name addresses a raw source (`.sh`-suffixed).
    pub fn is_raw(name: &str) -> (r: bool)
        ensures
            r == spec_ends_with(name@, ".sh"@),
    {
        ends_with(name, ".sh")
    }

    /// The raw-source sibling of a document name.
    pub fn as_raw(name: &str) -> (r: String)
        ensures
            r@ == name@ + ".sh"@,
    {
        append_suffix(name, ".sh")
    }

    /// The script file a document is rendered from.
    pub fn source_path(&self, name: &str) -> (r: String)
        ensures
            r@ == spec_path_join(self.config.root@, name@ + ".sh"@),
    {
        let raw = Self::as_raw(name);
        path_join(self.config.root.as_str(), raw.as_str())
    }

    /// Resolves a requested name to the file it is served from: the raw
    /// script itself only when raw access is enabled and the name asks for
    /// it, otherwise the script behind a rendered post. Raw sources are
    /// never served while raw access is off.
    pub fn route(&self, name: &str) -> (r: BlagRoute)
        ensures
            (self.config.raw_access && spec_ends_with(name@, ".sh"@)) ==> (r matches
                BlagRoute::RawFile { path } && path@ == spec_path_join(self.config.root@, name@)),
            !(self.config.raw_access && spec_ends_with(name@, ".sh"@)) ==> (r matches
                BlagRoute::Post { path } && path@ == spec_path_join(
                self.config.root@,
                name@ + ".sh"@,
            )),
    {
        if self.config.raw_access && Self::is_raw(name) {
            BlagRoute::RawFile { path: path_join(self.config.root.as_str(), name) }
        } else {
            BlagRoute::Post { path: self.source_path(name) }
        }
    }

    /// The decision after the renderer's metadata line parsed: a declared
    /// content type means the rest of the stream is a raw response with
    /// that type; nothing means a rendered body follows.
    pub fn decide_after_meta(bm: &BlagMetadata) -> (r: Option<String>)
        ensures
            r == bm.raw,
    {
        match &bm.raw {
            Some(content_type) => Some(content_type.clone()),
            None => None,
        }
    }

    /// The decision after the renderer exited: a non-zero exit status after
    /// the metadata parsed is a render failure, never a missing document;
    /// success lets the response stand.
    pub fn decide_after_body(status_ok: bool, status: String) -> (r: Result<(), PostError>)
        ensures
            status_ok ==> r is Ok,
            !status_ok ==> (r matches Err(PostError::RenderError(s)) && s@ == status@),
    {
        if status_ok {
            Ok(())
        } else {
            Err(PostError::RenderError(status))
        }
    }

    /// Decides a request after the script was stat'ed: a missing or
    /// non-regular source is the not-found outcome, another filesystem
    /// failure propagates, and otherwise the cache answers — fresh hit or
    /// miss — under the query's fingerprint.
    pub fn get_post_after_stat(
        &mut self,
        name: &str,
        stat: Result<(bool, u64), FsError>,
        query_json: &str,
        now: u128,
        elapsed: u128,
    ) -> (r: BlagStep)
        requires
            old(self).wf(),
        ensures
            final(self).wf(),
            final(self).config == old(self).config,
            match stat {
                Err(FsError::NotFound) => final(self).spec_cache_map() == old(
                    self,
                ).spec_cache_map() && (r matches BlagStep::Failed(PostError::NotFound(n)) && n@
                    == name@),
                Err(FsError::Other(e)) => final(self).spec_cache_map() == old(
                    self,
                ).spec_cache_map() && (r matches BlagStep::Failed(PostError::IoError(m)) && m@
                    == e@),
                Ok((is_file, mtime)) => {
                    if !is_file {
                        final(self).spec_cache_map() == old(self).spec_cache_map() && (r matches
                        BlagStep::Failed(PostError::NotFound(n)) && n@ == name@)
                    } else {
                        match old(self).cache {
                            None => final(self).cache is None && (r matches BlagStep::Miss {
                                query_hash,
                            } && query_hash == hash64_of(query_json@)),
                            Some(c0) => {
                                &&& final(self).cache matches Some(c1)
                                &&& c1@ == spec_after_lookup(
                                    c0@,
                                    (name@, hash64_of(query_json@)),
                                    mtime,
                                    now,
                                    c0.spec_ttl(),
                                )
                                &&& c1.spec_ttl() == c0.spec_ttl()
                                &&& c1.spec_version() == c0.spec_version()
                                &&& match spec_hit(
                                    c0@,
                                    (name@, hash64_of(query_json@)),
                                    mtime,
                                    now,
                                    c0.spec_ttl(),
                                ) {
                                    Some(v) => r matches BlagStep::Hit(
                                        ReturnedPost::Rendered { meta, body, perf, raw_name },
                                    ) && meta@ == v.meta && body@ == v.body && (perf matches
                                        RenderStats::Cached(e) && e == elapsed) && (
                                    old(self).config.raw_access ==> (raw_name matches Some(rn)
                                        && rn@ == name@ + ".sh"@)) && (!old(self).config.raw_access
                                        ==> raw_name is None),
                                    None => r matches BlagStep::Miss { query_hash } && query_hash
                                        == hash64_of(query_json@),
                                }
                            },
                        }
                    }
                },
            },
    {
        match stat {
            Err(FsError::NotFound) => BlagStep::Failed(
                PostError::NotFound(String::from_str(name)),
            ),
            Err(FsError::Other(e)) => BlagStep::Failed(PostError::IoError(e)),
            Ok((is_file, mtime)) => {
                if !is_file {
                    return BlagStep::Failed(PostError::NotFound(String::from_str(name)));
                }
                let query_hash = hash_str(query_json);
                match &mut self.cache {
                    None => BlagStep::Miss { query_hash },
                    Some(cache) => {
                        match cache.lookup(name, mtime, query_hash, now) {
                            Some(v) => {
                                let raw_name = if self.config.raw_access {
                                    Some(Self::as_raw(name))
                                } else {
                                    None
                                };
                                BlagStep::Hit(
                                    ReturnedPost::Rendered {
                                        meta: v.meta,
                                        body: v.body,
                                        perf: RenderStats::Cached(elapsed),
                                        raw_name,
                                    },
                                )
                            },
                            None => BlagStep::Miss { query_hash },
                        }
                    },
                }
            },
        }
    }

    /// Finishes a fresh render from the metadata line and body the renderer
    /// produced: stores the result under the query's fingerprint unless the
    /// metadata forbids caching, and assembles the response with its
    /// sub-phase timings.
    pub fn finish_render(
        &mut self,
        name: String,
        blag_meta: BlagMetadata,
        body: String,
        mtime: u64,
        query_json: &str,
        now: u128,
        total: u128,
        parsed: u128,
        rendered: u128,
    ) -> (r: ReturnedPost)
        requires
            old(self).wf(),
            spec_tags_sorted(blag_meta.tags.deep_view()),
        ensures
            final(self).wf(),
            final(self).config == old(self).config,
            r matches ReturnedPost::Rendered { meta, body: b, perf, raw_name } && meta@
                == (PostMetadataView {
                name: name@,
                title: blag_meta.title@,
                description: blag_meta.description@,
                author: blag_meta.author@,
                icon: blag_meta.icon.deep_view(),
                icon_alt: blag_meta.icon_alt.deep_view(),
                color: blag_meta.color.deep_view(),
                written_at: blag_meta.written_at,
                modified_at: blag_meta.modified_at,
                tags: blag_meta.tags.deep_view(),
            }) && b@ == body@ && perf == (RenderStats::Rendered { total, parsed, rendered }) && (
            old(self).config.raw_access ==> (raw_name matches Some(rn) && rn@ == name@ + ".sh"@))
                && (!old(self).config.raw_access ==> raw_name is None),
            match old(self).cache {
                None => final(self).cache is None,
                Some(c0) => {
                    &&& final(self).cache matches Some(c1)
                    &&& c1.spec_ttl() == c0.spec_ttl()
                    &&& c1.spec_version() == c0.spec_version()
                    &&& blag_meta.dont_cache ==> c1@ == c0@
                    &&& !blag_meta.dont_cache ==> c1@ == c0@.insert(
                        (name@, hash64_of(query_json@)),
                        CacheValueView {
                            meta: (PostMetadataView {
                                name: name@,
                                title: blag_meta.title@,
                                description: blag_meta.description@,
                                author: blag_meta.author@,
                                icon: blag_meta.icon.deep_view(),
                                icon_alt: blag_meta.icon_alt.deep_view(),
                                color: blag_meta.color.deep_view(),
                                written_at: blag_meta.written_at,
                                modified_at: blag_meta.modified_at,
                                tags: blag_meta.tags.deep_view(),
                            }),
                            body: body@,
                            mtime,
                            cached_at: now,
                        },
                    )
                },
            },
    {
        let raw_name = if self.config.raw_access {
            Some(Self::as_raw(name.as_str()))
        } else {
            None
        };
        let (meta, dont_cache, _raw) = blag_meta.into_full(name);
        if !dont_cache {
            let query_hash = hash_str(query_json);
            match &mut self.cache {
                None => {},
                Some(cache) => {
                    let _ = cache.insert(
                        meta.name.clone(),
                        meta.clone(),
                        mtime,
                        body.clone(),
                        query_hash,
                        now,
                    );
                },
            }
        }
        ReturnedPost::Rendered {
            meta,
            body,
            perf: RenderStats::Rendered { total, parsed, rendered },
            raw_name,
        }
    }

    /// A raw response streamed back by the renderer, with the content type
    /// it declared.
    pub fn raw_response(buffer: Vec<u8>, content_type: String) -> (r: ReturnedPost)
        ensures
            r matches ReturnedPost::Raw { buffer: b, content_type: ct } && b@ == buffer@ && ct@
                == content_type@,
    {
        ReturnedPost::Raw { buffer, content_type }
    }

}

impl crate::post::PostManager for Blag {
    open spec fn spec_as_raw(&self, name: Seq<char>) -> Option<Seq<char>> {
        Some(name + ".sh"@)
    }

    open spec fn spec_source_name(&self, name: Seq<char>) -> Seq<char> {
        name + ".sh"@
    }

    fn raw_name(&self, name: &str) -> (r: Option<String>)
        ensures
            r.deep_view() == self.spec_as_raw(name@),
    {
        Some(append_suffix(name, ".sh"))
    }

    fn source_name(&self, name: &str) -> (r: String)
        ensures
            r@ == self.spec_source_name(name@),
    {
        append_suffix(name, ".sh")
    }
}

/// A cached script entry survives cleanup only if its source still exists,
/// no newer than the cached render; query variants are not checked against
/// anything, only their source.
pub open spec fn spec_blag_keep(
    key: CacheKeyView,
    v: CacheValueView,
    sources: Seq<(Seq<char>, u64)>,
) -> bool {
    match spec_source_mtime(sources, key.0) {
        Some(m) => m <= v.mtime,
        None => false,
    }
}

impl Blag {
    /// The maintenance pass over the cache: an entry survives exactly when
    /// it is within the TTL at `now` and its source — looked up by document
    /// name in the given directory snapshot — still exists with a
    /// modification time no newer than the cached one. Surviving entries
    /// are unchanged.
    pub fn cleanup(&mut self, sources: &Vec<(String, u64)>, now: u128)
        requires
            old(self).wf(),
        ensures
            final(self).wf(),
            final(self).config == old(self).config,
            old(self).cache is None ==> final(self).cache is None,
            match old(self).cache {
                None => true,
                Some(c0) => {
                    &&& final(self).cache matches Some(c1)
                    &&& c1.spec_ttl() == c0.spec_ttl()
                    &&& c1.spec_version() == c0.spec_version()
                    &&& forall|k: CacheKeyView| #[trigger]
                        c1@.contains_key(k) <==> c0@.contains_key(k) && spec_ttl_live(
                            c0@[k],
                            now,
                            c0.spec_ttl(),
                        ) && spec_blag_keep(k, c0@[k], sources.deep_view())
                    &&& forall|k: CacheKeyView| #[trigger]
                        c1@.contains_key(k) ==> c1@[k] == c0@[k]
                },
            },
    {
        match &mut self.cache {
            None => {},
            Some(cache) => {
                let ghost c0map = cache@;
                let pred = |k: &CacheKey, v: &CacheValue| -> (b: bool)
                    ensures
                        b == spec_blag_keep(k@, v@, sources.deep_view()),
                    {
                        match source_mtime(sources, k.name.as_str()) {
                            Some(m) => m <= v.mtime,
                            None => false,
                        }
                    };
                cache.cleanup(now, pred);
                proof {
                    assert forall|k: CacheKeyView| #[trigger]
                        cache@.contains_key(k) <==> c0map.contains_key(k) && spec_ttl_live(
                        c0map[k],
                        now,
                        cache.spec_ttl(),
                    ) && spec_blag_keep(k, c0map[k], sources.deep_view()) by {
                        if cache@.contains_key(k) {
                            let (kx, vx) = choose|kx: CacheKey, vx: CacheValue|
                                kx@ == k && vx@ == c0map[k] && call_ensures(
                                    pred,
                                    (&kx, &vx),
                                    true,
                                );
                        } else if c0map.contains_key(k) && spec_ttl_live(
                            c0map[k],
                            now,
                            cache.spec_ttl(),
                        ) {
                            if spec_blag_keep(k, c0map[k], sources.deep_view()) {
                                let (kx, vx) = choose|kx: CacheKey, vx: CacheValue|
                                    kx@ == k && vx@ == c0map[k] && call_ensures(
                                        pred,
                                        (&kx, &vx),
                                        false,
                                    );
                            }
                        }
                    }
                }
            },
        }
    }
}

} // verus!
