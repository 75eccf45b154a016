//! Shared data contract of the render backends: post metadata, render
//! statistics, returned posts, tag filters, and the listing order.

pub mod blag;
pub mod cache;
pub mod front_matter;
pub mod markdown_posts;

use crate::error::PostError;
use vstd::prelude::*;
use vstd::string::StringExecFns;

verus! {

/// Mathematical value of a [`PostMetadata`]: every string as a sequence of
/// characters, timestamps as seconds since the epoch.
#[verifier::ext_equal]
pub struct PostMetadataView {
    pub name: Seq<char>,
    pub title: Seq<char>,
    pub description: Seq<char>,
    pub author: Seq<char>,
    pub icon: Option<Seq<char>>,
    pub icon_alt: Option<Seq<char>>,
    pub color: Option<Seq<char>>,
    pub written_at: Option<i64>,
    pub modified_at: Option<i64>,
    pub tags: Seq<Seq<char>>,
}

/// Identity and front-matter-derived attributes of a document. `written_at`
/// and `modified_at` are seconds since the epoch, falling back to
/// filesystem-observed times when the front matter omits them. `tags` is an
/// unordered set materialized as an ordered sequence for stable output.
#[derive(Debug)]
pub struct PostMetadata {
    pub name: String,
    pub title: String,
    pub description: String,
    pub author: String,
    pub icon: Option<String>,
    pub icon_alt: Option<String>,
    pub color: Option<String>,
    pub written_at: Option<i64>,
    pub modified_at: Option<i64>,
    pub tags: Vec<String>,
}

impl View for PostMetadata {
    type V = PostMetadataView;

    open spec fn view(&self) -> PostMetadataView {
        PostMetadataView {
            name: self.name@,
            title: self.title@,
            description: self.description@,
            author: self.author@,
            icon: self.icon.deep_view(),
            icon_alt: self.icon_alt.deep_view(),
            color: self.color.deep_view(),
            written_at: self.written_at,
            modified_at: self.modified_at,
            tags: self.tags.deep_view(),
        }
    }
}

fn clone_opt_string(o: &Option<String>) -> (r: Option<String>)
    ensures
        r.deep_view() == o.deep_view(),
{
    match o {
        Some(s) => Some(s.clone()),
        None => None,
    }
}

fn clone_string_vec(v: &Vec<String>) -> (r: Vec<String>)
    ensures
        r.deep_view() == v.deep_view(),
        r@.len() == v@.len(),
{
    let mut r: Vec<String> = Vec::new();
    let mut i: usize = 0;
    while i < v.len()
        invariant
            i <= v@.len(),
            r.deep_view() =~= v.deep_view().take(i as int),
            r@.len() == i,
        decreases v@.len() - i,
    {
        r.push(v[i].clone());
        i = i + 1;
    }
    assert(v.deep_view().take(v@.len() as int) =~= v.deep_view());
    r
}

impl Clone for PostMetadata {
    fn clone(&self) -> (r: Self)
        ensures
            r@ == self@,
    {
        let r = PostMetadata {
            name: self.name.clone(),
            title: self.title.clone(),
            description: self.description.clone(),
            author: self.author.clone(),
            icon: clone_opt_string(&self.icon),
            icon_alt: clone_opt_string(&self.icon_alt),
            color: clone_opt_string(&self.color),
            written_at: self.written_at,
            modified_at: self.modified_at,
            tags: clone_string_vec(&self.tags),
        };
        assert(r@ =~= self@);
        r
    }
}

/// Timing of one fulfilled request, for observability only: either the time
/// a cache hit took, or the sub-phase timings of a fresh render. All values
/// are nanoseconds.
#[derive(Debug, Clone)]
pub enum RenderStats {
    Cached(u128),
    Rendered { total: u128, parsed: u128, rendered: u128 },
    Fetched(u128),
    Other { verb: String, time: u128 },
    Unknown,
}

/// What a backend hands back for one document: rendered output with
/// metadata and timing, or the raw source bytes with their content type.
#[derive(Debug)]
pub enum ReturnedPost {
    Rendered {
        meta: PostMetadata,
        body: String,
        perf: RenderStats,
        raw_name: Option<String>,
    },
    Raw { buffer: Vec<u8>, content_type: String },
}

/// A predicate over post metadata; listings keep only matching posts.
#[derive(Debug, Clone)]
pub enum Filter {
    Tags(Vec<String>),
}

/// Whether some member of `want` occurs in `have`.
pub open spec fn has_common_tag(want: Seq<Seq<char>>, have: Seq<Seq<char>>) -> bool {
    exists|i: int| 0 <= i < want.len() && have.contains(#[trigger] want[i])
}

impl Filter {
    /// A post passes a tag filter when it carries at least one of the
    /// requested tags.
    pub open spec fn spec_matches(&self, meta: PostMetadataView) -> bool {
        match self {
            Filter::Tags(tags) => has_common_tag(tags.deep_view(), meta.tags),
        }
    }

    pub fn apply(&self, meta: &PostMetadata) -> (b: bool)
        ensures
            b == self.spec_matches(meta@),
    {
        match self {
            Filter::Tags(tags) => tags_apply(tags, meta),
        }
    }
}

fn tags_apply(tags: &Vec<String>, meta: &PostMetadata) -> (b: bool)
    ensures
        b == has_common_tag(tags.deep_view(), meta@.tags),
{
    let mut i: usize = 0;
    while i < tags.len()
        invariant
            i <= tags@.len(),
            forall|k: int| 0 <= k < i ==> !meta@.tags.contains(#[trigger] tags.deep_view()[k]),
        decreases tags@.len() - i,
    {
        if contains_str(&meta.tags, tags[i].as_str()) {
            proof {
                assert(meta@.tags.contains(tags.deep_view()[i as int]));
            }
            return true;
        }
        i = i + 1;
    }
    false
}

/// Whether `v` holds a string whose characters equal `s`.
pub fn contains_str(v: &Vec<String>, s: &str) -> (b: bool)
    ensures
        b == v.deep_view().contains(s@),
{
    let mut i: usize = 0;
    while i < v.len()
        invariant
            i <= v@.len(),
            forall|k: int| 0 <= k < i ==> v.deep_view()[k] != s@,
        decreases v@.len() - i,
    {
        if crate::strutil::str_eq(v[i].as_str(), s) {
            assert(v.deep_view()[i as int] == s@);
            return true;
        }
        i = i + 1;
    }
    assert(forall|k: int| 0 <= k < v.deep_view().len() ==> v.deep_view()[k] != s@);
    false
}

/// Conjunction of every filter in a list.
pub trait ApplyFilters {
    spec fn spec_apply_filters(&self, filters: Seq<Filter>) -> bool;

    fn apply_filters(&self, filters: &Vec<Filter>) -> (b: bool)
        ensures
            b == self.spec_apply_filters(filters@),
    ;
}

impl ApplyFilters for PostMetadata {
    open spec fn spec_apply_filters(&self, filters: Seq<Filter>) -> bool {
        forall|i: int| 0 <= i < filters.len() ==> (#[trigger] filters[i]).spec_matches(self@)
    }

    fn apply_filters(&self, filters: &Vec<Filter>) -> (b: bool)
        ensures
            b == self.spec_apply_filters(filters@),
    {
        let mut i: usize = 0;
        while i < filters.len()
            invariant
                i <= filters@.len(),
                forall|k: int| 0 <= k < i ==> (#[trigger] filters@[k]).spec_matches(self@),
            decreases filters@.len() - i,
        {
            if !filters[i].apply(self) {
                return false;
            }
            i = i + 1;
        }
        true
    }
}

/// The listing sort key: the written-at timestamp, tie-broken by the
/// modified-at timestamp, each falling back to the epoch when absent so
/// undated documents still sort deterministically.
pub open spec fn spec_sort_key(m: PostMetadataView) -> (i64, i64) {
    (
        match m.written_at {
            Some(w) => w,
            None => 0,
        },
        match m.modified_at {
            Some(o) => o,
            None => 0,
        },
    )
}

/// Descending order on the listing sort key: `a` is at least as recent as
/// `b`.
pub open spec fn key_ge(a: PostMetadataView, b: PostMetadataView) -> bool {
    let (aw, am) = spec_sort_key(a);
    let (bw, bm) = spec_sort_key(b);
    aw > bw || (aw == bw && am >= bm)
}

/// A listing sorted most-recently-written first.
pub open spec fn sorted_desc(s: Seq<PostMetadata>) -> bool {
    forall|i: int, j: int| 0 <= i < j < s.len() ==> key_ge(#[trigger] s[i]@, #[trigger] s[j]@)
}

fn key_ge_exec(a: &PostMetadata, b: &PostMetadata) -> (r: bool)
    ensures
        r == key_ge(a@, b@),
{
    let aw: i64 = match a.written_at {
        Some(w) => w,
        None => 0,
    };
    let am: i64 = match a.modified_at {
        Some(o) => o,
        None => 0,
    };
    let bw: i64 = match b.written_at {
        Some(w) => w,
        None => 0,
    };
    let bm: i64 = match b.modified_at {
        Some(o) => o,
        None => 0,
    };
    aw > bw || (aw == bw && am >= bm)
}

fn find_max_index(v: &Vec<PostMetadata>) -> (r: usize)
    requires
        v@.len() > 0,
    ensures
        r < v@.len(),
        forall|i: int| 0 <= i < v@.len() ==> key_ge(v@[r as int]@, (#[trigger] v@[i])@),
{
    let mut best: usize = 0;
    let mut i: usize = 1;
    while i < v.len()
        invariant
            v@.len() > 0,
            best < i,
            i <= v@.len(),
            forall|k: int| 0 <= k < i ==> key_ge(v@[best as int]@, (#[trigger] v@[k])@),
        decreases v@.len() - i,
    {
        if key_ge_exec(&v[i], &v[best]) {
            best = i;
        }
        i = i + 1;
    }
    best
}

/// Sorts a listing most-recently-written first. The result holds exactly
/// the given posts.
pub fn sort_posts(posts: Vec<PostMetadata>) -> (r: Vec<PostMetadata>)
    ensures
        r@.to_multiset() == posts@.to_multiset(),
        r@.len() == posts@.len(),
        sorted_desc(r@),
{
    broadcast use vstd::seq_lib::group_to_multiset_ensures;

    let ghost orig = posts@;
    let mut rest = posts;
    let mut out: Vec<PostMetadata> = Vec::new();
    while rest.len() > 0
        invariant
            out@.to_multiset().add(rest@.to_multiset()) =~= orig.to_multiset(),
            out@.len() + rest@.len() == orig.len(),
            sorted_desc(out@),
            forall|i: int, j: int|
                0 <= i < out@.len() && 0 <= j < rest@.len() ==> key_ge(
                    (#[trigger] out@[i])@,
                    (#[trigger] rest@[j])@,
                ),
        decreases rest@.len(),
    {
        let mi = find_max_index(&rest);
        let ghost rest0 = rest@;
        let x = rest.remove(mi);
        proof {
            rest0.to_multiset_ensures();
            out@.to_multiset_ensures();
            assert(rest@ == rest0.remove(mi as int));
            assert(rest0.remove(mi as int).to_multiset() =~= rest0.to_multiset().remove(
                rest0[mi as int],
            ));
            assert(out@.push(x).to_multiset() =~= out@.to_multiset().insert(x));
            assert(out@.to_multiset().insert(x).add(rest0.to_multiset().remove(x))
                =~= out@.to_multiset().add(rest0.to_multiset()));
            assert(forall|j: int|
                0 <= j < rest@.len() ==> rest@[j] == (if j < mi {
                    rest0[j]
                } else {
                    rest0[j + 1]
                }));
        }
        out.push(x);
        proof {
            assert(forall|i: int|
                0 <= i < out@.len() - 1 ==> key_ge((#[trigger] out@[i])@, out@[out@.len() - 1]@));
        }
    }
    out
}

/// Whether a post carries the requested tag; with no tag requested every
/// post passes.
pub open spec fn spec_tag_match(m: PostMetadataView, tag: Option<Seq<char>>) -> bool {
    match tag {
        Some(t) => m.tags.contains(t),
        None => true,
    }
}

/// The posts that pass an optional tag filter, in their original order.
pub open spec fn spec_filter_tag(s: Seq<PostMetadata>, tag: Option<Seq<char>>) -> Seq<PostMetadata>
    decreases s.len(),
{
    if s.len() == 0 {
        Seq::empty()
    } else {
        let rest = spec_filter_tag(s.drop_last(), tag);
        if spec_tag_match(s.last()@, tag) {
            rest.push(s.last())
        } else {
            rest
        }
    }
}

fn filter_by_tag(posts: Vec<PostMetadata>, tag: Option<&str>) -> (r: Vec<PostMetadata>)
    ensures
        r@ == spec_filter_tag(posts@, tag.deep_view()),
{
    let ghost posts0 = posts@;
    let mut posts = posts;
    let mut out: Vec<PostMetadata> = Vec::new();
    let ghost i: int = 0;
    while posts.len() > 0
        invariant
            0 <= i <= posts0.len(),
            posts@ == posts0.skip(i),
            out@ == spec_filter_tag(posts0.take(i), tag.deep_view()),
        decreases posts@.len(),
    {
        let p = posts.remove(0);
        proof {
            assert(p == posts0[i]);
            assert(posts0.skip(i).remove(0) =~= posts0.skip(i + 1));
            assert(posts0.take(i + 1).drop_last() =~= posts0.take(i));
            assert(posts0.take(i + 1).last() == posts0[i]);
        }
        let matches = match tag {
            Some(t) => contains_str(&p.tags, t),
            None => true,
        };
        if matches {
            out.push(p);
        }
        proof {
            i = i + 1;
        }
    }
    proof {
        assert(posts0.take(posts0.len() as int) =~= posts0);
    }
    out
}

/// The derived listing operation: keep the posts carrying the requested tag
/// (if any), order them most-recently-written first, and return at most `n`
/// of them — the most recent ones.
pub fn get_max_n_post_metadata_with_optional_tag_sorted(
    posts: Vec<PostMetadata>,
    n: Option<usize>,
    tag: Option<&str>,
) -> (r: Vec<PostMetadata>)
    ensures
        sorted_desc(r@),
        forall|i: int| 0 <= i < r@.len() ==> spec_tag_match((#[trigger] r@[i])@, tag.deep_view()),
        exists|full: Seq<PostMetadata>|
            {
                &&& #[trigger] full.to_multiset() == spec_filter_tag(
                    posts@,
                    tag.deep_view(),
                ).to_multiset()
                &&& sorted_desc(full)
                &&& r@ == full.take(
                    match n {
                        Some(limit) => if limit < full.len() {
                            limit as int
                        } else {
                            full.len() as int
                        },
                        None => full.len() as int,
                    },
                )
            },
{
    let ghost posts0 = posts@;
    let filtered = filter_by_tag(posts, tag);
    let ghost filtered_view = filtered@;
    let mut sorted = sort_posts(filtered);
    let ghost full = sorted@;
    proof {
        broadcast use vstd::seq_lib::group_to_multiset_ensures;

        lemma_spec_filter_tag_all(posts0, tag.deep_view());
        assert forall|i: int| 0 <= i < full.len() implies spec_tag_match(
            (#[trigger] full[i])@,
            tag.deep_view(),
        ) by {
            assert(full.contains(full[i]));
            assert(full.to_multiset().count(full[i]) > 0);
            assert(filtered_view.to_multiset().count(full[i]) > 0);
            assert(filtered_view.contains(full[i]));
            let j = choose|j: int| 0 <= j < filtered_view.len() && filtered_view[j] == full[i];
            assert(spec_filter_tag(posts0, tag.deep_view())[j] == full[i]);
            assert(spec_tag_match(filtered_view[j]@, tag.deep_view()));
        }
    }
    if let Some(limit) = n {
        sorted.truncate(limit);
        proof {
            if limit < full.len() {
                assert(sorted@ =~= full.take(limit as int));
            } else {
                assert(sorted@ =~= full.take(full.len() as int));
            }
        }
    } else {
        proof {
            assert(sorted@ =~= full.take(full.len() as int));
        }
    }
    sorted
}

/// Tags as the data model carries them: an unordered set materialized as a
/// strictly ascending sequence, so renders are stable and hold no duplicate.
pub open spec fn spec_tags_sorted(tags: Seq<Seq<char>>) -> bool {
    forall|i: int|
        0 <= i < tags.len() - 1 ==> crate::strutil::spec_lex_lt(#[trigger] tags[i], tags[i + 1])
}

/// Whether a tag list is strictly ascending.
pub fn tags_strictly_sorted(tags: &Vec<String>) -> (b: bool)
    ensures
        b == spec_tags_sorted(tags.deep_view()),
{
    if tags.len() == 0 {
        return true;
    }
    let mut i: usize = 0;
    while i < tags.len() - 1
        invariant
            tags@.len() > 0,
            i <= tags@.len() - 1,
            forall|k: int|
                0 <= k < i ==> crate::strutil::spec_lex_lt(
                    #[trigger] tags.deep_view()[k],
                    tags.deep_view()[k + 1],
                ),
        decreases tags@.len() - i,
    {
        if !crate::strutil::lex_lt(tags[i].as_str(), tags[i + 1].as_str()) {
            proof {
                assert(tags.deep_view()[i as int] == tags@[i as int]@);
                assert(tags.deep_view()[i + 1] == tags@[i + 1]@);
                assert(!crate::strutil::spec_lex_lt(
                    tags.deep_view()[i as int],
                    tags.deep_view()[i + 1],
                ));
            }
            return false;
        }
        proof {
            assert(tags.deep_view()[i as int] == tags@[i as int]@);
            assert(tags.deep_view()[i + 1] == tags@[i + 1]@);
        }
        i = i + 1;
    }
    true
}

/// A strictly ascending tag list holds no duplicate: any two positions
/// carry different tags.
pub proof fn lemma_sorted_tags_distinct(tags: Seq<Seq<char>>)
    requires
        spec_tags_sorted(tags),
    ensures
        forall|i: int, j: int| 0 <= i < j < tags.len() ==> #[trigger] tags[i] != #[trigger] tags[j],
{
    assert forall|i: int, j: int| 0 <= i < j < tags.len() implies #[trigger] tags[i]
        != #[trigger] tags[j] by {
        lemma_sorted_tags_span(tags, i, j);
        crate::strutil::lemma_lex_lt_irreflexive(tags[i]);
    }
}

proof fn lemma_sorted_tags_span(tags: Seq<Seq<char>>, i: int, j: int)
    requires
        spec_tags_sorted(tags),
        0 <= i < j < tags.len(),
    ensures
        crate::strutil::spec_lex_lt(tags[i], tags[j]),
    decreases j - i,
{
    if j == i + 1 {
    } else {
        lemma_sorted_tags_span(tags, i, j - 1);
        crate::strutil::lemma_lex_lt_transitive(tags[i], tags[j - 1], tags[j]);
    }
}

/// Reduces a returned post to its metadata: a raw response carries none, so
/// asking a raw name for metadata is the not-found outcome.
pub fn get_post_metadata(name: &str, post: ReturnedPost) -> (r: Result<PostMetadata, PostError>)
    ensures
        match r {
            Ok(m) => post matches ReturnedPost::Rendered { meta, .. } && m == meta,
            Err(e) => post is Raw && (e matches PostError::NotFound(n) && n@ == name@),
        },
{
    match post {
        ReturnedPost::Rendered { meta, .. } => Ok(meta),
        ReturnedPost::Raw { .. } => Err(PostError::NotFound(String::from_str(name))),
    }
}

/// What a listing keeps from the per-document outcomes: the successful
/// renders whose metadata passes every filter, in order. Failures are
/// dropped here — one broken document never blocks the rest of a listing.
pub open spec fn spec_collect_listing(
    rs: Seq<Result<(PostMetadata, String, RenderStats), PostError>>,
    filters: Seq<Filter>,
) -> Seq<(PostMetadata, String, RenderStats)>
    decreases rs.len(),
{
    if rs.len() == 0 {
        Seq::empty()
    } else {
        let rest = spec_collect_listing(rs.drop_last(), filters);
        match rs.last() {
            Ok(p) => if p.0.spec_apply_filters(filters) {
                rest.push(p)
            } else {
                rest
            },
            Err(_) => rest,
        }
    }
}

/// Collects a listing from per-document outcomes: exactly the successful
/// renders that pass every filter survive, in their original order.
pub fn collect_listing(
    results: Vec<Result<(PostMetadata, String, RenderStats), PostError>>,
    filters: &Vec<Filter>,
) -> (r: Vec<(PostMetadata, String, RenderStats)>)
    ensures
        r@ == spec_collect_listing(results@, filters@),
{
    let ghost rs0 = results@;
    let mut results = results;
    let mut out: Vec<(PostMetadata, String, RenderStats)> = Vec::new();
    let ghost i: int = 0;
    while results.len() > 0
        invariant
            0 <= i <= rs0.len(),
            results@ == rs0.skip(i),
            out@ == spec_collect_listing(rs0.take(i), filters@),
        decreases results@.len(),
    {
        let e = results.remove(0);
        proof {
            assert(e == rs0[i]);
            assert(rs0.skip(i).remove(0) =~= rs0.skip(i + 1));
            assert(rs0.take(i + 1).drop_last() =~= rs0.take(i));
            assert(rs0.take(i + 1).last() == rs0[i]);
        }
        match e {
            Ok(p) => {
                if p.0.apply_filters(filters) {
                    out.push(p);
                }
            },
            Err(_) => {},
        }
        proof {
            i = i + 1;
        }
    }
    proof {
        assert(rs0.take(rs0.len() as int) =~= rs0);
    }
    out
}

/// The capability set both backends implement: how a document name maps to
/// its raw-source name and to the source it is rendered or executed from.
pub trait PostManager {
    /// The name under which the document's raw source is addressable.
    spec fn spec_as_raw(&self, name: Seq<char>) -> Option<Seq<char>>;

    /// The file the document is produced from, relative to the backend's
    /// root.
    spec fn spec_source_name(&self, name: Seq<char>) -> Seq<char>;

    fn raw_name(&self, name: &str) -> (r: Option<String>)
        ensures
            r.deep_view() == self.spec_as_raw(name@),
    ;

    fn source_name(&self, name: &str) -> (r: String)
        ensures
            r@ == self.spec_source_name(name@),
    ;
}

proof fn lemma_spec_filter_tag_all(s: Seq<PostMetadata>, tag: Option<Seq<char>>)
    ensures
        forall|i: int|
            0 <= i < spec_filter_tag(s, tag).len() ==> spec_tag_match(
                (#[trigger] spec_filter_tag(s, tag)[i])@,
                tag,
            ),
    decreases s.len(),
{
    if s.len() > 0 {
        lemma_spec_filter_tag_all(s.drop_last(), tag);
        let rest = spec_filter_tag(s.drop_last(), tag);
        assert forall|i: int| 0 <= i < spec_filter_tag(s, tag).len() implies spec_tag_match(
            (#[trigger] spec_filter_tag(s, tag)[i])@,
            tag,
        ) by {
            if spec_tag_match(s.last()@, tag) {
                assert(spec_filter_tag(s, tag) == rest.push(s.last()));
                if i < rest.len() {
                    assert(spec_filter_tag(s, tag)[i] == rest[i]);
                } else {
                    assert(spec_filter_tag(s, tag)[i] == s.last());
                }
            } else {
                assert(spec_filter_tag(s, tag) == rest);
                assert(spec_filter_tag(s, tag)[i] == rest[i]);
            }
        }
    }
}

} // verus!
