//! Front matter framing: a document carries its metadata in a header block
//! that starts on the first line with `---` and ends at the next line
//! holding only `---`; the free-form body follows. This module splits a
//! document into the two parts and turns parsed header fields into
//! [`PostMetadata`].

use crate::error::PostError;
use crate::post::{spec_tags_sorted, PostMetadata, PostMetadataView};
use vstd::prelude::*;
use vstd::string::StrSliceExecFns;
use vstd::string::StringExecFns;

verus! {

/// The document opens with a `---` line.
pub open spec fn spec_has_fm_prefix(s: Seq<char>) -> bool {
    s.len() >= 4 && s[0] == '-' && s[1] == '-' && s[2] == '-' && s[3] == '\n'
}

/// A closing `---` line begins at position `i` of the text after the
/// opening line.
pub open spec fn spec_delim_at(t: Seq<char>, i: int) -> bool {
    &&& 0 <= i
    &&& i + 5 <= t.len()
    &&& t[i] == '\n'
    &&& t[i + 1] == '-'
    &&& t[i + 2] == '-'
    &&& t[i + 3] == '-'
    &&& t[i + 4] == '\n'
}

/// Position of the first closing `---` line at or after `i`, if any.
pub open spec fn spec_find_delim(t: Seq<char>, i: int) -> Option<int>
    decreases t.len() - i,
    when 0 <= i
{
    if i + 5 > t.len() {
        None
    } else if spec_delim_at(t, i) {
        Some(i)
    } else {
        spec_find_delim(t, i + 1)
    }
}

/// The front matter split: the headers between the opening line and the
/// first closing line, and the body after the closing line.
pub open spec fn spec_front_matter(s: Seq<char>) -> Option<(Seq<char>, Seq<char>)> {
    if !spec_has_fm_prefix(s) {
        None
    } else {
        let t = s.skip(4);
        match spec_find_delim(t, 0) {
            None => None,
            Some(j) => Some((t.take(j), t.skip(j + 5))),
        }
    }
}

/// Splits a document into its front matter headers and its body, or reports
/// which of the two framing lines is missing.
pub fn split_front_matter(content: &str) -> (r: Result<(String, String), PostError>)
    ensures
        match r {
            Ok((headers, body)) => spec_front_matter(content@) == Some((headers@, body@)),
            Err(e) => {
                &&& spec_front_matter(content@) is None
                &&& e matches PostError::ParseError(m)
                &&& (spec_has_fm_prefix(content@) ==> m@ == "missing ending line"@)
                &&& (!spec_has_fm_prefix(content@) ==> m@ == "missing beginning line"@)
            },
        },
{
    let len = content.unicode_len();
    if len < 4 || content.get_char(0) != '-' || content.get_char(1) != '-' || content.get_char(2)
        != '-' || content.get_char(3) != '\n' {
        return Err(PostError::ParseError(String::from_str("missing beginning line")));
    }
    let ghost t = content@.skip(4);
    let tlen = len - 4;
    let mut j: usize = 0;
    if tlen < 5 {
        proof {
            assert(spec_find_delim(t, 0) is None);
        }
        return Err(PostError::ParseError(String::from_str("missing ending line")));
    }
    while j <= tlen - 5
        invariant
            spec_has_fm_prefix(content@),
            len == content@.len(),
            4 <= len,
            5 <= tlen,
            tlen == len - 4,
            t == content@.skip(4),
            j <= tlen - 4,
            spec_find_delim(t, 0) == spec_find_delim(t, j as int),
        decreases tlen - j,
    {
        proof {
            assert(t[j as int] == content@[4 + j]);
            assert(t[j + 1] == content@[4 + j + 1]);
            assert(t[j + 2] == content@[4 + j + 2]);
            assert(t[j + 3] == content@[4 + j + 3]);
            assert(t[j + 4] == content@[4 + j + 4]);
        }
        if content.get_char(4 + j) == '\n' && content.get_char(4 + j + 1) == '-' && content.get_char(
            4 + j + 2,
        ) == '-' && content.get_char(4 + j + 3) == '-' && content.get_char(4 + j + 4) == '\n' {
            proof {
                assert(spec_delim_at(t, j as int));
                assert(spec_find_delim(t, j as int) == Some(j as int));
            }
            let headers = String::from_str(content.substring_char(4, 4 + j));
            let body = String::from_str(content.substring_char(4 + j + 5, len));
            proof {
                assert(headers@ =~= t.take(j as int));
                assert(body@ =~= t.skip(j + 5));
            }
            return Ok((headers, body));
        }
        proof {
            assert(!spec_delim_at(t, j as int));
            assert(spec_find_delim(t, j as int) == spec_find_delim(t, j + 1));
        }
        j = j + 1;
    }
    proof {
        assert(spec_find_delim(t, j as int) is None);
    }
    Err(PostError::ParseError(String::from_str("missing ending line")))
}

/// Front-matter fields as parsed from a document's header block. Absent
/// timestamps fall back to filesystem times in [`FrontMatter::into_full`].
#[derive(Debug)]
pub struct FrontMatter {
    pub title: String,
    pub description: String,
    pub author: String,
    pub icon: Option<String>,
    pub icon_alt: Option<String>,
    pub color: Option<String>,
    pub written_at: Option<i64>,
    pub modified_at: Option<i64>,
    pub tags: Vec<String>,
}

/// The metadata that [`FrontMatter::into_full`] produces: front-matter
/// timestamps win, filesystem times fill the gaps.
pub open spec fn spec_into_full(
    title: Seq<char>,
    description: Seq<char>,
    author: Seq<char>,
    icon: Option<Seq<char>>,
    icon_alt: Option<Seq<char>>,
    color: Option<Seq<char>>,
    written_at: Option<i64>,
    modified_at: Option<i64>,
    tags: Seq<Seq<char>>,
    name: Seq<char>,
    created: Option<i64>,
    modified: Option<i64>,
) -> PostMetadataView {
    PostMetadataView {
        name,
        title,
        description,
        author,
        icon,
        icon_alt,
        color,
        written_at: if written_at is Some {
            written_at
        } else {
            created
        },
        modified_at: if modified_at is Some {
            modified_at
        } else {
            modified
        },
        tags,
    }
}

impl FrontMatter {
    /// Combines the parsed header fields with the document's name and the
    /// filesystem-observed creation and modification times. The tags must
    /// arrive as the data model keeps them — an unordered set materialized
    /// strictly ascending — and leave the same way.
    pub fn into_full(self, name: String, created: Option<i64>, modified: Option<i64>) -> (r:
        PostMetadata)
        requires
            spec_tags_sorted(self.tags.deep_view()),
        ensures
            spec_tags_sorted(r@.tags),
            r@ == spec_into_full(
                self.title@,
                self.description@,
                self.author@,
                self.icon.deep_view(),
                self.icon_alt.deep_view(),
                self.color.deep_view(),
                self.written_at,
                self.modified_at,
                self.tags.deep_view(),
                name@,
                created,
                modified,
            ),
    {
        let written_at = match self.written_at {
            Some(w) => Some(w),
            None => created,
        };
        let modified_at = match self.modified_at {
            Some(m) => Some(m),
            None => modified,
        };
        let r = PostMetadata {
            name,
            title: self.title,
            description: self.description,
            author: self.author,
            icon: self.icon,
            icon_alt: self.icon_alt,
            color: self.color,
            written_at,
            modified_at,
            tags: self.tags,
        };
        assert(r@ =~= spec_into_full(
            r.title@,
            r.description@,
            r.author@,
            r.icon.deep_view(),
            r.icon_alt.deep_view(),
            r.color.deep_view(),
            self.written_at,
            self.modified_at,
            r.tags.deep_view(),
            r.name@,
            created,
            modified,
        ));
        r
    }
}

} // verus!
