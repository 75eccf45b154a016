//! Request-path hygiene: a document name taken from a request must not
//! navigate the filesystem.

use vstd::prelude::*;
use vstd::string::StrSliceExecFns;

verus! {

/// A name is safe when it holds no path separator and no `..` sequence.
pub open spec fn spec_path_is_safe(s: Seq<char>) -> bool {
    &&& !s.contains('/')
    &&& forall|i: int| 0 <= i < s.len() - 1 ==> !((#[trigger] s[i]) == '.' && s[i + 1] == '.')
}

/// Whether a requested name is safe to resolve under a root directory.
pub fn is_safe_path(s: &str) -> (r: bool)
    ensures
        r == spec_path_is_safe(s@),
{
    let len = s.unicode_len();
    let mut i: usize = 0;
    let mut prev_dot = false;
    while i < len
        invariant
            len == s@.len(),
            i <= len,
            prev_dot == (i > 0 && s@[i - 1] == '.'),
            forall|k: int| 0 <= k < i ==> s@[k] != '/',
            forall|k: int| 0 <= k < i - 1 ==> !((#[trigger] s@[k]) == '.' && s@[k + 1] == '.'),
        decreases len - i,
    {
        let c = s.get_char(i);
        if c == '/' {
            return false;
        }
        if c == '.' && prev_dot {
            return false;
        }
        prev_dot = c == '.';
        i = i + 1;
    }
    proof {
        if s@.contains('/') {
            let k = choose|k: int| 0 <= k < s@.len() && s@[k] == '/';
        }
    }
    true
}

/// A request path that has been checked: it names one document and cannot
/// escape the backend's root directory.
#[derive(Debug, Clone, PartialEq, Eq)]
pub struct SafePath(pub String);

impl SafePath {
    /// Accepts a requested name only if it is safe.
    pub fn new(s: String) -> (r: Option<SafePath>)
        ensures
            match r {
                Some(p) => spec_path_is_safe(s@) && p.0@ == s@,
                None => !spec_path_is_safe(s@),
            },
    {
        if is_safe_path(s.as_str()) {
            Some(SafePath(s))
        } else {
            None
        }
    }
}

} // verus!
