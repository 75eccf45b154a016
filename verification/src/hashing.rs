//! The 64-bit fingerprint used to key cache variants: render configurations
//! and serialized query parameters are hashed to one `u64`.

use vstd::prelude::*;

verus! {

/// The fingerprint of a character sequence. Two equal strings always get
/// equal fingerprints; distinct strings are expected, not guaranteed, to
/// differ.
pub uninterp spec fn hash64_of(s: Seq<char>) -> u64;

/// Relies on std's DefaultHasher: instances created through `new` all use
/// the same fixed keys, so the digest of a string is a function of its
/// characters alone.
#[verifier::external_body]
pub fn hash_str(s: &str) -> (r: u64)
    ensures
        r == hash64_of(s@),
{
    let mut h = std::collections::hash_map::DefaultHasher::new();
    std::hash::Hash::hash(s, &mut h);
    std::hash::Hasher::finish(&h)
}

} // verus!
