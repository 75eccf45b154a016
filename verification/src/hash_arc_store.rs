//! A single memo slot for an expensive shared value, keyed by a hash of the
//! configuration it was built from: the syntax-highlighting engine is
//! rebuilt only when the configuration's hash changes, and shared otherwise.

use std::sync::Arc;
use vstd::prelude::*;

verus! {

/// Relies on Arc::clone: the clone shares the same value.
#[verifier::external_body]
fn arc_clone<T>(a: &Arc<T>) -> (r: Arc<T>)
    ensures
        r == *a,
{
    Arc::clone(a)
}

/// One memoized value together with the hash of whatever it was built from.
pub struct HashArcStore<T> {
    pub inner: Option<Arc<T>>,
    pub hash: Option<u64>,
}

impl<T> HashArcStore<T> {
    /// An empty slot.
    pub fn new() -> (s: Self)
        ensures
            s.inner is None,
            s.hash is None,
    {
        Self { inner: None, hash: None }
    }

    /// Returns the stored value when `key_hash` matches the hash it was
    /// built under; otherwise builds a fresh value, stores it, and returns
    /// it. The builder runs only on a hash change.
    pub fn get_or_init<F: Fn() -> Arc<T>>(&mut self, key_hash: u64, init: F) -> (r: Arc<T>)
        requires
            call_requires(init, ()),
            old(self).hash matches Some(h) && h == key_hash ==> old(self).inner is Some,
        ensures
            final(self).hash == Some(key_hash),
            final(self).inner == Some(r),
            (old(self).hash matches Some(h) && h == key_hash) ==> (old(self).inner matches Some(v)
                && r == v),
            !(old(self).hash matches Some(h) && h == key_hash) ==> call_ensures(init, (), r),
    {
        let hit = match self.hash {
            Some(h) => h == key_hash,
            None => false,
        };
        if hit {
            match &self.inner {
                Some(v) => {
                    return arc_clone(v);
                },
                None => {
                    proof {
                        assert(false);
                    }
                },
            }
        }
        let r = init();
        self.inner = Some(arc_clone(&r));
        self.hash = Some(key_hash);
        r
    }
}

} // verus!
