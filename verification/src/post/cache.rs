//! The cache store: an associative map from (document name, variant
//! fingerprint) to rendered output, with TTL expiry, a format version tag,
//! bulk retention, and self-healing eviction of stale entries on lookup.
//!
//! All clock readings enter through explicit `now` arguments (milliseconds
//! since the epoch), so every operation is a function of its inputs.

use crate::post::{PostMetadata, PostMetadataView};
use crate::strutil::str_eq;
use vstd::prelude::*;

verus! {

/// Persisted caches whose version tag is older than this are discarded
/// whole on load.
pub const CACHE_VERSION: u16 = 5;

/// Cache key: document name plus a 64-bit fingerprint of the request
/// variant (hashed query parameters or render-configuration hash).
#[derive(Debug, PartialEq, Eq, Hash)]
pub struct CacheKey {
    pub name: String,
    pub extra: u64,
}

/// Mathematical value of a [`CacheKey`].
pub type CacheKeyView = (Seq<char>, u64);

impl View for CacheKey {
    type V = CacheKeyView;

    open spec fn view(&self) -> CacheKeyView {
        (self.name@, self.extra)
    }
}

impl Clone for CacheKey {
    fn clone(&self) -> (r: Self)
        ensures
            r == *self,
    {
        CacheKey { name: self.name.clone(), extra: self.extra }
    }
}

/// Mathematical value of a [`CacheValue`].
#[verifier::ext_equal]
pub struct CacheValueView {
    pub meta: PostMetadataView,
    pub body: Seq<char>,
    pub mtime: u64,
    pub cached_at: u128,
}

/// Cached render result: the metadata snapshot, the rendered body, the
/// source's modification time (seconds since the epoch) at render time, and
/// the wall-clock insertion time (milliseconds since the epoch) for TTL.
#[derive(Debug)]
pub struct CacheValue {
    pub meta: PostMetadata,
    pub body: String,
    pub mtime: u64,
    pub cached_at: u128,
}

impl View for CacheValue {
    type V = CacheValueView;

    open spec fn view(&self) -> CacheValueView {
        CacheValueView {
            meta: self.meta@,
            body: self.body@,
            mtime: self.mtime,
            cached_at: self.cached_at,
        }
    }
}

impl Clone for CacheValue {
    fn clone(&self) -> (r: Self)
        ensures
            r@ == self@,
    {
        let r = CacheValue {
            meta: self.meta.clone(),
            body: self.body.clone(),
            mtime: self.mtime,
            cached_at: self.cached_at,
        };
        assert(r@ =~= self@);
        r
    }
}

/// Whether an entry inserted at `v.cached_at` is still within the TTL at
/// `now`; with no TTL configured every entry is.
pub open spec fn spec_ttl_live(v: CacheValueView, now: u128, ttl: Option<u64>) -> bool {
    match ttl {
        Some(t) => v.cached_at + t >= now,
        None => true,
    }
}

/// A value is fresh when the source has not been modified since it was
/// rendered and, if a TTL is configured, the entry has not outlived it.
pub open spec fn spec_fresh(v: CacheValueView, mtime: u64, now: u128, ttl: Option<u64>) -> bool {
    mtime <= v.mtime && spec_ttl_live(v, now, ttl)
}

/// What a lookup returns: the stored value if present and fresh, nothing
/// otherwise.
pub open spec fn spec_hit(
    m: Map<CacheKeyView, CacheValueView>,
    key: CacheKeyView,
    mtime: u64,
    now: u128,
    ttl: Option<u64>,
) -> Option<CacheValueView> {
    if m.contains_key(key) && spec_fresh(m[key], mtime, now, ttl) {
        Some(m[key])
    } else {
        None
    }
}

/// The store after a lookup: unchanged on a hit or a miss, with the stale
/// entry evicted when one was found.
pub open spec fn spec_after_lookup(
    m: Map<CacheKeyView, CacheValueView>,
    key: CacheKeyView,
    mtime: u64,
    now: u128,
    ttl: Option<u64>,
) -> Map<CacheKeyView, CacheValueView> {
    if m.contains_key(key) && !spec_fresh(m[key], mtime, now, ttl) {
        m.remove(key)
    } else {
        m
    }
}

/// The map described by a sequence of entries; on duplicate keys the later
/// entry wins.
pub open spec fn entries_map(s: Seq<(CacheKey, CacheValue)>) -> Map<CacheKeyView, CacheValueView>
    decreases s.len(),
{
    if s.len() == 0 {
        Map::empty()
    } else {
        entries_map(s.drop_last()).insert(s.last().0@, s.last().1@)
    }
}

/// No two entries share a key.
pub open spec fn unique_keys(s: Seq<(CacheKey, CacheValue)>) -> bool {
    forall|i: int, j: int| 0 <= i < j < s.len() ==> (#[trigger] s[i]).0@ != (#[trigger] s[j]).0@
}

proof fn lemma_entries_map_index(s: Seq<(CacheKey, CacheValue)>, i: int)
    requires
        0 <= i < s.len(),
        forall|j: int| i < j < s.len() ==> (#[trigger] s[j]).0@ != s[i].0@,
    ensures
        entries_map(s).contains_key(s[i].0@),
        entries_map(s)[s[i].0@] == s[i].1@,
    decreases s.len(),
{
    if i < s.len() - 1 {
        lemma_entries_map_index(s.drop_last(), i);
        assert(s.drop_last()[i] == s[i]);
    }
}

proof fn lemma_entries_map_absent(s: Seq<(CacheKey, CacheValue)>, k: CacheKeyView)
    requires
        forall|i: int| 0 <= i < s.len() ==> (#[trigger] s[i]).0@ != k,
    ensures
        !entries_map(s).contains_key(k),
    decreases s.len(),
{
    if s.len() > 0 {
        lemma_entries_map_absent(s.drop_last(), k);
    }
}

proof fn lemma_entries_map_domain(s: Seq<(CacheKey, CacheValue)>, k: CacheKeyView)
    requires
        entries_map(s).contains_key(k),
    ensures
        exists|i: int| 0 <= i < s.len() && (#[trigger] s[i]).0@ == k,
    decreases s.len(),
{
    if s.len() > 0 {
        if s.last().0@ == k {
            assert((s[s.len() - 1]).0@ == k);
        } else {
            lemma_entries_map_domain(s.drop_last(), k);
            let i = choose|i: int|
                0 <= i < s.drop_last().len() && (#[trigger] s.drop_last()[i]).0@ == k;
            assert((s[i]).0@ == k);
        }
    }
}

proof fn lemma_entries_map_push(s: Seq<(CacheKey, CacheValue)>, e: (CacheKey, CacheValue))
    ensures
        entries_map(s.push(e)) == entries_map(s).insert(e.0@, e.1@),
{
    assert(s.push(e).drop_last() =~= s);
    assert(s.push(e).last() == e);
}

proof fn lemma_entries_map_remove(s: Seq<(CacheKey, CacheValue)>, i: int)
    requires
        unique_keys(s),
        0 <= i < s.len(),
    ensures
        unique_keys(s.remove(i)),
        entries_map(s.remove(i)) == entries_map(s).remove(s[i].0@),
    decreases s.len(),
{
    let t = s.remove(i);
    assert forall|a: int, b: int| 0 <= a < b < t.len() implies (#[trigger] t[a]).0@
        != (#[trigger] t[b]).0@ by {
        assert(t[a] == (if a < i {
            s[a]
        } else {
            s[a + 1]
        }));
        assert(t[b] == (if b < i {
            s[b]
        } else {
            s[b + 1]
        }));
    }
    let k = s[i].0@;
    if i == s.len() - 1 {
        assert(t =~= s.drop_last());
        assert forall|j: int| 0 <= j < s.drop_last().len() implies (#[trigger] s.drop_last()[j]).0@
            != k by {
            assert(s.drop_last()[j] == s[j]);
        }
        lemma_entries_map_absent(s.drop_last(), k);
        assert(entries_map(s).remove(k) =~= entries_map(s.drop_last()));
    } else {
        assert(t.drop_last() =~= s.drop_last().remove(i));
        assert(t.last() == s.last());
        assert forall|a: int, b: int| 0 <= a < b < s.drop_last().len() implies (#[trigger] s
            .drop_last()[a]).0@ != (#[trigger] s.drop_last()[b]).0@ by {
            assert(s.drop_last()[a] == s[a]);
            assert(s.drop_last()[b] == s[b]);
        }
        lemma_entries_map_remove(s.drop_last(), i);
        assert(s.drop_last()[i] == s[i]);
        assert(s.last().0@ != k);
        assert(entries_map(s.drop_last()).remove(k).insert(s.last().0@, s.last().1@)
            =~= entries_map(s.drop_last()).insert(s.last().0@, s.last().1@).remove(k));
    }
}

/// The concurrent associative store at the heart of the engine: a map from
/// [`CacheKey`] to [`CacheValue`] together with a format version tag and an
/// optional TTL in milliseconds.
#[derive(Debug)]
pub struct Cache {
    entries: Vec<(CacheKey, CacheValue)>,
    version: u16,
    ttl: Option<u64>,
}

impl View for Cache {
    type V = Map<CacheKeyView, CacheValueView>;

    closed spec fn view(&self) -> Map<CacheKeyView, CacheValueView> {
        entries_map(self.entries@)
    }
}

impl Cache {
    /// Internal consistency: entry keys are unique and a configured TTL is
    /// positive.
    pub closed spec fn wf(&self) -> bool {
        &&& unique_keys(self.entries@)
        &&& match self.ttl {
            Some(t) => t > 0,
            None => true,
        }
    }

    /// The configured TTL in milliseconds, if any.
    pub closed spec fn spec_ttl(&self) -> Option<u64> {
        self.ttl
    }

    /// The format version this store was created or loaded with.
    pub closed spec fn spec_version(&self) -> u16 {
        self.version
    }

    /// An empty store tagged with the current format version.
    pub fn new(ttl: Option<u64>) -> (c: Cache)
        requires
            ttl matches Some(t) ==> t > 0,
        ensures
            c.wf(),
            c@ == Map::<CacheKeyView, CacheValueView>::empty(),
            c.spec_ttl() == ttl,
            c.spec_version() == CACHE_VERSION,
    {
        Cache { entries: Vec::new(), version: CACHE_VERSION, ttl }
    }

    /// Number of entries.
    pub fn len(&self) -> (n: usize)
        requires
            self.wf(),
        ensures
            n == self@.dom().len(),
            self@.dom().finite(),
    {
        proof {
            lemma_entries_map_len(self.entries@);
        }
        self.entries.len()
    }

    /// The store's format version, for the loader's compatibility decision.
    #[inline(always)]
    pub fn version(&self) -> (v: u16)
        ensures
            v == self.spec_version(),
    {
        self.version
    }

    fn find_index(&self, name: &str, extra: u64) -> (r: Option<usize>)
        ensures
            match r {
                Some(i) => i < self.entries@.len() && (self.entries@[i as int]).0@ == (name@, extra),
                None => forall|j: int|
                    0 <= j < self.entries@.len() ==> (#[trigger] self.entries@[j]).0@ != (
                    name@,
                    extra,
                ),
            },
    {
        let mut i: usize = 0;
        let n = self.entries.len();
        while i < n
            invariant
                n == self.entries@.len(),
                i <= n,
                forall|j: int| 0 <= j < i ==> (#[trigger] self.entries@[j]).0@ != (name@, extra),
            decreases n - i,
        {
            if self.entries[i].0.extra == extra && str_eq(self.entries[i].0.name.as_str(), name) {
                return Some(i);
            }
            i = i + 1;
        }
        None
    }

    fn up_to_date(&self, cached: &CacheValue, mtime: u64, now: u128) -> (b: bool)
        ensures
            b == spec_fresh(cached@, mtime, now, self.spec_ttl()),
    {
        let ttl_live = match self.ttl {
            None => true,
            Some(t) => now <= (t as u128) || cached.cached_at >= now - (t as u128),
        };
        mtime <= cached.mtime && ttl_live
    }

    /// Returns the cached value for `(name, extra)` only if it is present
    /// and fresh at `now`; a stale entry is evicted as a side effect before
    /// returning nothing.
    pub fn lookup(&mut self, name: &str, mtime: u64, extra: u64, now: u128) -> (r: Option<
        CacheValue,
    >)
        requires
            old(self).wf(),
        ensures
            final(self).wf(),
            final(self).spec_ttl() == old(self).spec_ttl(),
            final(self).spec_version() == old(self).spec_version(),
            final(self)@ == spec_after_lookup(
                old(self)@,
                (name@, extra),
                mtime,
                now,
                old(self).spec_ttl(),
            ),
            match r {
                Some(v) => spec_hit(old(self)@, (name@, extra), mtime, now, old(self).spec_ttl())
                    == Some(v@),
                None => spec_hit(old(self)@, (name@, extra), mtime, now, old(self).spec_ttl())
                    is None,
            },
    {
        let key_view = Ghost((name@, extra));
        match self.find_index(name, extra) {
            None => {
                proof {
                    lemma_entries_map_absent(self.entries@, key_view@);
                }
                None
            },
            Some(i) => {
                proof {
                    lemma_entries_map_index(self.entries@, i as int);
                }
                if self.up_to_date(&self.entries[i].1, mtime, now) {
                    let v = self.entries[i].1.clone();
                    Some(v)
                } else {
                    proof {
                        lemma_entries_map_remove(self.entries@, i as int);
                    }
                    let _ = self.entries.remove(i);
                    None
                }
            },
        }
    }

    /// Metadata-only lookup with the same freshness rule and the same
    /// eviction side effect as [`Cache::lookup`].
    pub fn lookup_metadata(&mut self, name: &str, mtime: u64, extra: u64, now: u128) -> (r: Option<
        PostMetadata,
    >)
        requires
            old(self).wf(),
        ensures
            final(self).wf(),
            final(self).spec_ttl() == old(self).spec_ttl(),
            final(self).spec_version() == old(self).spec_version(),
            final(self)@ == spec_after_lookup(
                old(self)@,
                (name@, extra),
                mtime,
                now,
                old(self).spec_ttl(),
            ),
            match r {
                Some(m) => spec_hit(old(self)@, (name@, extra), mtime, now, old(self).spec_ttl())
                    matches Some(v) && v.meta == m@,
                None => spec_hit(old(self)@, (name@, extra), mtime, now, old(self).spec_ttl())
                    is None,
            },
    {
        match self.lookup(name, mtime, extra, now) {
            Some(v) => Some(v.meta),
            None => None,
        }
    }

    fn upsert_entry(&mut self, key: CacheKey, value: CacheValue) -> (prev: Option<CacheValue>)
        requires
            old(self).wf(),
        ensures
            final(self).wf(),
            final(self).spec_ttl() == old(self).spec_ttl(),
            final(self).spec_version() == old(self).spec_version(),
            final(self)@ == old(self)@.insert(key@, value@),
            match prev {
                Some(v) => old(self)@.contains_key(key@) && v@ == old(self)@[key@],
                None => !old(self)@.contains_key(key@),
            },
    {
        let ghost key_view = key@;
        let prev = match self.find_index(key.name.as_str(), key.extra) {
            Some(i) => {
                proof {
                    lemma_entries_map_index(self.entries@, i as int);
                    lemma_entries_map_remove(self.entries@, i as int);
                }
                let e = self.entries.remove(i);
                Some(e.1)
            },
            None => {
                proof {
                    lemma_entries_map_absent(self.entries@, key_view);
                }
                None
            },
        };
        proof {
            if entries_map(self.entries@).contains_key(key_view) {
                lemma_entries_map_domain(self.entries@, key_view);
            }
            lemma_entries_map_push(self.entries@, (key, value));
        }
        assert(forall|j: int|
            0 <= j < self.entries@.len() ==> (#[trigger] self.entries@[j]).0@ != key_view);
        self.entries.push((key, value));
        proof {
            assert(entries_map(self.entries@) =~= old(self)@.insert(key_view, value@));
        }
        prev
    }

    /// Upsert of a freshly rendered document: the last completed insert for
    /// a key wins. Returns the replaced value, if any.
    pub fn insert(
        &mut self,
        name: String,
        metadata: PostMetadata,
        mtime: u64,
        rendered: String,
        extra: u64,
        now: u128,
    ) -> (prev: Option<CacheValue>)
        requires
            old(self).wf(),
        ensures
            final(self).wf(),
            final(self).spec_ttl() == old(self).spec_ttl(),
            final(self).spec_version() == old(self).spec_version(),
            final(self)@ == old(self)@.insert(
                (name@, extra),
                CacheValueView { meta: metadata@, body: rendered@, mtime, cached_at: now },
            ),
            match prev {
                Some(v) => old(self)@.contains_key((name@, extra)) && v@ == old(self)@[
                    (name@, extra)
                ],
                None => !old(self)@.contains_key((name@, extra)),
            },
    {
        let key = CacheKey { name, extra };
        let value = CacheValue { meta: metadata, body: rendered, mtime, cached_at: now };
        self.upsert_entry(key, value)
    }

    /// Removes the entry for `(name, extra)`, returning it if it existed.
    pub fn remove(&mut self, name: &str, extra: u64) -> (r: Option<(CacheKey, CacheValue)>)
        requires
            old(self).wf(),
        ensures
            final(self).wf(),
            final(self).spec_ttl() == old(self).spec_ttl(),
            final(self).spec_version() == old(self).spec_version(),
            final(self)@ == old(self)@.remove((name@, extra)),
            match r {
                Some(e) => old(self)@.contains_key((name@, extra)) && e.0@ == (name@, extra)
                    && e.1@ == old(self)@[(name@, extra)],
                None => !old(self)@.contains_key((name@, extra)),
            },
    {
        match self.find_index(name, extra) {
            None => {
                proof {
                    lemma_entries_map_absent(self.entries@, (name@, extra));
                    assert(old(self)@.remove((name@, extra)) =~= old(self)@);
                }
                None
            },
            Some(i) => {
                proof {
                    lemma_entries_map_index(self.entries@, i as int);
                    lemma_entries_map_remove(self.entries@, i as int);
                }
                let e = self.entries.remove(i);
                Some(e)
            },
        }
    }

    fn ttl_live(&self, cached: &CacheValue, now: u128) -> (b: bool)
        ensures
            b == spec_ttl_live(cached@, now, self.spec_ttl()),
    {
        match self.ttl {
            None => true,
            Some(t) => now <= (t as u128) || cached.cached_at >= now - (t as u128),
        }
    }

    /// Bulk retention pass: keeps exactly the entries the predicate
    /// approves, in place. Kept entries are unchanged; for every removed
    /// entry some call of the predicate on it returned false.
    pub fn retain<F: Fn(&CacheKey, &CacheValue) -> bool>(&mut self, predicate: F)
        requires
            old(self).wf(),
            forall|k: &CacheKey, v: &CacheValue| #[trigger] call_requires(predicate, (k, v)),
        ensures
            final(self).wf(),
            final(self).spec_ttl() == old(self).spec_ttl(),
            final(self).spec_version() == old(self).spec_version(),
            forall|k: CacheKeyView| #[trigger]
                final(self)@.contains_key(k) ==> old(self)@.contains_key(k) && final(self)@[k]
                    == old(self)@[k],
            forall|k: CacheKeyView|
                old(self)@.contains_key(k) && #[trigger] final(self)@.contains_key(k)
                    ==> exists|kx: CacheKey, vx: CacheValue|
                    kx@ == k && vx@ == old(self)@[k] && call_ensures(predicate, (&kx, &vx), true),
            forall|k: CacheKeyView| #[trigger]
                old(self)@.contains_key(k) && !final(self)@.contains_key(k)
                    ==> exists|kx: CacheKey, vx: CacheValue|
                    kx@ == k && vx@ == old(self)@[k] && call_ensures(predicate, (&kx, &vx), false),
    {
        let ghost s0 = self.entries@;
        let ghost m0 = self@;
        let n = self.entries.len();
        let mut kept: Vec<(CacheKey, CacheValue)> = Vec::new();
        let mut i: usize = 0;
        while i < n
            invariant
                forall|k: &CacheKey, v: &CacheValue| #[trigger] call_requires(predicate, (k, v)),
                self.entries@ == s0,
                self@ == m0,
                self.wf(),
                n == s0.len(),
                i <= n,
                unique_keys(kept@),
                forall|a: int|
                    0 <= a < kept@.len() ==> exists|j: int|
                        0 <= j < i && (#[trigger] kept@[a]).0@ == s0[j].0@ && kept@[a].1@
                            == s0[j].1@,
                forall|k: CacheKeyView| #[trigger]
                    entries_map(kept@).contains_key(k) ==> m0.contains_key(k) && entries_map(
                        kept@,
                    )[k] == m0[k],
                forall|k: CacheKeyView| #[trigger]
                    entries_map(kept@).contains_key(k) ==> exists|kx: CacheKey, vx: CacheValue|
                        kx@ == k && vx@ == m0[k] && call_ensures(predicate, (&kx, &vx), true),
                forall|j: int|
                    0 <= j < i ==> entries_map(kept@).contains_key((#[trigger] s0[j]).0@) || exists|
                        kx: CacheKey,
                        vx: CacheValue,
                    |
                        kx@ == s0[j].0@ && vx@ == s0[j].1@ && call_ensures(
                            predicate,
                            (&kx, &vx),
                            false,
                        ),
            decreases n - i,
        {
            proof {
                lemma_entries_map_index(self.entries@, i as int);
            }
            let keep = predicate(&self.entries[i].0, &self.entries[i].1);
            if keep {
                proof {
                    if entries_map(kept@).contains_key(s0[i as int].0@) {
                        lemma_entries_map_domain(kept@, s0[i as int].0@);
                    }
                }
                let e = (self.entries[i].0.clone(), self.entries[i].1.clone());
                proof {
                    lemma_entries_map_push(kept@, e);
                }
                kept.push(e);
            }
            i = i + 1;
        }
        self.entries = kept;
        proof {
            assert forall|k: CacheKeyView| #[trigger]
                m0.contains_key(k) && !entries_map(kept@).contains_key(k) implies exists|
                kx: CacheKey,
                vx: CacheValue,
            |
                kx@ == k && vx@ == m0[k] && call_ensures(predicate, (&kx, &vx), false) by {
                lemma_entries_map_domain(s0, k);
                let j = choose|j: int| 0 <= j < s0.len() && (#[trigger] s0[j]).0@ == k;
                lemma_entries_map_index(s0, j);
            }
        }
    }

    /// The periodic maintenance pass: enforces the TTL at `now` and applies
    /// the backend's predicate; an entry survives only if it passes both.
    pub fn cleanup<F: Fn(&CacheKey, &CacheValue) -> bool>(&mut self, now: u128, predicate: F)
        requires
            old(self).wf(),
            forall|k: &CacheKey, v: &CacheValue| #[trigger] call_requires(predicate, (k, v)),
        ensures
            final(self).wf(),
            final(self).spec_ttl() == old(self).spec_ttl(),
            final(self).spec_version() == old(self).spec_version(),
            forall|k: CacheKeyView| #[trigger]
                final(self)@.contains_key(k) ==> old(self)@.contains_key(k) && final(self)@[k]
                    == old(self)@[k],
            forall|k: CacheKeyView|
                old(self)@.contains_key(k) && #[trigger] final(self)@.contains_key(k)
                    ==> spec_ttl_live(old(self)@[k], now, old(self).spec_ttl()) && exists|
                    kx: CacheKey,
                    vx: CacheValue,
                |
                    kx@ == k && vx@ == old(self)@[k] && call_ensures(predicate, (&kx, &vx), true),
            forall|k: CacheKeyView| #[trigger]
                old(self)@.contains_key(k) && !final(self)@.contains_key(k) ==> !spec_ttl_live(
                    old(self)@[k],
                    now,
                    old(self).spec_ttl(),
                ) || exists|kx: CacheKey, vx: CacheValue|
                    kx@ == k && vx@ == old(self)@[k] && call_ensures(predicate, (&kx, &vx), false),
    {
        let ghost s0 = self.entries@;
        let ghost m0 = self@;
        let n = self.entries.len();
        let mut kept: Vec<(CacheKey, CacheValue)> = Vec::new();
        let mut i: usize = 0;
        while i < n
            invariant
                forall|k: &CacheKey, v: &CacheValue| #[trigger] call_requires(predicate, (k, v)),
                self.entries@ == s0,
                self@ == m0,
                self.wf(),
                n == s0.len(),
                i <= n,
                unique_keys(kept@),
                forall|a: int|
                    0 <= a < kept@.len() ==> exists|j: int|
                        0 <= j < i && (#[trigger] kept@[a]).0@ == s0[j].0@ && kept@[a].1@
                            == s0[j].1@,
                forall|k: CacheKeyView| #[trigger]
                    entries_map(kept@).contains_key(k) ==> m0.contains_key(k) && entries_map(
                        kept@,
                    )[k] == m0[k],
                forall|k: CacheKeyView| #[trigger]
                    entries_map(kept@).contains_key(k) ==> spec_ttl_live(
                        m0[k],
                        now,
                        self.spec_ttl(),
                    ) && exists|kx: CacheKey, vx: CacheValue|
                        kx@ == k && vx@ == m0[k] && call_ensures(predicate, (&kx, &vx), true),
                forall|j: int|
                    0 <= j < i ==> entries_map(kept@).contains_key((#[trigger] s0[j]).0@)
                        || !spec_ttl_live(s0[j].1@, now, self.spec_ttl()) || exists|
                        kx: CacheKey,
                        vx: CacheValue,
                    |
                        kx@ == s0[j].0@ && vx@ == s0[j].1@ && call_ensures(
                            predicate,
                            (&kx, &vx),
                            false,
                        ),
            decreases n - i,
        {
            proof {
                lemma_entries_map_index(self.entries@, i as int);
            }
            let live = self.ttl_live(&self.entries[i].1, now);
            let keep = live && predicate(&self.entries[i].0, &self.entries[i].1);
            if keep {
                proof {
                    if entries_map(kept@).contains_key(s0[i as int].0@) {
                        lemma_entries_map_domain(kept@, s0[i as int].0@);
                    }
                }
                let e = (self.entries[i].0.clone(), self.entries[i].1.clone());
                proof {
                    lemma_entries_map_push(kept@, e);
                }
                kept.push(e);
            }
            i = i + 1;
        }
        self.entries = kept;
        proof {
            assert forall|k: CacheKeyView| #[trigger]
                m0.contains_key(k) && !entries_map(kept@).contains_key(k) implies !spec_ttl_live(
                m0[k],
                now,
                self.spec_ttl(),
            ) || exists|kx: CacheKey, vx: CacheValue|
                kx@ == k && vx@ == m0[k] && call_ensures(predicate, (&kx, &vx), false) by {
                lemma_entries_map_domain(s0, k);
                let j = choose|j: int| 0 <= j < s0.len() && (#[trigger] s0[j]).0@ == k;
                lemma_entries_map_index(s0, j);
            }
        }
    }

    /// Surrenders the store's entries for persistence, together with its
    /// version and TTL. The entries carry unique keys and describe exactly
    /// the store's contents.
    pub fn into_parts(self) -> (r: (u16, Option<u64>, Vec<(CacheKey, CacheValue)>))
        requires
            self.wf(),
        ensures
            r.0 == self.spec_version(),
            r.1 == self.spec_ttl(),
            unique_keys(r.2@),
            entries_map(r.2@) == self@,
    {
        (self.version, self.ttl, self.entries)
    }

    /// The loader's compatibility decision over a deserialized store: a
    /// blob tagged with a version older than [`CACHE_VERSION`] is discarded
    /// whole and replaced by an empty store; a current one is adopted, the
    /// last entry winning on duplicate keys.
    pub fn from_loaded(version: u16, ttl: Option<u64>, entries: Vec<(CacheKey, CacheValue)>) -> (c:
        Cache)
        requires
            ttl matches Some(t) ==> t > 0,
        ensures
            c.wf(),
            c.spec_ttl() == ttl,
            version < CACHE_VERSION ==> c@ == Map::<CacheKeyView, CacheValueView>::empty()
                && c.spec_version() == CACHE_VERSION,
            version >= CACHE_VERSION ==> c@ == entries_map(entries@) && c.spec_version() == version,
    {
        if version < CACHE_VERSION {
            Cache::new(ttl)
        } else {
            let ghost e0 = entries@;
            let mut entries = entries;
            let mut c = Cache { entries: Vec::new(), version, ttl };
            proof {
                assert(c@ =~= entries_map(e0.take(0)));
            }
            let ghost i: int = 0;
            while entries.len() > 0
                invariant
                    c.wf(),
                    c.spec_ttl() == ttl,
                    c.spec_version() == version,
                    0 <= i <= e0.len(),
                    entries@ == e0.skip(i),
                    c@ == entries_map(e0.take(i)),
                decreases entries@.len(),
            {
                let e = entries.remove(0);
                proof {
                    assert(e == e0[i]);
                    assert(e0.skip(i).remove(0) =~= e0.skip(i + 1));
                    assert(e0.take(i).push(e0[i]) =~= e0.take(i + 1));
                    lemma_entries_map_push(e0.take(i), e0[i]);
                }
                let _ = c.upsert_entry(e.0, e.1);
                proof {
                    i = i + 1;
                }
            }
            proof {
                assert(e0.take(e0.len() as int) =~= e0);
            }
            c
        }
    }
}

/// The cache never serves output older than its source: a hit's stored
/// modification time is at least the modification time the caller observed,
/// and the entry is within any configured TTL at the time of the lookup.
pub proof fn lemma_hit_is_fresh(
    m: Map<CacheKeyView, CacheValueView>,
    key: CacheKeyView,
    mtime: u64,
    now: u128,
    ttl: Option<u64>,
)
    ensures
        spec_hit(m, key, mtime, now, ttl) matches Some(v) ==> mtime <= v.mtime && spec_ttl_live(
            v,
            now,
            ttl,
        ),
{
}

/// Looking up a value right after inserting it, with the source unchanged
/// and the TTL not yet expired, hits and returns exactly the inserted value:
/// re-rendering an unchanged document is never needed.
pub proof fn lemma_insert_then_hit(
    m: Map<CacheKeyView, CacheValueView>,
    key: CacheKeyView,
    v: CacheValueView,
    now: u128,
    ttl: Option<u64>,
)
    requires
        spec_ttl_live(v, now, ttl),
    ensures
        spec_hit(m.insert(key, v), key, v.mtime, now, ttl) == Some(v),
{
}

/// Variant isolation: an insert under one variant fingerprint neither
/// satisfies nor disturbs lookups of the same document under another.
pub proof fn lemma_variant_isolation(
    m: Map<CacheKeyView, CacheValueView>,
    name: Seq<char>,
    inserted: u64,
    requested: u64,
    v: CacheValueView,
    mtime: u64,
    now: u128,
    ttl: Option<u64>,
)
    requires
        inserted != requested,
    ensures
        spec_hit(m.insert((name, inserted), v), (name, requested), mtime, now, ttl) == spec_hit(
            m,
            (name, requested),
            mtime,
            now,
            ttl,
        ),
{
}

/// TTL expiry: once more than the TTL has passed since insertion, a lookup
/// misses even if the source is unchanged.
pub proof fn lemma_ttl_expiry(
    m: Map<CacheKeyView, CacheValueView>,
    key: CacheKeyView,
    v: CacheValueView,
    mtime: u64,
    now: u128,
    t: u64,
)
    requires
        now > v.cached_at + t,
    ensures
        spec_hit(m.insert(key, v), key, mtime, now, Some(t)) is None,
{
}

proof fn lemma_entries_map_len(s: Seq<(CacheKey, CacheValue)>)
    requires
        unique_keys(s),
    ensures
        entries_map(s).dom().finite(),
        entries_map(s).dom().len() == s.len(),
    decreases s.len(),
{
    if s.len() > 0 {
        assert forall|a: int, b: int| 0 <= a < b < s.drop_last().len() implies (#[trigger] s
            .drop_last()[a]).0@ != (#[trigger] s.drop_last()[b]).0@ by {
            assert(s.drop_last()[a] == s[a]);
            assert(s.drop_last()[b] == s[b]);
        }
        lemma_entries_map_len(s.drop_last());
        assert forall|j: int| 0 <= j < s.drop_last().len() implies (#[trigger] s.drop_last()[j]).0@
            != s.last().0@ by {
            assert(s.drop_last()[j] == s[j]);
            assert(s.last() == s[s.len() - 1]);
        }
        lemma_entries_map_absent(s.drop_last(), s.last().0@);
    }
}

} // verus!
