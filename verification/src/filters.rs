//! Tag statistics over a listing: every tag that occurs, with its number of
//! occurrences, ordered most frequent first.

use crate::post::PostMetadata;
use crate::strutil::str_eq;
use vstd::prelude::*;
use vstd::multiset::Multiset;

verus! {

broadcast use vstd::seq_lib::group_to_multiset_ensures, vstd::multiset::group_multiset_axioms;

/// Every tag occurrence across a listing, post by post.
pub open spec fn spec_all_tags(posts: Seq<PostMetadata>) -> Seq<Seq<char>>
    decreases posts.len(),
{
    if posts.len() == 0 {
        Seq::empty()
    } else {
        spec_all_tags(posts.drop_last()) + posts.last()@.tags
    }
}

/// How often a tag occurs across a listing.
pub open spec fn spec_tag_count(posts: Seq<PostMetadata>, tag: Seq<char>) -> nat {
    spec_all_tags(posts).to_multiset().count(tag)
}

/// A count clamped to what a 64-bit counter can hold.
pub open spec fn sat64(n: nat) -> u64 {
    if n >= u64::MAX {
        u64::MAX
    } else {
        n as u64
    }
}

fn sat64_inc(c: u64, n: Ghost<nat>) -> (r: u64)
    requires
        c == sat64(n@),
    ensures
        r == sat64(n@ + 1),
{
    if c == u64::MAX {
        u64::MAX
    } else {
        c + 1
    }
}

fn find_tag(acc: &Vec<(String, u64)>, tag: &str) -> (r: Option<usize>)
    ensures
        match r {
            Some(a) => a < acc@.len() && (acc@[a as int]).0@ == tag@,
            None => forall|a: int| 0 <= a < acc@.len() ==> (#[trigger] acc@[a]).0@ != tag@,
        },
{
    let mut a: usize = 0;
    while a < acc.len()
        invariant
            a <= acc@.len(),
            forall|k: int| 0 <= k < a ==> (#[trigger] acc@[k]).0@ != tag@,
        decreases acc@.len() - a,
    {
        if str_eq(acc[a].0.as_str(), tag) {
            return Some(a);
        }
        a = a + 1;
    }
    None
}

/// The properties a tally holds of the tag occurrences seen so far.
spec fn tally_ok(acc: Seq<(String, u64)>, seen: Seq<Seq<char>>) -> bool {
    &&& forall|a: int, b: int|
        0 <= a < b < acc.len() ==> (#[trigger] acc[a]).0@ != (#[trigger] acc[b]).0@
    &&& forall|a: int|
        0 <= a < acc.len() ==> (#[trigger] acc[a]).1 == sat64(seen.to_multiset().count(acc[a].0@))
            && seen.to_multiset().count(acc[a].0@) > 0
    &&& forall|t: Seq<char>|
        seen.to_multiset().count(t) > 0 ==> exists|a: int|
            0 <= a < acc.len() && (#[trigger] acc[a]).0@ == t
}

fn tally_one(acc: &mut Vec<(String, u64)>, tag: &String, seen: Ghost<Seq<Seq<char>>>)
    requires
        tally_ok(old(acc)@, seen@),
    ensures
        tally_ok(final(acc)@, seen@.push(tag@)),
{
    let ghost seen2 = seen@.push(tag@);
    proof {
        assert(seen2.to_multiset() =~= seen@.to_multiset().insert(tag@));
        assert(seen2.to_multiset().count(tag@) == seen@.to_multiset().count(tag@) + 1);
        assert(forall|t: Seq<char>|
            t != tag@ ==> seen2.to_multiset().count(t) == seen@.to_multiset().count(t));
    }
    match find_tag(acc, tag.as_str()) {
        Some(a) => {
            let ghost acc0 = acc@;
            let (key, count) = acc.remove(a);
            let inc = sat64_inc(count, Ghost(seen@.to_multiset().count(acc0[a as int].0@)));
            proof {
                assert(key@ == tag@);
                assert(forall|j: int|
                    0 <= j < acc@.len() ==> acc@[j] == (if j < a {
                        acc0[j]
                    } else {
                        acc0[j + 1]
                    }));
            }
            acc.push((key, inc));
            proof {
                let accn = acc@;
                let last = accn.len() - 1;
                assert(forall|j: int|
                    0 <= j < last ==> accn[j] == (if j < a {
                        acc0[j]
                    } else {
                        acc0[j + 1]
                    }));
                assert(accn[last].0@ == tag@ && accn[last].1 == inc);
                assert forall|x: int, y: int| 0 <= x < y < accn.len() implies (#[trigger] accn[x]).0@
                    != (#[trigger] accn[y]).0@ by {
                    if y == last {
                        let jx: int = if x < a {
                            x
                        } else {
                            x + 1
                        };
                        assert(accn[x] == acc0[jx] && jx != a);
                        assert(acc0[jx].0@ != acc0[a as int].0@);
                    }
                }
                assert forall|x: int| 0 <= x < accn.len() implies (#[trigger] accn[x]).1 == sat64(
                    seen2.to_multiset().count(accn[x].0@),
                ) && seen2.to_multiset().count(accn[x].0@) > 0 by {
                    if x < last {
                        let jx: int = if x < a {
                            x
                        } else {
                            x + 1
                        };
                        assert(accn[x] == acc0[jx] && jx != a);
                        assert(acc0[jx].0@ != tag@);
                    }
                }
                assert forall|t: Seq<char>| seen2.to_multiset().count(t) > 0 implies exists|x: int|
                    0 <= x < accn.len() && (#[trigger] accn[x]).0@ == t by {
                    if t == tag@ {
                        assert(accn[last].0@ == t);
                    } else {
                        let j = choose|j: int|
                            0 <= j < acc0.len() && (#[trigger] acc0[j]).0@ == t;
                        assert(j != a);
                        let x: int = if j < a {
                            j
                        } else {
                            j - 1
                        };
                        assert(accn[x].0@ == t);
                    }
                }
            }
        },
        None => {
            proof {
                if seen@.to_multiset().count(tag@) > 0 {
                    let a = choose|a: int| 0 <= a < acc@.len() && (#[trigger] acc@[a]).0@ == tag@;
                }
                assert(seen@.to_multiset().count(tag@) == 0);
            }
            let ghost acc0 = acc@;
            acc.push((tag.clone(), 1));
            proof {
                let accn = acc@;
                let last = accn.len() - 1;
                assert(accn[last].0@ == tag@ && accn[last].1 == 1);
                assert(sat64(seen2.to_multiset().count(tag@)) == 1);
                assert forall|t: Seq<char>| seen2.to_multiset().count(t) > 0 implies exists|x: int|
                    0 <= x < accn.len() && (#[trigger] accn[x]).0@ == t by {
                    if t == tag@ {
                        assert(accn[last].0@ == t);
                    } else {
                        let j = choose|j: int|
                            0 <= j < acc0.len() && (#[trigger] acc0[j]).0@ == t;
                        assert(accn[j].0@ == t);
                    }
                }
            }
        },
    }
}

fn pair_count_ge(a: &(String, u64), b: &(String, u64)) -> (r: bool)
    ensures
        r ==> a.1 >= b.1,
        !r ==> b.1 >= a.1,
{
    if a.1 != b.1 {
        return a.1 > b.1;
    }
    // equal counts: order alphabetically so the listing is stable
    !crate::strutil::lex_lt(b.0.as_str(), a.0.as_str())
}

/// Collects every tag of a listing with its number of occurrences, most
/// frequent first; within equal counts the order is alphabetical. Each tag
/// appears once, with its exact occurrence count (clamped to 64 bits), and
/// no occurring tag is missing.
pub fn collect_tags(posts: &Vec<PostMetadata>) -> (r: Vec<(String, u64)>)
    ensures
        forall|a: int, b: int|
            0 <= a < b < r@.len() ==> (#[trigger] r@[a]).0@ != (#[trigger] r@[b]).0@,
        forall|a: int|
            0 <= a < r@.len() ==> (#[trigger] r@[a]).1 == sat64(spec_tag_count(posts@, r@[a].0@))
                && spec_tag_count(posts@, r@[a].0@) > 0,
        forall|t: Seq<char>|
            spec_tag_count(posts@, t) > 0 ==> exists|a: int|
                0 <= a < r@.len() && (#[trigger] r@[a]).0@ == t,
        forall|a: int, b: int| 0 <= a < b < r@.len() ==> (#[trigger] r@[a]).1 >= (#[trigger] r@[b]).1,
{
    let mut acc: Vec<(String, u64)> = Vec::new();
    let mut i: usize = 0;
    proof {
        assert(spec_all_tags(posts@.take(0)) =~= Seq::<Seq<char>>::empty());
        assert(Seq::<Seq<char>>::empty().to_multiset() =~= Multiset::empty());
    }
    while i < posts.len()
        invariant
            i <= posts@.len(),
            tally_ok(acc@, spec_all_tags(posts@.take(i as int))),
        decreases posts@.len() - i,
    {
        let ghost before = spec_all_tags(posts@.take(i as int));
        let tags = &posts[i].tags;
        let mut j: usize = 0;
        while j < tags.len()
            invariant
                i < posts@.len(),
                tags == &posts@[i as int].tags,
                j <= tags@.len(),
                before == spec_all_tags(posts@.take(i as int)),
                tally_ok(acc@, before + posts@[i as int]@.tags.take(j as int)),
            decreases tags@.len() - j,
        {
            proof {
                assert(posts@[i as int]@.tags.take(j + 1) =~= posts@[i as int]@.tags.take(
                    j as int,
                ).push(posts@[i as int]@.tags[j as int]));
                assert((before + posts@[i as int]@.tags.take(j as int)).push(
                    posts@[i as int]@.tags[j as int],
                ) =~= before + posts@[i as int]@.tags.take(j + 1));
                assert(tags@[j as int]@ == posts@[i as int]@.tags[j as int]);
            }
            tally_one(
                &mut acc,
                &tags[j],
                Ghost(before + posts@[i as int]@.tags.take(j as int)),
            );
            j = j + 1;
        }
        proof {
            assert(posts@.take(i + 1).drop_last() =~= posts@.take(i as int));
            assert(posts@.take(i + 1).last() == posts@[i as int]);
            assert(posts@[i as int]@.tags.take(posts@[i as int]@.tags.len() as int)
                =~= posts@[i as int]@.tags);
            assert(spec_all_tags(posts@.take(i + 1)) == before + posts@[i as int]@.tags);
        }
        i = i + 1;
    }
    proof {
        assert(posts@.take(posts@.len() as int) =~= posts@);
    }
    let ghost accv = acc@;
    let sorted = sort_tally(acc);
    proof {
        assert forall|a: int| 0 <= a < sorted@.len() implies (#[trigger] sorted@[a]).1 == sat64(
            spec_tag_count(posts@, sorted@[a].0@),
        ) && spec_tag_count(posts@, sorted@[a].0@) > 0 by {
            assert(sorted@.contains(sorted@[a]));
            assert(accv.to_multiset().count(sorted@[a]) > 0);
            assert(accv.contains(sorted@[a]));
            let j = choose|j: int| 0 <= j < accv.len() && accv[j] == sorted@[a];
            assert(accv[j].1 == sat64(spec_all_tags(posts@).to_multiset().count(accv[j].0@)));
        }
        assert forall|t: Seq<char>| spec_tag_count(posts@, t) > 0 implies exists|a: int|
            0 <= a < sorted@.len() && (#[trigger] sorted@[a]).0@ == t by {
            let j = choose|j: int| 0 <= j < accv.len() && (#[trigger] accv[j]).0@ == t;
            assert(accv.contains(accv[j]));
            assert(sorted@.to_multiset().count(accv[j]) > 0);
            assert(sorted@.contains(accv[j]));
            let a = choose|a: int| 0 <= a < sorted@.len() && sorted@[a] == accv[j];
            assert(sorted@[a].0@ == t);
        }
    }
    sorted
}

fn sort_tally(acc: Vec<(String, u64)>) -> (r: Vec<(String, u64)>)
    requires
        forall|a: int, b: int|
            0 <= a < b < acc@.len() ==> (#[trigger] acc@[a]).0@ != (#[trigger] acc@[b]).0@,
    ensures
        r@.to_multiset() == acc@.to_multiset(),
        forall|a: int, b: int|
            0 <= a < b < r@.len() ==> (#[trigger] r@[a]).0@ != (#[trigger] r@[b]).0@,
        forall|a: int, b: int| 0 <= a < b < r@.len() ==> (#[trigger] r@[a]).1 >= (#[trigger] r@[b]).1,
{
    let ghost orig = acc@;
    let mut rest = acc;
    let mut out: Vec<(String, u64)> = Vec::new();
    while rest.len() > 0
        invariant
            out@.to_multiset().add(rest@.to_multiset()) =~= orig.to_multiset(),
            forall|a: int, b: int|
                0 <= a < b < out@.len() ==> (#[trigger] out@[a]).0@ != (#[trigger] out@[b]).0@,
            forall|a: int, b: int|
                0 <= a < b < rest@.len() ==> (#[trigger] rest@[a]).0@ != (#[trigger] rest@[b]).0@,
            forall|a: int, b: int|
                0 <= a < out@.len() && 0 <= b < rest@.len() ==> (#[trigger] out@[a]).0@ != (
                #[trigger] rest@[b]).0@,
            forall|a: int, b: int|
                0 <= a < b < out@.len() ==> (#[trigger] out@[a]).1 >= (#[trigger] out@[b]).1,
            forall|a: int, b: int|
                0 <= a < out@.len() && 0 <= b < rest@.len() ==> (#[trigger] out@[a]).1 >= (
                #[trigger] rest@[b]).1,
        decreases rest@.len(),
    {
        let mut best: usize = 0;
        let mut k: usize = 1;
        while k < rest.len()
            invariant
                rest@.len() > 0,
                best < k,
                k <= rest@.len(),
                forall|m: int| 0 <= m < k ==> (rest@[best as int]).1 >= (#[trigger] rest@[m]).1,
            decreases rest@.len() - k,
        {
            if pair_count_ge(&rest[k], &rest[best]) {
                best = k;
            }
            k = k + 1;
        }
        let ghost rest0 = rest@;
        let x = rest.remove(best);
        proof {
            assert(rest@ == rest0.remove(best as int));
            assert(rest0.remove(best as int).to_multiset() =~= rest0.to_multiset().remove(
                rest0[best as int],
            ));
            assert(out@.push(x).to_multiset() =~= out@.to_multiset().insert(x));
            assert(out@.to_multiset().insert(x).add(rest0.to_multiset().remove(x))
                =~= out@.to_multiset().add(rest0.to_multiset()));
            assert(forall|m: int|
                0 <= m < rest@.len() ==> rest@[m] == (if m < best {
                    rest0[m]
                } else {
                    rest0[m + 1]
                }));
        }
        out.push(x);
    }
    out
}

} // verus!
