//! Merging freshly fetched posts into the in-memory timeline: a post whose
//! id is already shown is dropped, the rest are appended, and the timeline
//! is then ordered newest first.

use vstd::prelude::*;
use vstd::multiset::Multiset;

use crate::codec::str_eq;
use crate::records::{TimelinePost, TimelinePostView};

verus! {

broadcast use vstd::seq_lib::group_to_multiset_ensures, vstd::multiset::group_multiset_axioms;

/// Whether some post of `s` already carries the id `id`.
pub open spec fn spec_has_id(s: Seq<TimelinePostView>, id: Seq<char>) -> bool {
    exists|i: int| 0 <= i < s.len() && s[i].id == id
}

/// The timeline after merging `news` into `cur`, front to back: a post
/// whose id is already present is dropped, every other post is appended.
pub open spec fn spec_merge(
    cur: Seq<TimelinePostView>,
    news: Seq<TimelinePostView>,
) -> Seq<TimelinePostView>
    decreases news.len(),
{
    if news.len() == 0 {
        cur
    } else {
        let cur2 = if spec_has_id(cur, news[0].id) {
            cur
        } else {
            cur.push(news[0])
        };
        spec_merge(cur2, news.drop_first())
    }
}

/// Newest first: created-at times never increase along the timeline.
pub open spec fn spec_sorted_by_recency(s: Seq<TimelinePostView>) -> bool {
    forall|i: int, j: int| 0 <= i < j < s.len() ==> s[i].created_at >= s[j].created_at
}

/// Whether some post of `posts` carries the id `id`.
pub fn contains_id(posts: &Vec<TimelinePost>, id: &str) -> (r: bool)
    ensures
        r == spec_has_id(posts.deep_view(), id@),
{
    let n = posts.len();
    let mut i: usize = 0;
    while i < n
        invariant
            i <= n,
            n == posts@.len(),
            forall|j: int| 0 <= j < i ==> posts.deep_view()[j].id != id@,
        decreases n - i,
    {
        if str_eq(posts[i].id.as_str(), id) {
            proof {
                assert(posts.deep_view()[i as int].id == id@);
            }
            return true;
        }
        i = i + 1;
    }
    false
}

/// Append every post of `new_posts` whose id the timeline does not hold
/// yet, keeping the existing posts and their order; returns how many posts
/// were added.
pub fn merge_new_posts(existing: &mut Vec<TimelinePost>, new_posts: Vec<TimelinePost>) -> (added:
    usize)
    ensures
        final(existing).deep_view() == spec_merge(
            old(existing).deep_view(),
            new_posts.deep_view(),
        ),
        final(existing)@.len() == old(existing)@.len() + added,
{
    let ghost e0 = old(existing).deep_view();
    let ghost n0 = new_posts.deep_view();
    let mut pending = new_posts;
    let total = pending.len();
    let mut added: usize = 0;
    while pending.len() > 0
        invariant
            spec_merge(e0, n0) == spec_merge(existing.deep_view(), pending.deep_view()),
            existing@.len() == e0.len() + added,
            added + pending@.len() <= total,
        decreases pending.len(),
    {
        let ghost cur = existing.deep_view();
        let ghost pend = pending.deep_view();
        let p = pending.remove(0);
        proof {
            assert(pending.deep_view() =~= pend.drop_first());
            assert(p.deep_view() == pend[0]);
        }
        let dup = contains_id(existing, p.id.as_str());
        if !dup {
            existing.push(p);
            proof {
                assert(existing.deep_view() =~= cur.push(pend[0]));
            }
            added = added + 1;
        }
    }
    proof {
        assert(pending.deep_view() =~= Seq::<TimelinePostView>::empty());
        assert(spec_merge(existing.deep_view(), pending.deep_view()) == existing.deep_view());
    }
    added
}

/// The index of a newest post: no post of `posts` is newer.
fn index_of_newest(posts: &Vec<TimelinePost>) -> (r: usize)
    requires
        posts@.len() > 0,
    ensures
        r < posts@.len(),
        forall|i: int|
            0 <= i < posts@.len() ==> posts.deep_view()[r as int].created_at >= posts.deep_view()[
                i
            ].created_at,
{
    let n = posts.len();
    let mut best: usize = 0;
    let mut i: usize = 1;
    while i < n
        invariant
            best < i <= n,
            n == posts@.len(),
            forall|j: int|
                0 <= j < i ==> posts.deep_view()[best as int].created_at >= posts.deep_view()[
                    j
                ].created_at,
        decreases n - i,
    {
        if posts[i].created_at > posts[best].created_at {
            best = i;
        }
        i = i + 1;
    }
    best
}

/// Order the timeline newest first. The posts themselves are kept: the
/// result holds exactly the posts that were there, rearranged.
pub fn sort_by_recency(posts: &mut Vec<TimelinePost>)
    ensures
        spec_sorted_by_recency(final(posts).deep_view()),
        final(posts).deep_view().to_multiset() == old(posts).deep_view().to_multiset(),
{
    let ghost orig = old(posts).deep_view();
    let mut input = posts.split_off(0);
    proof {
        assert(posts.deep_view() =~= Seq::<TimelinePostView>::empty());
        assert(input.deep_view() =~= orig);
        assert(posts.deep_view().to_multiset().add(input.deep_view().to_multiset())
            =~= orig.to_multiset());
    }
    while input.len() > 0
        invariant
            posts.deep_view().to_multiset().add(input.deep_view().to_multiset())
                == orig.to_multiset(),
            spec_sorted_by_recency(posts.deep_view()),
            forall|j: int, i: int|
                0 <= j < posts.deep_view().len() && 0 <= i < input.deep_view().len()
                    ==> posts.deep_view()[j].created_at >= input.deep_view()[i].created_at,
        decreases input.len(),
    {
        let ghost done = posts.deep_view();
        let ghost rest = input.deep_view();
        let idx = index_of_newest(&input);
        let v = input.remove(idx);
        proof {
            assert(v.deep_view() == rest[idx as int]);
            assert(input.deep_view() =~= rest.remove(idx as int));
            assert(input.deep_view().to_multiset() =~= rest.to_multiset().remove(v.deep_view()));
        }
        posts.push(v);
        proof {
            assert(posts.deep_view() =~= done.push(v.deep_view()));
            assert(posts.deep_view().to_multiset() =~= done.to_multiset().insert(v.deep_view()));
            assert(rest.to_multiset().count(v.deep_view()) >= 1) by {
                assert(rest.contains(v.deep_view()));
            }
            assert(posts.deep_view().to_multiset().add(input.deep_view().to_multiset())
                =~= orig.to_multiset());
        }
    }
    proof {
        assert(input.deep_view() =~= Seq::<TimelinePostView>::empty());
        assert(input.deep_view().to_multiset() =~= Multiset::<TimelinePostView>::empty());
        assert(posts.deep_view().to_multiset() =~= orig.to_multiset());
    }
}

} // verus!
