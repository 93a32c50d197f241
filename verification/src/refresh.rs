//! The refresh orchestrator: at most one fetch in flight per cache key.
//!
//! A key is either idle or fetching. A request for an idle key starts a
//! fetch and marks the key; a request for a fetching key observes the
//! in-flight fetch and starts nothing. When a fetch completes, its result
//! is applied in one deterministic step: a success is written through the
//! cache, a failure leaves the cache exactly as it was.

use vstd::prelude::*;

use crate::cache::CacheError;
use crate::codec::{str_eq, Record};
use crate::envelope::spec_enc_envelope;
use crate::store::{CacheDb, Partition};
use crate::types::ImageState;

verus! {

/// The set of keys with a fetch in flight. Absent means idle.
pub struct RefreshTable {
    fetching: Vec<String>,
}

impl RefreshTable {
    /// No key is tracked twice.
    pub closed spec fn wf(&self) -> bool {
        forall|i: int, j: int|
            0 <= i < j < self.fetching.deep_view().len() ==> self.fetching.deep_view()[i]
                != self.fetching.deep_view()[j]
    }

    /// The keys whose fetch is in flight.
    pub closed spec fn in_flight(&self) -> Set<Seq<char>> {
        Set::new(|k: Seq<char>| self.fetching.deep_view().contains(k))
    }

    pub fn new() -> (r: RefreshTable)
        ensures
            r.wf(),
            r.in_flight() == Set::<Seq<char>>::empty(),
    {
        let r = RefreshTable { fetching: Vec::new() };
        proof {
            assert(r.in_flight() =~= Set::<Seq<char>>::empty());
        }
        r
    }

    /// The index of `key` in the table, if it is tracked.
    fn find(&self, key: &str) -> (r: Option<usize>)
        ensures
            match r {
                Some(i) => i < self.fetching@.len() && self.fetching.deep_view()[i as int]
                    == key@,
                None => !self.in_flight().contains(key@),
            },
    {
        let n = self.fetching.len();
        let mut i: usize = 0;
        while i < n
            invariant
                i <= n,
                n == self.fetching@.len(),
                forall|j: int| 0 <= j < i ==> self.fetching.deep_view()[j] != key@,
            decreases n - i,
        {
            if str_eq(self.fetching[i].as_str(), key) {
                return Some(i);
            }
            i = i + 1;
        }
        proof {
            assert(!self.fetching.deep_view().contains(key@));
        }
        None
    }

    /// Whether a fetch for `key` is in flight.
    pub fn is_fetching(&self, key: &str) -> (r: bool)
        ensures
            r == self.in_flight().contains(key@),
    {
        match self.find(key) {
            Some(i) => {
                proof {
                    assert(self.fetching.deep_view().contains(key@));
                }
                true
            },
            None => false,
        }
    }

    /// Ask to fetch `key`. Starts a fetch only when none is in flight:
    /// the result says whether this caller is the one that must fetch.
    pub fn begin_fetch(&mut self, key: &str) -> (started: bool)
        requires
            old(self).wf(),
        ensures
            final(self).wf(),
            started == !old(self).in_flight().contains(key@),
            final(self).in_flight() == old(self).in_flight().insert(key@),
    {
        match self.find(key) {
            Some(_) => {
                proof {
                    assert(self.fetching.deep_view().contains(key@));
                    assert(self.in_flight() =~= self.in_flight().insert(key@));
                }
                false
            },
            None => {
                let ghost s0 = self.fetching.deep_view();
                self.fetching.push(key.to_owned());
                proof {
                    let s1 = self.fetching.deep_view();
                    assert(s1 =~= s0.push(key@));
                    assert forall|k: Seq<char>| s1.contains(k) <==> (s0.contains(k) || k
                        == key@) by {
                        if s1.contains(k) {
                            let i = choose|i: int| 0 <= i < s1.len() && s1[i] == k;
                            if i < s0.len() {
                                assert(s0[i] == k);
                            }
                        }
                        if s0.contains(k) {
                            let i = choose|i: int| 0 <= i < s0.len() && s0[i] == k;
                            assert(s1[i] == k);
                        }
                        if k == key@ {
                            assert(s1[s1.len() - 1] == k);
                        }
                    }
                    assert(self.in_flight() =~= old(self).in_flight().insert(key@));
                }
                true
            },
        }
    }

    /// Record that the fetch for `key` has completed, successfully or not.
    pub fn finish_fetch(&mut self, key: &str)
        requires
            old(self).wf(),
        ensures
            final(self).wf(),
            final(self).in_flight() == old(self).in_flight().remove(key@),
    {
        match self.find(key) {
            Some(i) => {
                let ghost s0 = self.fetching.deep_view();
                self.fetching.remove(i);
                proof {
                    let s1 = self.fetching.deep_view();
                    assert(s1 =~= s0.remove(i as int));
                    assert forall|k: Seq<char>| s1.contains(k) <==> (s0.contains(k) && k
                        != key@) by {
                        if s1.contains(k) {
                            let j = choose|j: int| 0 <= j < s1.len() && s1[j] == k;
                            if j < i {
                                assert(s0[j] == k);
                                assert(s0[j] != s0[i as int]);
                            } else {
                                assert(s0[j + 1] == k);
                                assert(s0[j + 1] != s0[i as int]);
                            }
                        }
                        if s0.contains(k) && k != key@ {
                            let j = choose|j: int| 0 <= j < s0.len() && s0[j] == k;
                            if j < i {
                                assert(s1[j] == k);
                            } else if j > i {
                                assert(s1[j - 1] == k);
                            }
                        }
                    }
                    assert(self.in_flight() =~= old(self).in_flight().remove(key@));
                }
            },
            None => {
                proof {
                    assert(self.in_flight() =~= old(self).in_flight().remove(key@));
                }
            },
        }
    }
}

// ---------------------------------------------------------------------------
// Applying a finished fetch
// ---------------------------------------------------------------------------

/// Apply the outcome of a finished record fetch: mark the key idle, and on
/// success write the fetched record through the cache with creation time
/// `now`. A failed fetch leaves the cache exactly as it was: failure is
/// never destructive.
pub fn apply_record_fetch<T: Record>(
    db: &mut CacheDb,
    table: &mut RefreshTable,
    partition: Partition,
    key: &str,
    outcome: Option<&T>,
    now: u64,
) -> (r: Result<(), CacheError>)
    requires
        old(table).wf(),
    ensures
        final(table).wf(),
        final(table).in_flight() == old(table).in_flight().remove(key@),
        outcome is None ==> final(db).contents() == old(db).contents() && r is Ok,
        outcome matches Some(v) ==> (r is Ok ==> final(db).contents() == old(
            db,
        ).contents().insert(
            (partition.name_spec(), key@),
            spec_enc_envelope::<T>(now, v.deep_view()),
        )),
        r is Err ==> (outcome matches Some(v) && (final(db).contents() == old(db).contents()
            || final(db).contents() == old(db).contents().insert(
            (partition.name_spec(), key@),
            spec_enc_envelope::<T>(now, v.deep_view()),
        ))),
        r matches Err(e) ==> e == CacheError::Store,
{
    table.finish_fetch(key);
    match outcome {
        None => Ok(()),
        Some(v) => db.write_cache_at(partition, key, v, now),
    }
}

/// Apply the outcome of a finished image fetch: mark the URL idle, and on
/// success store the fetched bytes under the URL. A failed fetch leaves
/// the cache exactly as it was.
pub fn apply_image_fetch(
    db: &mut CacheDb,
    table: &mut RefreshTable,
    url: &str,
    outcome: Option<&[u8]>,
) -> (r: Result<(), CacheError>)
    requires
        old(table).wf(),
    ensures
        final(table).wf(),
        final(table).in_flight() == old(table).in_flight().remove(url@),
        outcome is None ==> final(db).contents() == old(db).contents() && r is Ok,
        outcome matches Some(bytes) ==> (r is Ok ==> final(db).contents() == old(
            db,
        ).contents().insert((Partition::Images.name_spec(), url@), bytes@)),
        r is Err ==> (outcome matches Some(bytes) && (final(db).contents() == old(db).contents()
            || final(db).contents() == old(db).contents().insert(
            (Partition::Images.name_spec(), url@),
            bytes@,
        ))),
        r matches Err(e) ==> e == CacheError::Store,
{
    table.finish_fetch(url);
    match outcome {
        None => Ok(()),
        Some(bytes) => db.save_image(url, bytes),
    }
}

/// The mirror state of an image after its fetch completed: loaded only if
/// the fetch succeeded and the bytes decoded to an image, failed otherwise.
pub fn image_state_after(fetch_ok: bool, decode_ok: bool) -> (r: ImageState)
    ensures
        r == (if fetch_ok && decode_ok {
            ImageState::Loaded
        } else {
            ImageState::Failed
        }),
{
    if fetch_ok && decode_ok {
        ImageState::Loaded
    } else {
        ImageState::Failed
    }
}

// ---------------------------------------------------------------------------
// Deciding how to show an image
// ---------------------------------------------------------------------------

/// What the caller should do for an image URL it wants shown.
#[derive(Debug, Clone, PartialEq, Eq)]
pub enum ImagePlan {
    /// The mirror already tracks this URL, or its fetch is in flight:
    /// nothing to do.
    AlreadyTracked,
    /// The bytes are in the blob cache: decode and show them, no fetch.
    UseCached(Vec<u8>),
    /// Nothing cached and no fetch in flight: this caller starts the one
    /// fetch, and the key is now marked fetching.
    StartFetch,
}

pub enum ImagePlanView {
    AlreadyTracked,
    UseCached(Seq<u8>),
    StartFetch,
}

impl DeepView for ImagePlan {
    type V = ImagePlanView;

    open spec fn deep_view(&self) -> ImagePlanView {
        match self {
            ImagePlan::AlreadyTracked => ImagePlanView::AlreadyTracked,
            ImagePlan::UseCached(v) => ImagePlanView::UseCached(v@),
            ImagePlan::StartFetch => ImagePlanView::StartFetch,
        }
    }
}

/// What the image flow does with what it knows: a mirrored or in-flight
/// URL is left alone; otherwise the cached bytes are used if the lookup
/// found any, and a fetch starts only if it found none.
pub open spec fn spec_image_plan(
    in_mirror: bool,
    fetching: bool,
    cached: Option<Seq<u8>>,
) -> ImagePlanView {
    if in_mirror || fetching {
        ImagePlanView::AlreadyTracked
    } else {
        match cached {
            Some(v) => ImagePlanView::UseCached(v),
            None => ImagePlanView::StartFetch,
        }
    }
}

/// The image decision on its own, over values already read: exactly
/// `spec_image_plan`. Cache-first is fixed here: for an untracked URL the
/// cached bytes are used if and only if the lookup found some, and a fetch
/// starts if and only if it found none.
pub fn decide_image_plan(in_mirror: bool, fetching: bool, cached: Option<Vec<u8>>) -> (r:
    ImagePlan)
    ensures
        r.deep_view() == spec_image_plan(in_mirror, fetching, cached.deep_view()),
{
    if in_mirror || fetching {
        ImagePlan::AlreadyTracked
    } else {
        match cached {
            Some(v) => {
                proof {
                    assert(v.deep_view() =~= v@);
                }
                ImagePlan::UseCached(v)
            },
            None => ImagePlan::StartFetch,
        }
    }
}

/// Decide how to obtain an image: the store is consulted for any URL that
/// is neither mirrored nor in flight, and the result is exactly
/// `spec_image_plan` over the mirror flag, the in-flight state and what
/// that lookup returned, where a lookup hit always carries bytes the store
/// holds. Only a fetch-starting plan marks the URL in flight, so two
/// callers asking for the same URL can never both be told to fetch.
pub fn plan_image_load(db: &CacheDb, table: &mut RefreshTable, url: &str, in_mirror: bool) -> (r:
    ImagePlan)
    requires
        old(table).wf(),
    ensures
        final(table).wf(),
        exists|cached: Option<Seq<u8>>|
            r.deep_view() == spec_image_plan(
                in_mirror,
                old(table).in_flight().contains(url@),
                cached,
            ) && (cached matches Some(v) ==> db.contents().contains_pair(
                (Partition::Images.name_spec(), url@),
                v,
            )),
        r matches ImagePlan::UseCached(v) ==> db.contents().contains_pair(
            (Partition::Images.name_spec(), url@),
            v@,
        ),
        r == ImagePlan::StartFetch ==> !old(table).in_flight().contains(url@)
            && final(table).in_flight() == old(table).in_flight().insert(url@),
        r != ImagePlan::StartFetch ==> final(table).in_flight() == old(table).in_flight(),
{
    let ghost fetching0 = old(table).in_flight().contains(url@);
    if in_mirror {
        let r = decide_image_plan(true, false, None);
        proof {
            assert(r.deep_view() == spec_image_plan(in_mirror, fetching0, None::<Seq<u8>>));
            assert(exists|cached: Option<Seq<u8>>|
                r.deep_view() == spec_image_plan(in_mirror, fetching0, cached) && (
                cached matches Some(v) ==> db.contents().contains_pair(
                    (Partition::Images.name_spec(), url@),
                    v,
                ))) by {
                assert(r.deep_view() == spec_image_plan(in_mirror, fetching0, None::<Seq<u8>>));
            }
        }
        return r;
    }
    let fetching = table.is_fetching(url);
    let mut cached: Option<Vec<u8>> = None;
    if !fetching {
        match db.try_get_bytes(Partition::Images, url) {
            Ok(Some(v)) => {
                proof {
                    assert(v.deep_view() =~= v@);
                }
                cached = Some(v);
            },
            _ => {},
        }
    }
    let ghost cached_m = cached.deep_view();
    let r = decide_image_plan(false, fetching, cached);
    match &r {
        ImagePlan::StartFetch => {
            table.begin_fetch(url);
        },
        _ => {},
    }
    proof {
        assert(r.deep_view() == spec_image_plan(in_mirror, fetching0, cached_m));
        assert(exists|cached2: Option<Seq<u8>>|
            r.deep_view() == spec_image_plan(in_mirror, fetching0, cached2) && (
            cached2 matches Some(v) ==> db.contents().contains_pair(
                (Partition::Images.name_spec(), url@),
                v,
            ))) by {
            assert(cached_m matches Some(v) ==> db.contents().contains_pair(
                (Partition::Images.name_spec(), url@),
                v,
            ));
        }
    }
    r
}

} // verus!
