//! The record cache and the blob cache over the store adapter.
//!
//! Structured records go in wrapped in a freshness envelope and come out
//! fresh, stale or as a miss, depending on their age and the caller's
//! policy. Images go in and out as raw bytes, with no envelope and no
//! expiry. The laws at the end state the cache's core guarantees: a write
//! read back within the expiry window returns the value written, writes to
//! distinct keys never disturb one another, and re-saving an image changes
//! nothing.

use vstd::prelude::*;

use crate::codec::Record;
use crate::envelope::{now_seconds, spec_dec_envelope, spec_enc_envelope, spec_is_expired,
    decode_envelope, lemma_envelope_round_trip, EXPIRY_SECONDS};
use crate::store::{lemma_partition_names_injective, CacheDb, Partition, StoreWriteError};

verus! {

/// Why a cache operation failed. A missing key is not an error, and
/// encoding cannot fail, so the two cases left are a corrupted entry and a
/// failing store.
#[derive(Debug, Clone, Copy, PartialEq, Eq, Structural)]
pub enum CacheError {
    /// The raw bytes behind the key do not decode to the requested record
    /// type: the entry is treated as corrupted, never served.
    Deserialize,
    /// The underlying store failed the transaction.
    Store,
}

/// How a read treats an expired entry: as a plain miss, or served anyway
/// and flagged stale so the caller can refresh in the background.
#[derive(Debug, Clone, Copy, PartialEq, Eq, Structural)]
pub enum ReadPolicy {
    HardMiss,
    StaleWhileRevalidate,
}

/// The outcome of a structured-record read.
#[derive(Debug, Clone, PartialEq, Eq)]
pub enum CacheRead<T> {
    /// The entry exists and is within the expiry window.
    Fresh(T),
    /// The entry exists but is expired; returned only under
    /// `StaleWhileRevalidate`.
    Stale(T),
    /// No entry, or an expired entry under `HardMiss`.
    Miss,
}

pub enum CacheReadView<M> {
    Fresh(M),
    Stale(M),
    Miss,
}

impl<T: DeepView> DeepView for CacheRead<T> {
    type V = CacheReadView<T::V>;

    open spec fn deep_view(&self) -> CacheReadView<T::V> {
        match self {
            CacheRead::Fresh(v) => CacheReadView::Fresh(v.deep_view()),
            CacheRead::Stale(v) => CacheReadView::Stale(v.deep_view()),
            CacheRead::Miss => CacheReadView::Miss,
        }
    }
}

/// The entry stored under `key` in `partition`, if any.
pub open spec fn spec_lookup(
    c: Map<(Seq<char>, Seq<char>), Seq<u8>>,
    p: Partition,
    key: Seq<char>,
) -> Option<Seq<u8>> {
    if c.dom().contains((p.name_spec(), key)) {
        Some(c[(p.name_spec(), key)])
    } else {
        None
    }
}

/// What a structured-record read returns, as a function of the raw entry,
/// the current time and the read policy. `None` means the entry is
/// corrupted.
pub open spec fn spec_read_cache<T: Record>(
    entry: Option<Seq<u8>>,
    now: u64,
    policy: ReadPolicy,
) -> Option<CacheReadView<T::V>> {
    match entry {
        None => Some(CacheReadView::Miss),
        Some(b) => match spec_dec_envelope::<T>(b) {
            None => None,
            Some((t, m)) => if spec_is_expired(t, now) {
                match policy {
                    ReadPolicy::HardMiss => Some(CacheReadView::Miss),
                    ReadPolicy::StaleWhileRevalidate => Some(CacheReadView::Stale(m)),
                }
            } else {
                Some(CacheReadView::Fresh(m))
            },
        },
    }
}

impl CacheDb {
    /// Wrap `value` in an envelope created at `now`, encode it, and store
    /// it under `key` in `partition`, replacing any previous entry.
    pub fn write_cache_at<T: Record>(
        &mut self,
        partition: Partition,
        key: &str,
        value: &T,
        now: u64,
    ) -> (r: Result<(), CacheError>)
        ensures
            r is Ok ==> final(self).contents() == old(self).contents().insert(
                (partition.name_spec(), key@),
                spec_enc_envelope::<T>(now, value.deep_view()),
            ) && T::wf_m(value.deep_view()),
            r matches Err(e) ==> e == CacheError::Store && (final(self).contents() == old(
                self,
            ).contents() || final(self).contents() == old(self).contents().insert(
                (partition.name_spec(), key@),
                spec_enc_envelope::<T>(now, value.deep_view()),
            )),
    {
        let mut out: Vec<u8> = Vec::new();
        crate::codec::write_u64(&mut out, now);
        value.write(&mut out);
        proof {
            assert(out@ =~= spec_enc_envelope::<T>(now, value.deep_view()));
        }
        match self.put_bytes(partition, key, out.as_slice()) {
            Ok(()) => Ok(()),
            Err(StoreWriteError) => Err(CacheError::Store),
        }
    }

    /// Like `write_cache_at`, with the envelope created at the current
    /// wall-clock time.
    pub fn write_cache<T: Record>(&mut self, partition: Partition, key: &str, value: &T) -> (r:
        Result<(), CacheError>)
        ensures
            r is Ok ==> exists|t: u64|
                final(self).contents() == old(self).contents().insert(
                    (partition.name_spec(), key@),
                    spec_enc_envelope::<T>(t, value.deep_view()),
                ),
            r matches Err(e) ==> e == CacheError::Store && (final(self).contents() == old(
                self,
            ).contents() || exists|t: u64|
                final(self).contents() == old(self).contents().insert(
                    (partition.name_spec(), key@),
                    spec_enc_envelope::<T>(t, value.deep_view()),
                )),
    {
        let now = now_seconds();
        self.write_cache_at(partition, key, value, now)
    }

    /// Read the record under `key` in `partition` as it stands at `now`:
    /// fresh within the expiry window, a miss or a flagged stale value
    /// beyond it, an error for a corrupted entry or a failing store.
    pub fn read_cache_at<T: Record>(
        &self,
        partition: Partition,
        key: &str,
        now: u64,
        policy: ReadPolicy,
    ) -> (r: Result<CacheRead<T>, CacheError>)
        ensures
            ({
                let entry = spec_lookup(self.contents(), partition, key@);
                match r {
                    Ok(cr) => spec_read_cache::<T>(entry, now, policy) == Some(cr.deep_view()),
                    Err(e) => match e {
                        CacheError::Deserialize => spec_read_cache::<T>(entry, now, policy)
                            is None,
                        CacheError::Store => true,
                    },
                }
            }),
    {
        match self.try_get_bytes(partition, key) {
            Err(_) => Err(CacheError::Store),
            Ok(None) => Ok(CacheRead::Miss),
            Ok(Some(raw)) => {
                match decode_envelope::<T>(raw.as_slice()) {
                    None => Err(CacheError::Deserialize),
                    Some(env) => {
                        if env.is_expired_at(now) {
                            match policy {
                                ReadPolicy::HardMiss => Ok(CacheRead::Miss),
                                ReadPolicy::StaleWhileRevalidate => Ok(CacheRead::Stale(env.data)),
                            }
                        } else {
                            Ok(CacheRead::Fresh(env.data))
                        }
                    },
                }
            },
        }
    }

    /// Like `read_cache_at`, at the current wall-clock time.
    pub fn read_cache<T: Record>(&self, partition: Partition, key: &str, policy: ReadPolicy) -> (r:
        Result<CacheRead<T>, CacheError>)
        ensures
            ({
                let entry = spec_lookup(self.contents(), partition, key@);
                match r {
                    Ok(cr) => exists|now: u64|
                        spec_read_cache::<T>(entry, now, policy) == Some(cr.deep_view()),
                    Err(e) => match e {
                        CacheError::Deserialize => forall|t: u64|
                            spec_read_cache::<T>(entry, t, policy) is None,
                        CacheError::Store => true,
                    },
                }
            }),
    {
        let now = now_seconds();
        self.read_cache_at(partition, key, now, policy)
    }

    /// Store the raw bytes of a fetched image under its source URL,
    /// replacing any previous bytes unconditionally.
    pub fn save_image(&mut self, url: &str, bytes: &[u8]) -> (r: Result<(), CacheError>)
        ensures
            r is Ok ==> final(self).contents() == old(self).contents().insert(
                (Partition::Images.name_spec(), url@),
                bytes@,
            ),
            r matches Err(e) ==> e == CacheError::Store && (final(self).contents() == old(
                self,
            ).contents() || final(self).contents() == old(self).contents().insert(
                (Partition::Images.name_spec(), url@),
                bytes@,
            )),
    {
        match self.put_bytes(Partition::Images, url, bytes) {
            Ok(()) => Ok(()),
            Err(StoreWriteError) => Err(CacheError::Store),
        }
    }

    /// The raw bytes cached for `url`, if any. No expiry check: an image
    /// once fetched is treated as immutable content.
    pub fn load_image(&self, url: &str) -> (r: Option<Vec<u8>>)
        ensures
            r matches Some(v) ==> self.contents().contains_pair(
                (Partition::Images.name_spec(), url@),
                v@,
            ),
            !self.contents().dom().contains((Partition::Images.name_spec(), url@)) ==> r is None,
    {
        self.get_bytes(Partition::Images, url)
    }
}

// ---------------------------------------------------------------------------
// Laws
// ---------------------------------------------------------------------------

/// Law: a record written at time `t` reads back fresh and equal to what was
/// written, at any time within the expiry window and under either policy.
pub proof fn lemma_write_read_round_trip<T: Record>(
    c0: Map<(Seq<char>, Seq<char>), Seq<u8>>,
    p: Partition,
    key: Seq<char>,
    m: T::V,
    t: u64,
    now: u64,
    policy: ReadPolicy,
)
    requires
        T::wf_m(m),
        now - t <= EXPIRY_SECONDS,
    ensures
        spec_read_cache::<T>(
            spec_lookup(c0.insert((p.name_spec(), key), spec_enc_envelope::<T>(t, m)), p, key),
            now,
            policy,
        ) == Some(CacheReadView::<T::V>::Fresh(m)),
{
    lemma_envelope_round_trip::<T>(t, m);
}


/// Law: a corrupted entry is never served. Whatever bytes stand behind a
/// key, if they do not decode to an enveloped record then no read outcome
/// carries a value, at any time and under either policy: the read reports
/// the corruption instead, and, being verified, cannot panic.
pub proof fn lemma_corrupt_entry_never_served<T: Record>(b: Seq<u8>, now: u64, policy: ReadPolicy)
    requires
        spec_dec_envelope::<T>(b) is None,
    ensures
        spec_read_cache::<T>(Some(b), now, policy) is None,
{
}

/// Law: an expired entry is never served as fresh. Under a hard-miss read
/// it counts as a miss; under stale-while-revalidate the value is returned,
/// but flagged stale.
pub proof fn lemma_expired_read<T: Record>(m: T::V, t: u64, now: u64)
    requires
        T::wf_m(m),
        spec_is_expired(t, now),
    ensures
        spec_read_cache::<T>(Some(spec_enc_envelope::<T>(t, m)), now, ReadPolicy::HardMiss)
            == Some(CacheReadView::<T::V>::Miss),
        spec_read_cache::<T>(
            Some(spec_enc_envelope::<T>(t, m)),
            now,
            ReadPolicy::StaleWhileRevalidate,
        ) == Some(CacheReadView::<T::V>::Stale(m)),
{
    lemma_envelope_round_trip::<T>(t, m);
}

/// Law: a write to one key leaves every other entry unchanged, whether the
/// other entry differs in key or in partition.
pub proof fn lemma_other_entry_unchanged(
    c0: Map<(Seq<char>, Seq<char>), Seq<u8>>,
    p1: Partition,
    key1: Seq<char>,
    v: Seq<u8>,
    p2: Partition,
    key2: Seq<char>,
)
    requires
        p1 != p2 || key1 != key2,
    ensures
        spec_lookup(c0.insert((p1.name_spec(), key1), v), p2, key2) == spec_lookup(c0, p2, key2),
{
    lemma_partition_names_injective(p1, p2);
}

/// Law: re-saving the same bytes under the same key changes nothing: the
/// store after the second save is the store after the first.
pub proof fn lemma_save_idempotent(
    c0: Map<(Seq<char>, Seq<char>), Seq<u8>>,
    p: Partition,
    key: Seq<char>,
    v: Seq<u8>,
)
    ensures
        c0.insert((p.name_spec(), key), v).insert((p.name_spec(), key), v) == c0.insert(
            (p.name_spec(), key),
            v,
        ),
        spec_lookup(c0.insert((p.name_spec(), key), v), p, key) == Some(v),
{
    assert(c0.insert((p.name_spec(), key), v).insert((p.name_spec(), key), v) =~= c0.insert(
        (p.name_spec(), key),
        v,
    ));
}

/// The store after a batch of writes to one partition, applied in order.
pub open spec fn spec_apply_writes(
    c: Map<(Seq<char>, Seq<char>), Seq<u8>>,
    p: Partition,
    writes: Seq<(Seq<char>, Seq<u8>)>,
) -> Map<(Seq<char>, Seq<char>), Seq<u8>>
    decreases writes.len(),
{
    if writes.len() == 0 {
        c
    } else {
        spec_apply_writes(c.insert((p.name_spec(), writes[0].0), writes[0].1), p,
            writes.drop_first())
    }
}

/// A batch of writes leaves a key untouched that none of them writes.
proof fn lemma_apply_writes_frame(
    c: Map<(Seq<char>, Seq<char>), Seq<u8>>,
    p: Partition,
    writes: Seq<(Seq<char>, Seq<u8>)>,
    key: Seq<char>,
)
    requires
        forall|i: int| 0 <= i < writes.len() ==> (#[trigger] writes[i]).0 != key,
    ensures
        spec_lookup(spec_apply_writes(c, p, writes), p, key) == spec_lookup(c, p, key),
    decreases writes.len(),
{
    if writes.len() > 0 {
        let c1 = c.insert((p.name_spec(), writes[0].0), writes[0].1);
        lemma_apply_writes_frame(c1, p, writes.drop_first(), key);
        assert(spec_lookup(c1, p, key) == spec_lookup(c, p, key));
    }
}

/// Law: writers to pairwise distinct keys of one partition never lose one
/// another's updates; after all of them have committed, in any order the
/// store serialized them, every written value is readable under its key.
pub proof fn lemma_distinct_writers_all_readable(
    c: Map<(Seq<char>, Seq<char>), Seq<u8>>,
    p: Partition,
    writes: Seq<(Seq<char>, Seq<u8>)>,
)
    requires
        forall|i: int, j: int|
            0 <= i < j < writes.len() ==> (#[trigger] writes[i]).0 != (#[trigger] writes[j]).0,
    ensures
        forall|i: int|
            0 <= i < writes.len() ==> spec_lookup(spec_apply_writes(c, p, writes), p, (
            #[trigger] writes[i]).0) == Some(writes[i].1),
    decreases writes.len(),
{
    if writes.len() > 0 {
        let c1 = c.insert((p.name_spec(), writes[0].0), writes[0].1);
        let rest = writes.drop_first();
        lemma_distinct_writers_all_readable(c1, p, rest);
        assert(forall|i: int| 0 <= i < rest.len() ==> (#[trigger] rest[i]).0 != writes[0].0);
        lemma_apply_writes_frame(c1, p, rest, writes[0].0);
        assert(spec_lookup(c1, p, writes[0].0) == Some(writes[0].1));
        assert forall|i: int| 0 <= i < writes.len() implies spec_lookup(
            spec_apply_writes(c, p, writes),
            p,
            (#[trigger] writes[i]).0,
        ) == Some(writes[i].1) by {
            if i > 0 {
                assert(rest[i - 1] == writes[i]);
            }
        }
    }
}

} // verus!
