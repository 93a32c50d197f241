//! The freshness envelope: every structured record goes into the store
//! wrapped together with its creation time, and a record older than the
//! expiry threshold is treated as a cache miss on the way out.

use vstd::prelude::*;

use crate::codec::{spec_dec_u64, spec_enc_u64, lemma_dec_enc_u64, Reader, Record};

verus! {

/// The uniform expiry threshold for structured records: 24 hours.
pub const EXPIRY_SECONDS: u64 = 24 * 60 * 60;

/// Whether an envelope created at `created_at` counts as expired at `now`,
/// both in seconds since the Unix epoch. A clock that appears to have gone
/// backwards never counts as expired.
pub open spec fn spec_is_expired(created_at: u64, now: u64) -> bool {
    now - created_at > EXPIRY_SECONDS
}

/// Expiry is monotonic in time: once a record is expired it stays expired
/// until it is replaced.
pub proof fn lemma_expiry_monotonic(created_at: u64, now1: u64, now2: u64)
    requires
        now1 <= now2,
        spec_is_expired(created_at, now1),
    ensures
        spec_is_expired(created_at, now2),
{
}

/// The expiry boundary: one second short of the threshold a record is still
/// fresh, at the threshold it is still fresh, one second past it is expired.
pub proof fn lemma_expiry_boundary(created_at: u64)
    requires
        created_at + EXPIRY_SECONDS + 1 <= u64::MAX,
    ensures
        !spec_is_expired(created_at, (created_at + EXPIRY_SECONDS - 1) as u64),
        !spec_is_expired(created_at, (created_at + EXPIRY_SECONDS) as u64),
        spec_is_expired(created_at, (created_at + EXPIRY_SECONDS + 1) as u64),
{
}

/// Relies on std's `SystemTime`: the wall-clock time as whole seconds since
/// the Unix epoch, or nothing for a clock set before the epoch. Every
/// outcome of the clock comes back as a value; the call does not panic.
#[verifier::external_body]
fn unix_time_now() -> Option<u64> {
    std::time::SystemTime::now()
        .duration_since(std::time::UNIX_EPOCH)
        .ok()
        .map(|d| d.as_secs())
}

/// The current time in seconds since the Unix epoch, clamped to zero for
/// clocks set before the epoch.
pub fn now_seconds() -> u64 {
    match unix_time_now() {
        Some(t) => t,
        None => 0,
    }
}

/// A freshness envelope: a payload together with the time it was created.
/// It is built whole at write time and never partially mutated; a refresh
/// replaces it wholesale.
#[derive(Debug, Clone, PartialEq, Eq)]
pub struct Cache<T> {
    pub timestamp: u64,
    pub data: T,
}

impl<T> Cache<T> {
    /// Wrap a payload with an explicit creation time.
    pub fn wrap_at(data: T, now: u64) -> (r: Cache<T>)
        ensures
            r.timestamp == now,
            r.data == data,
    {
        Cache { timestamp: now, data }
    }

    /// Wrap a payload with the current wall-clock time.
    pub fn new(data: T) -> (r: Cache<T>)
        ensures
            r.data == data,
    {
        let now = now_seconds();
        Cache::wrap_at(data, now)
    }

    /// Whether this envelope is expired at the given time.
    pub fn is_expired_at(&self, now: u64) -> (r: bool)
        ensures
            r == spec_is_expired(self.timestamp, now),
    {
        now > self.timestamp && now - self.timestamp > EXPIRY_SECONDS
    }

    /// Whether this envelope is expired at the current wall-clock time.
    pub fn is_expired(&self) -> bool {
        let now = now_seconds();
        self.is_expired_at(now)
    }
}

// ---------------------------------------------------------------------------
// The envelope's byte form: the creation time, then the payload, nothing else
// ---------------------------------------------------------------------------

pub open spec fn spec_enc_envelope<T: Record>(t: u64, m: T::V) -> Seq<u8> {
    spec_enc_u64(t) + T::enc_m(m)
}

/// An envelope must fill its entry exactly: trailing bytes are rejected.
pub open spec fn spec_dec_envelope<T: Record>(b: Seq<u8>) -> Option<(u64, T::V)> {
    match spec_dec_u64(b) {
        Some((t, r)) => match T::dec_m(r) {
            Some((m, rest)) => if rest.len() == 0 {
                Some((t, m))
            } else {
                None
            },
            None => None,
        },
        None => None,
    }
}

/// Decoding an encoded envelope gives back the creation time and the payload.
pub proof fn lemma_envelope_round_trip<T: Record>(t: u64, m: T::V)
    requires
        T::wf_m(m),
    ensures
        spec_dec_envelope::<T>(spec_enc_envelope::<T>(t, m)) == Some((t, m)),
{
    lemma_dec_enc_u64(t, T::enc_m(m));
    T::lemma_dec_enc(m, Seq::empty());
    assert(T::enc_m(m) + Seq::<u8>::empty() =~= T::enc_m(m));
}

pub fn encode_envelope<T: Record>(env: &Cache<T>) -> (out: Vec<u8>)
    ensures
        out@ == spec_enc_envelope::<T>(env.timestamp, env.data.deep_view()),
        T::wf_m(env.data.deep_view()),
{
    let mut out: Vec<u8> = Vec::new();
    crate::codec::write_u64(&mut out, env.timestamp);
    env.data.write(&mut out);
    proof {
        assert(out@ =~= spec_enc_envelope::<T>(env.timestamp, env.data.deep_view()));
    }
    out
}

pub fn decode_envelope<T: Record>(b: &[u8]) -> (r: Option<Cache<T>>)
    ensures
        match r {
            Some(env) => spec_dec_envelope::<T>(b@) == Some(
                (env.timestamp, env.data.deep_view()),
            ) && T::wf_m(env.data.deep_view()),
            None => spec_dec_envelope::<T>(b@) is None,
        },
{
    let mut reader = Reader::new(b);
    let timestamp = match reader.read_u64() {
        Some(t) => t,
        None => {
            return None;
        },
    };
    let data = match T::read(&mut reader) {
        Some(d) => d,
        None => {
            return None;
        },
    };
    if reader.is_empty() {
        Some(Cache { timestamp, data })
    } else {
        None
    }
}

} // verus!
