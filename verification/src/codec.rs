//! A small length-prefixed binary format for the cached records.
//!
//! Every structured value that goes into the store is encoded by this module
//! and decoded again on the way out. The format is fixed by spec functions
//! (`spec_enc_*` / `spec_dec_*`), the executable code is proved to match
//! them, and decoding an encoding is proved to give the value back.

use vstd::prelude::*;
use vstd::slice::slice_to_vec;
use vstd::utf8::{decode_utf8, decode_utf8_encode_utf8, encode_utf8, encode_utf8_decode_utf8,
    encode_utf8_valid_utf8, valid_utf8};

verus! {

// ---------------------------------------------------------------------------
// u64: eight bytes, least significant first
// ---------------------------------------------------------------------------

pub open spec fn spec_enc_u64(x: u64) -> Seq<u8> {
    seq![
        (x & 0xff) as u8,
        ((x >> 8) & 0xff) as u8,
        ((x >> 16) & 0xff) as u8,
        ((x >> 24) & 0xff) as u8,
        ((x >> 32) & 0xff) as u8,
        ((x >> 40) & 0xff) as u8,
        ((x >> 48) & 0xff) as u8,
        ((x >> 56) & 0xff) as u8,
    ]
}

/// The value held by the first eight bytes of `b`, least significant first.
pub open spec fn spec_combine_u64(b: Seq<u8>) -> u64
    recommends
        b.len() >= 8,
{
    (b[0] as u64) | ((b[1] as u64) << 8) | ((b[2] as u64) << 16) | ((b[3] as u64) << 24) | ((
    b[4] as u64) << 32) | ((b[5] as u64) << 40) | ((b[6] as u64) << 48) | ((b[7] as u64) << 56)
}

pub open spec fn spec_dec_u64(b: Seq<u8>) -> Option<(u64, Seq<u8>)> {
    if b.len() >= 8 {
        Some((spec_combine_u64(b), b.skip(8)))
    } else {
        None
    }
}

proof fn lemma_u64_bytes_roundtrip(x: u64)
    ensures
        ((x & 0xff) as u8 as u64) | (((x >> 8) & 0xff) as u8 as u64) << 8 | (((x >> 16)
            & 0xff) as u8 as u64) << 16 | (((x >> 24) & 0xff) as u8 as u64) << 24 | (((x >> 32)
            & 0xff) as u8 as u64) << 32 | (((x >> 40) & 0xff) as u8 as u64) << 40 | (((x >> 48)
            & 0xff) as u8 as u64) << 48 | (((x >> 56) & 0xff) as u8 as u64) << 56 == x,
{
    assert(((x & 0xff) as u8 as u64) | (((x >> 8) & 0xff) as u8 as u64) << 8 | (((x >> 16)
        & 0xff) as u8 as u64) << 16 | (((x >> 24) & 0xff) as u8 as u64) << 24 | (((x >> 32)
        & 0xff) as u8 as u64) << 32 | (((x >> 40) & 0xff) as u8 as u64) << 40 | (((x >> 48)
        & 0xff) as u8 as u64) << 48 | (((x >> 56) & 0xff) as u8 as u64) << 56 == x) by (bit_vector);
}

pub proof fn lemma_dec_enc_u64(x: u64, rest: Seq<u8>)
    ensures
        spec_dec_u64(spec_enc_u64(x) + rest) == Some((x, rest)),
{
    let b = spec_enc_u64(x) + rest;
    assert(b.len() >= 8);
    assert(b[0] == (x & 0xff) as u8);
    assert(b[1] == ((x >> 8) & 0xff) as u8);
    assert(b[2] == ((x >> 16) & 0xff) as u8);
    assert(b[3] == ((x >> 24) & 0xff) as u8);
    assert(b[4] == ((x >> 32) & 0xff) as u8);
    assert(b[5] == ((x >> 40) & 0xff) as u8);
    assert(b[6] == ((x >> 48) & 0xff) as u8);
    assert(b[7] == ((x >> 56) & 0xff) as u8);
    lemma_u64_bytes_roundtrip(x);
    assert(spec_combine_u64(b) == x);
    assert(b.skip(8) =~= rest);
}

// ---------------------------------------------------------------------------
// Length-prefixed byte strings
// ---------------------------------------------------------------------------

pub open spec fn spec_enc_bytes(v: Seq<u8>) -> Seq<u8>
    recommends
        v.len() <= u64::MAX,
{
    spec_enc_u64(v.len() as u64) + v
}

pub open spec fn spec_dec_bytes(b: Seq<u8>) -> Option<(Seq<u8>, Seq<u8>)> {
    match spec_dec_u64(b) {
        Some((n, r)) => if n <= r.len() {
            Some((r.take(n as int), r.skip(n as int)))
        } else {
            None
        },
        None => None,
    }
}

pub proof fn lemma_dec_enc_bytes(v: Seq<u8>, rest: Seq<u8>)
    requires
        v.len() <= u64::MAX,
    ensures
        spec_dec_bytes(spec_enc_bytes(v) + rest) == Some((v, rest)),
{
    let n = v.len() as u64;
    assert(spec_enc_bytes(v) + rest =~= spec_enc_u64(n) + (v + rest));
    lemma_dec_enc_u64(n, v + rest);
    assert((v + rest).take(n as int) =~= v);
    assert((v + rest).skip(n as int) =~= rest);
}

// ---------------------------------------------------------------------------
// bool: one byte, 0 or 1; any other byte is rejected
// ---------------------------------------------------------------------------

pub open spec fn spec_enc_bool(x: bool) -> Seq<u8> {
    seq![if x { 1u8 } else { 0u8 }]
}

pub open spec fn spec_dec_bool(b: Seq<u8>) -> Option<(bool, Seq<u8>)> {
    if b.len() >= 1 {
        if b[0] == 0u8 {
            Some((false, b.skip(1)))
        } else if b[0] == 1u8 {
            Some((true, b.skip(1)))
        } else {
            None
        }
    } else {
        None
    }
}

pub proof fn lemma_dec_enc_bool(x: bool, rest: Seq<u8>)
    ensures
        spec_dec_bool(spec_enc_bool(x) + rest) == Some((x, rest)),
{
    assert((spec_enc_bool(x) + rest).skip(1) =~= rest);
}

// ---------------------------------------------------------------------------
// Character strings: the UTF-8 bytes, length-prefixed
// ---------------------------------------------------------------------------

pub open spec fn spec_enc_str(s: Seq<char>) -> Seq<u8>
    recommends
        encode_utf8(s).len() <= u64::MAX,
{
    spec_enc_bytes(encode_utf8(s))
}

pub open spec fn spec_dec_str(b: Seq<u8>) -> Option<(Seq<char>, Seq<u8>)> {
    match spec_dec_bytes(b) {
        Some((w, r)) => if valid_utf8(w) {
            Some((decode_utf8(w), r))
        } else {
            None
        },
        None => None,
    }
}

pub proof fn lemma_dec_enc_str(s: Seq<char>, rest: Seq<u8>)
    requires
        encode_utf8(s).len() <= u64::MAX,
    ensures
        spec_dec_str(spec_enc_str(s) + rest) == Some((s, rest)),
{
    lemma_dec_enc_bytes(encode_utf8(s), rest);
    encode_utf8_valid_utf8(s);
    encode_utf8_decode_utf8(s);
}

// ---------------------------------------------------------------------------
// Executable writers
// ---------------------------------------------------------------------------

pub fn write_u64(out: &mut Vec<u8>, x: u64)
    ensures
        final(out)@ == old(out)@ + spec_enc_u64(x),
{
    out.push((x & 0xff) as u8);
    out.push(((x >> 8) & 0xff) as u8);
    out.push(((x >> 16) & 0xff) as u8);
    out.push(((x >> 24) & 0xff) as u8);
    out.push(((x >> 32) & 0xff) as u8);
    out.push(((x >> 40) & 0xff) as u8);
    out.push(((x >> 48) & 0xff) as u8);
    out.push(((x >> 56) & 0xff) as u8);
    assert(out@ =~= old(out)@ + spec_enc_u64(x));
}

pub fn write_bytes(out: &mut Vec<u8>, v: &[u8])
    ensures
        final(out)@ == old(out)@ + spec_enc_bytes(v@),
        v@.len() <= u64::MAX,
{
    let n = v.len();
    write_u64(out, n as u64);
    out.extend_from_slice(v);
    assert(out@ =~= old(out)@ + spec_enc_bytes(v@));
}

pub fn write_bool(out: &mut Vec<u8>, x: bool)
    ensures
        final(out)@ == old(out)@ + spec_enc_bool(x),
{
    out.push(if x { 1u8 } else { 0u8 });
    assert(out@ =~= old(out)@ + spec_enc_bool(x));
}

pub fn write_str(out: &mut Vec<u8>, s: &str)
    ensures
        final(out)@ == old(out)@ + spec_enc_str(s@),
        encode_utf8(s@).len() <= u64::MAX,
{
    let bs = s.as_bytes();
    write_bytes(out, bs);
}

// ---------------------------------------------------------------------------
// Executable reader
// ---------------------------------------------------------------------------

/// Relies on `String::from_utf8`: it accepts exactly the byte sequences that
/// are valid UTF-8 and returns the string whose encoding is those bytes.
#[verifier::external_body]
fn string_from_utf8(v: Vec<u8>) -> (r: Option<String>)
    ensures
        match r {
            Some(s) => encode_utf8(s@) == v@,
            None => !valid_utf8(v@),
        },
{
    String::from_utf8(v).ok()
}

/// A cursor over the raw bytes of a store entry being decoded.
pub struct Reader<'a> {
    pub bytes: &'a [u8],
    pub pos: usize,
}

impl<'a> Reader<'a> {
    pub open spec fn wf(&self) -> bool {
        self.pos <= self.bytes@.len()
    }

    /// The bytes not yet consumed.
    pub open spec fn remaining(&self) -> Seq<u8> {
        self.bytes@.skip(self.pos as int)
    }

    pub fn new(bytes: &'a [u8]) -> (r: Reader<'a>)
        ensures
            r.wf(),
            r.remaining() == bytes@,
            r.bytes == bytes,
    {
        let r = Reader { bytes, pos: 0 };
        assert(r.remaining() =~= bytes@);
        r
    }

    pub fn is_empty(&self) -> (r: bool)
        requires
            self.wf(),
        ensures
            r == (self.remaining().len() == 0),
    {
        self.pos == self.bytes.len()
    }

    pub fn read_u64(&mut self) -> (r: Option<u64>)
        requires
            old(self).wf(),
        ensures
            final(self).wf(),
            final(self).bytes == old(self).bytes,
            match r {
                Some(x) => spec_dec_u64(old(self).remaining()) == Some((x, final(self).remaining())),
                None => spec_dec_u64(old(self).remaining()) is None && *final(self) == *old(self),
            },
    {
        if self.bytes.len() - self.pos >= 8 {
            let i = self.pos;
            let x = (self.bytes[i] as u64) | ((self.bytes[i + 1] as u64) << 8) | ((self.bytes[i
                + 2] as u64) << 16) | ((self.bytes[i + 3] as u64) << 24) | ((self.bytes[i
                + 4] as u64) << 32) | ((self.bytes[i + 5] as u64) << 40) | ((self.bytes[i
                + 6] as u64) << 48) | ((self.bytes[i + 7] as u64) << 56);
            self.pos = i + 8;
            proof {
                let rem = old(self).remaining();
                assert(rem.len() >= 8);
                assert(rem[0] == self.bytes@[i as int]);
                assert(rem[1] == self.bytes@[i + 1]);
                assert(rem[2] == self.bytes@[i + 2]);
                assert(rem[3] == self.bytes@[i + 3]);
                assert(rem[4] == self.bytes@[i + 4]);
                assert(rem[5] == self.bytes@[i + 5]);
                assert(rem[6] == self.bytes@[i + 6]);
                assert(rem[7] == self.bytes@[i + 7]);
                assert(rem.skip(8) =~= self.remaining());
            }
            Some(x)
        } else {
            None
        }
    }

    pub fn read_bytes(&mut self) -> (r: Option<Vec<u8>>)
        requires
            old(self).wf(),
        ensures
            final(self).wf(),
            final(self).bytes == old(self).bytes,
            match r {
                Some(v) => spec_dec_bytes(old(self).remaining()) == Some((v@, final(self).remaining())),
                None => spec_dec_bytes(old(self).remaining()) is None,
            },
    {
        match self.read_u64() {
            Some(n) => {
                let avail = self.bytes.len() - self.pos;
                if n <= avail as u64 {
                    let n_us = n as usize;
                    let chunk = slice_to_vec(&self.bytes[self.pos..self.pos + n_us]);
                    let ghost mid = self.remaining();
                    proof {
                        assert(chunk@ =~= mid.take(n as int));
                    }
                    self.pos = self.pos + n_us;
                    proof {
                        assert(self.remaining() =~= mid.skip(n as int));
                    }
                    Some(chunk)
                } else {
                    None
                }
            },
            None => None,
        }
    }

    pub fn read_bool(&mut self) -> (r: Option<bool>)
        requires
            old(self).wf(),
        ensures
            final(self).wf(),
            final(self).bytes == old(self).bytes,
            match r {
                Some(x) => spec_dec_bool(old(self).remaining()) == Some((x, final(self).remaining())),
                None => spec_dec_bool(old(self).remaining()) is None,
            },
    {
        if self.pos < self.bytes.len() {
            let b = self.bytes[self.pos];
            if b == 0 || b == 1 {
                let ghost rem0 = old(self).remaining();
                self.pos = self.pos + 1;
                proof {
                    assert(rem0[0] == b);
                    assert(rem0.skip(1) =~= self.remaining());
                }
                Some(b == 1)
            } else {
                None
            }
        } else {
            None
        }
    }

    pub fn read_string(&mut self) -> (r: Option<String>)
        requires
            old(self).wf(),
        ensures
            final(self).wf(),
            final(self).bytes == old(self).bytes,
            match r {
                Some(s) => spec_dec_str(old(self).remaining()) == Some((s@, final(self).remaining())),
                None => spec_dec_str(old(self).remaining()) is None,
            },
    {
        match self.read_bytes() {
            Some(w) => {
                match string_from_utf8(w) {
                    Some(s) => {
                        proof {
                            encode_utf8_valid_utf8(s@);
                            encode_utf8_decode_utf8(s@);
                        }
                        Some(s)
                    },
                    None => None,
                }
            },
            None => None,
        }
    }
}

// ---------------------------------------------------------------------------
// Records: values that can live inside a cache envelope
// ---------------------------------------------------------------------------

/// A value the structured-record cache can store. Its encoding is fixed by
/// the two spec functions, executable encoding and decoding are proved to
/// match them, and decoding an encoding gives the value back
/// (`lemma_dec_enc`). All statements are over the value's deep view.
pub trait Record: Sized + DeepView {
    /// Models whose encoding fits the length prefixes of the format.
    /// Every value built in executable code satisfies this.
    spec fn wf_m(m: Self::V) -> bool;

    spec fn enc_m(m: Self::V) -> Seq<u8>;

    spec fn dec_m(b: Seq<u8>) -> Option<(Self::V, Seq<u8>)>;

    proof fn lemma_dec_enc(m: Self::V, rest: Seq<u8>)
        requires
            Self::wf_m(m),
        ensures
            Self::dec_m(Self::enc_m(m) + rest) == Some((m, rest)),
    ;

    proof fn lemma_enc_len(m: Self::V)
        requires
            Self::wf_m(m),
        ensures
            Self::enc_m(m).len() >= 1,
    ;

    fn write(&self, out: &mut Vec<u8>)
        ensures
            final(out)@ == old(out)@ + Self::enc_m(self.deep_view()),
            Self::wf_m(self.deep_view()),
    ;

    fn read(r: &mut Reader<'_>) -> (res: Option<Self>)
        requires
            old(r).wf(),
        ensures
            final(r).wf(),
            final(r).bytes == old(r).bytes,
            match res {
                Some(v) => Self::dec_m(old(r).remaining()) == Some(
                    (v.deep_view(), final(r).remaining()),
                ) && Self::wf_m(v.deep_view()),
                None => Self::dec_m(old(r).remaining()) is None,
            },
    ;
}

impl Record for u64 {
    open spec fn wf_m(m: u64) -> bool {
        true
    }

    open spec fn enc_m(m: u64) -> Seq<u8> {
        spec_enc_u64(m)
    }

    open spec fn dec_m(b: Seq<u8>) -> Option<(u64, Seq<u8>)> {
        spec_dec_u64(b)
    }

    proof fn lemma_dec_enc(m: u64, rest: Seq<u8>) {
        lemma_dec_enc_u64(m, rest);
    }

    proof fn lemma_enc_len(m: u64) {
    }

    fn write(&self, out: &mut Vec<u8>) {
        write_u64(out, *self);
    }

    fn read(r: &mut Reader<'_>) -> (res: Option<Self>) {
        r.read_u64()
    }
}

impl Record for bool {
    open spec fn wf_m(m: bool) -> bool {
        true
    }

    open spec fn enc_m(m: bool) -> Seq<u8> {
        spec_enc_bool(m)
    }

    open spec fn dec_m(b: Seq<u8>) -> Option<(bool, Seq<u8>)> {
        spec_dec_bool(b)
    }

    proof fn lemma_dec_enc(m: bool, rest: Seq<u8>) {
        lemma_dec_enc_bool(m, rest);
    }

    proof fn lemma_enc_len(m: bool) {
    }

    fn write(&self, out: &mut Vec<u8>) {
        write_bool(out, *self);
    }

    fn read(r: &mut Reader<'_>) -> (res: Option<Self>) {
        r.read_bool()
    }
}

impl Record for String {
    open spec fn wf_m(m: Seq<char>) -> bool {
        encode_utf8(m).len() <= u64::MAX
    }

    open spec fn enc_m(m: Seq<char>) -> Seq<u8> {
        spec_enc_str(m)
    }

    open spec fn dec_m(b: Seq<u8>) -> Option<(Seq<char>, Seq<u8>)> {
        spec_dec_str(b)
    }

    proof fn lemma_dec_enc(m: Seq<char>, rest: Seq<u8>) {
        lemma_dec_enc_str(m, rest);
    }

    proof fn lemma_enc_len(m: Seq<char>) {
    }

    fn write(&self, out: &mut Vec<u8>) {
        write_str(out, self.as_str());
    }

    fn read(r: &mut Reader<'_>) -> (res: Option<Self>) {
        match r.read_string() {
            Some(s) => {
                proof {
                    if let Some((w, rr)) = spec_dec_bytes(old(r).remaining()) {
                        decode_utf8_encode_utf8(w);
                    }
                }
                Some(s)
            },
            None => None,
        }
    }
}

impl<T: Record> Record for Option<T> {
    open spec fn wf_m(m: Option<T::V>) -> bool {
        match m {
            Some(x) => T::wf_m(x),
            None => true,
        }
    }

    open spec fn enc_m(m: Option<T::V>) -> Seq<u8> {
        match m {
            None => spec_enc_bool(false),
            Some(x) => spec_enc_bool(true) + T::enc_m(x),
        }
    }

    open spec fn dec_m(b: Seq<u8>) -> Option<(Option<T::V>, Seq<u8>)> {
        match spec_dec_bool(b) {
            Some((false, r)) => Some((None, r)),
            Some((true, r)) => match T::dec_m(r) {
                Some((x, r2)) => Some((Some(x), r2)),
                None => None,
            },
            None => None,
        }
    }

    proof fn lemma_dec_enc(m: Option<T::V>, rest: Seq<u8>) {
        match m {
            None => {
                lemma_dec_enc_bool(false, rest);
            },
            Some(x) => {
                assert(Self::enc_m(m) + rest =~= spec_enc_bool(true) + (T::enc_m(x) + rest));
                lemma_dec_enc_bool(true, T::enc_m(x) + rest);
                T::lemma_dec_enc(x, rest);
            },
        }
    }

    proof fn lemma_enc_len(m: Option<T::V>) {
    }

    fn write(&self, out: &mut Vec<u8>) {
        match self {
            None => {
                write_bool(out, false);
            },
            Some(v) => {
                write_bool(out, true);
                v.write(out);
                assert(out@ =~= old(out)@ + Self::enc_m(self.deep_view()));
            },
        }
    }

    fn read(r: &mut Reader<'_>) -> (res: Option<Self>) {
        match r.read_bool() {
            Some(tag) => {
                if tag {
                    match T::read(r) {
                        Some(x) => Some(Some(x)),
                        None => None,
                    }
                } else {
                    Some(None)
                }
            },
            None => None,
        }
    }
}

// ---------------------------------------------------------------------------
// Lists of records: an item count, then the items one after the other
// ---------------------------------------------------------------------------

pub open spec fn spec_enc_seq<T: Record>(s: Seq<T::V>) -> Seq<u8>
    decreases s.len(),
{
    if s.len() == 0 {
        Seq::empty()
    } else {
        T::enc_m(s[0]) + spec_enc_seq::<T>(s.drop_first())
    }
}

pub open spec fn spec_dec_seq<T: Record>(b: Seq<u8>, n: nat) -> Option<(Seq<T::V>, Seq<u8>)>
    decreases n,
{
    if n == 0 {
        Some((Seq::empty(), b))
    } else {
        match T::dec_m(b) {
            Some((x, r)) => match spec_dec_seq::<T>(r, (n - 1) as nat) {
                Some((xs, r2)) => Some((seq![x] + xs, r2)),
                None => None,
            },
            None => None,
        }
    }
}

pub proof fn lemma_enc_seq_len<T: Record>(s: Seq<T::V>)
    requires
        forall|i: int| 0 <= i < s.len() ==> T::wf_m(#[trigger] s[i]),
    ensures
        spec_enc_seq::<T>(s).len() >= s.len(),
    decreases s.len(),
{
    if s.len() > 0 {
        T::lemma_enc_len(s[0]);
        lemma_enc_seq_len::<T>(s.drop_first());
    }
}

pub proof fn lemma_enc_seq_push<T: Record>(s: Seq<T::V>, x: T::V)
    ensures
        spec_enc_seq::<T>(s.push(x)) == spec_enc_seq::<T>(s) + T::enc_m(x),
    decreases s.len(),
{
    if s.len() == 0 {
        assert(s.push(x).drop_first() =~= s);
        assert(spec_enc_seq::<T>(s.push(x)) =~= spec_enc_seq::<T>(s) + T::enc_m(x));
    } else {
        assert(s.push(x).drop_first() =~= s.drop_first().push(x));
        lemma_enc_seq_push::<T>(s.drop_first(), x);
        assert(spec_enc_seq::<T>(s.push(x)) == T::enc_m(s[0]) + (spec_enc_seq::<T>(s.drop_first())
            + T::enc_m(x)));
        assert(T::enc_m(s[0]) + (spec_enc_seq::<T>(s.drop_first()) + T::enc_m(x)) =~= (T::enc_m(
            s[0],
        ) + spec_enc_seq::<T>(s.drop_first())) + T::enc_m(x));
    }
}

pub proof fn lemma_dec_enc_seq<T: Record>(s: Seq<T::V>, rest: Seq<u8>)
    requires
        forall|i: int| 0 <= i < s.len() ==> T::wf_m(#[trigger] s[i]),
    ensures
        spec_dec_seq::<T>(spec_enc_seq::<T>(s) + rest, s.len()) == Some((s, rest)),
    decreases s.len(),
{
    if s.len() == 0 {
        assert(spec_enc_seq::<T>(s) + rest =~= rest);
        assert(spec_dec_seq::<T>(rest, 0) == Some((Seq::<T::V>::empty(), rest)));
        assert(s =~= Seq::<T::V>::empty());
    } else {
        let tail = s.drop_first();
        assert(spec_enc_seq::<T>(s) + rest =~= T::enc_m(s[0]) + (spec_enc_seq::<T>(tail) + rest));
        T::lemma_dec_enc(s[0], spec_enc_seq::<T>(tail) + rest);
        lemma_dec_enc_seq::<T>(tail, rest);
        assert(seq![s[0]] + tail =~= s);
    }
}

impl<T: Record> Record for Vec<T> {
    open spec fn wf_m(m: Seq<T::V>) -> bool {
        m.len() <= u64::MAX && forall|i: int| 0 <= i < m.len() ==> T::wf_m(#[trigger] m[i])
    }

    open spec fn enc_m(m: Seq<T::V>) -> Seq<u8> {
        spec_enc_u64(m.len() as u64) + spec_enc_seq::<T>(m)
    }

    open spec fn dec_m(b: Seq<u8>) -> Option<(Seq<T::V>, Seq<u8>)> {
        match spec_dec_u64(b) {
            Some((n, r)) => if n <= r.len() {
                spec_dec_seq::<T>(r, n as nat)
            } else {
                None
            },
            None => None,
        }
    }

    proof fn lemma_dec_enc(m: Seq<T::V>, rest: Seq<u8>) {
        let n = m.len() as u64;
        assert(Self::enc_m(m) + rest =~= spec_enc_u64(n) + (spec_enc_seq::<T>(m) + rest));
        lemma_dec_enc_u64(n, spec_enc_seq::<T>(m) + rest);
        lemma_enc_seq_len::<T>(m);
        lemma_dec_enc_seq::<T>(m, rest);
    }

    proof fn lemma_enc_len(m: Seq<T::V>) {
    }

    fn write(&self, out: &mut Vec<u8>) {
        let ghost m = self.deep_view();
        let n = self.len();
        write_u64(out, n as u64);
        let ghost base = out@;
        let mut i: usize = 0;
        while i < n
            invariant
                i <= n,
                n == self@.len(),
                m == self.deep_view(),
                out@ == base + spec_enc_seq::<T>(m.take(i as int)),
                forall|j: int| 0 <= j < i ==> T::wf_m(#[trigger] m[j]),
            decreases n - i,
        {
            let ghost taken = m.take(i as int);
            self[i].write(out);
            proof {
                assert(self@[i as int].deep_view() == m[i as int]);
                lemma_enc_seq_push::<T>(taken, m[i as int]);
                assert(taken.push(m[i as int]) =~= m.take(i + 1));
            }
            i = i + 1;
        }
        proof {
            assert(m.take(n as int) =~= m);
            assert(out@ =~= old(out)@ + Self::enc_m(m));
        }
    }

    fn read(r: &mut Reader<'_>) -> (res: Option<Self>) {
        let ghost rem0 = old(r).remaining();
        match r.read_u64() {
            Some(n) => {
                let ghost rem1 = r.remaining();
                let avail = r.bytes.len() - r.pos;
                if n <= avail as u64 {
                    let n_us = n as usize;
                    let mut acc: Vec<T> = Vec::new();
                    let mut i: usize = 0;
                    while i < n_us
                        invariant
                            i <= n_us,
                            n_us == n,
                            r.wf(),
                            r.bytes == old(r).bytes,
                            acc.deep_view().len() == i,
                            forall|j: int|
                                0 <= j < i ==> T::wf_m(#[trigger] acc.deep_view()[j]),
                            Vec::<T>::dec_m(old(r).remaining()) == spec_dec_seq::<T>(
                                rem1,
                                n as nat,
                            ),
                            spec_dec_seq::<T>(rem1, n as nat) == match spec_dec_seq::<T>(
                                r.remaining(),
                                (n - i) as nat,
                            ) {
                                Some((xs, rr)) => Some((acc.deep_view() + xs, rr)),
                                None => None::<(Seq<T::V>, Seq<u8>)>,
                            },
                        decreases n_us - i,
                    {
                        let ghost cur = r.remaining();
                        let ghost acc_m = acc.deep_view();
                        match T::read(r) {
                            Some(x) => {
                                proof {
                                    let xv = x.deep_view();
                                    let r2 = r.remaining();
                                    assert(spec_dec_seq::<T>(cur, (n - i) as nat) == match
                                        spec_dec_seq::<T>(r2, (n - i - 1) as nat) {
                                        Some((xs, rr)) => Some((seq![xv] + xs, rr)),
                                        None => None::<(Seq<T::V>, Seq<u8>)>,
                                    });
                                }
                                acc.push(x);
                                proof {
                                    let xv = x.deep_view();
                                    assert(acc.deep_view() =~= acc_m.push(xv));
                                    assert forall|xs: Seq<T::V>|
                                        acc_m + (seq![xv] + xs) =~= acc_m.push(xv) + xs by {}
                                }
                            },
                            None => {
                                proof {
                                    assert(spec_dec_seq::<T>(cur, (n - i) as nat) is None);
                                }
                                return None;
                            },
                        }
                        i = i + 1;
                    }
                    proof {
                        assert(spec_dec_seq::<T>(r.remaining(), 0) == Some(
                            (Seq::<T::V>::empty(), r.remaining()),
                        ));
                        assert(acc.deep_view() + Seq::<T::V>::empty() =~= acc.deep_view());
                    }
                    Some(acc)
                } else {
                    None
                }
            },
            None => None,
        }
    }
}

// ---------------------------------------------------------------------------
// String comparison
// ---------------------------------------------------------------------------

/// UTF-8 encoding is injective: strings with the same encoding are equal.
pub proof fn lemma_encode_utf8_injective(a: Seq<char>, b: Seq<char>)
    requires
        encode_utf8(a) == encode_utf8(b),
    ensures
        a == b,
{
    encode_utf8_decode_utf8(a);
    encode_utf8_decode_utf8(b);
}

pub fn bytes_eq(a: &[u8], b: &[u8]) -> (r: bool)
    ensures
        r == (a@ == b@),
{
    if a.len() != b.len() {
        proof {
            assert(a@ != b@);
        }
        return false;
    }
    let n = a.len();
    let mut i: usize = 0;
    while i < n
        invariant
            i <= n,
            n == a@.len(),
            n == b@.len(),
            forall|j: int| 0 <= j < i ==> a@[j] == b@[j],
        decreases n - i,
    {
        if a[i] != b[i] {
            proof {
                assert(a@[i as int] != b@[i as int]);
            }
            return false;
        }
        i = i + 1;
    }
    proof {
        assert(a@ =~= b@);
    }
    true
}

/// String equality, proved through the equality of the UTF-8 encodings.
pub fn str_eq(a: &str, b: &str) -> (r: bool)
    ensures
        r == (a@ == b@),
{
    let r = bytes_eq(a.as_bytes(), b.as_bytes());
    proof {
        if encode_utf8(a@) == encode_utf8(b@) {
            lemma_encode_utf8_injective(a@, b@);
        }
    }
    r
}

} // verus!
