use nostr_cache::codec::{Reader, Record};
use nostr_cache::envelope::{decode_envelope, encode_envelope, Cache, EXPIRY_SECONDS};

const DAY: u64 = 24 * 60 * 60;

#[test]
fn expiry_constant_is_24_hours() {
    assert_eq!(EXPIRY_SECONDS, DAY);
}

#[test]
fn expiry_boundary() {
    let env = Cache::wrap_at(0u64, 1_000_000);
    assert!(!env.is_expired_at(1_000_000 + DAY - 1));
    assert!(!env.is_expired_at(1_000_000 + DAY));
    assert!(env.is_expired_at(1_000_000 + DAY + 1));
}

#[test]
fn not_expired_before_creation() {
    let env = Cache::wrap_at(0u64, 1_000_000);
    assert!(!env.is_expired_at(0));
    assert!(!env.is_expired_at(999_999));
}

#[test]
fn fresh_envelope_is_not_expired() {
    let env = Cache::new(7u64);
    assert!(!env.is_expired());
}

#[test]
fn wrap_preserves_payload() {
    let env = Cache::wrap_at(String::from("hello"), 42);
    assert_eq!(env.timestamp, 42);
    assert_eq!(env.data, "hello");
}

#[test]
fn envelope_bytes_are_timestamp_then_payload() {
    let env = Cache::wrap_at(0x0807060504030201u64, 1);
    let bytes = encode_envelope(&env);
    assert_eq!(
        bytes,
        vec![1, 0, 0, 0, 0, 0, 0, 0, 0x01, 0x02, 0x03, 0x04, 0x05, 0x06, 0x07, 0x08]
    );
}

#[test]
fn envelope_round_trip() {
    let env = Cache::wrap_at(String::from("päyload ⚡"), 123_456);
    let bytes = encode_envelope(&env);
    let back: Cache<String> = decode_envelope(&bytes).expect("decodes");
    assert_eq!(back.timestamp, 123_456);
    assert_eq!(back.data, "päyload ⚡");
}

#[test]
fn envelope_rejects_trailing_bytes() {
    let env = Cache::wrap_at(5u64, 9);
    let mut bytes = encode_envelope(&env);
    bytes.push(0);
    assert!(decode_envelope::<u64>(&bytes).is_none());
}

#[test]
fn envelope_rejects_truncation() {
    let env = Cache::wrap_at(String::from("abc"), 9);
    let bytes = encode_envelope(&env);
    for n in 0..bytes.len() {
        assert!(decode_envelope::<String>(&bytes[..n]).is_none());
    }
}

#[test]
fn u64_encoding_is_little_endian() {
    let mut out: Vec<u8> = Vec::new();
    0x1122334455667788u64.write(&mut out);
    assert_eq!(out, vec![0x88, 0x77, 0x66, 0x55, 0x44, 0x33, 0x22, 0x11]);
}

#[test]
fn string_encoding_is_length_prefixed_utf8() {
    let mut out: Vec<u8> = Vec::new();
    String::from("A⚡").write(&mut out);
    // one byte for 'A', three for the lightning bolt
    assert_eq!(out, vec![4, 0, 0, 0, 0, 0, 0, 0, 0x41, 0xE2, 0x9A, 0xA1]);
}

#[test]
fn bool_reader_rejects_other_bytes() {
    let bytes = vec![2u8];
    let mut r = Reader::new(&bytes);
    assert_eq!(r.read_bool(), None);
}

#[test]
fn reader_reads_back_what_writers_wrote() {
    let mut out: Vec<u8> = Vec::new();
    true.write(&mut out);
    77u64.write(&mut out);
    String::from("key").write(&mut out);
    let mut r = Reader::new(&out);
    assert_eq!(r.read_bool(), Some(true));
    assert_eq!(r.read_u64(), Some(77));
    assert_eq!(r.read_string().as_deref(), Some("key"));
    assert!(r.is_empty());
}

#[test]
fn option_and_list_round_trip() {
    let v: Vec<Option<String>> = vec![Some(String::from("a")), None, Some(String::from("b"))];
    let mut out: Vec<u8> = Vec::new();
    v.write(&mut out);
    let mut r = Reader::new(&out);
    let back = Vec::<Option<String>>::read(&mut r).expect("decodes");
    assert_eq!(back, v);
    assert!(r.is_empty());
}

#[test]
fn invalid_utf8_is_rejected() {
    // a length-prefixed byte string whose payload is not valid UTF-8
    let bytes = vec![2, 0, 0, 0, 0, 0, 0, 0, 0xC3, 0x28];
    let mut r = Reader::new(&bytes);
    assert_eq!(r.read_string(), None);
}

#[test]
fn list_length_prefix_must_fit_the_data() {
    // claims 3 items but holds none
    let bytes = vec![3, 0, 0, 0, 0, 0, 0, 0];
    let mut r = Reader::new(&bytes);
    assert!(Vec::<u64>::read(&mut r).is_none());
}
