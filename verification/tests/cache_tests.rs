use nostr_cache::cache::{CacheError, CacheRead, ReadPolicy};
use nostr_cache::records::{ArticleFull, EditableRelay, ExtraField, ProfileMetadata, TimelinePost,
    ZapReceipt};
use nostr_cache::store::{CacheDb, Partition};

const DAY: u64 = 24 * 60 * 60;

fn open_temp() -> (tempfile::TempDir, CacheDb) {
    let dir = tempfile::tempdir().expect("temp dir");
    let path = dir.path().join("cache.redb");
    let db = CacheDb::open(path.to_str().unwrap()).expect("open store");
    (dir, db)
}

fn alice() -> ProfileMetadata {
    ProfileMetadata {
        name: String::from("Alice"),
        about: String::from("About Alice ⚡"),
        picture: String::from("https://example.com/alice.png"),
        nip05: String::from("alice@example.com"),
        lud16: String::from("alice@wallet.example"),
        extra: vec![ExtraField {
            key: String::from("banner"),
            value: String::from("\"https://example.com/banner.png\""),
        }],
    }
}

#[test]
fn write_then_read_returns_the_value_fresh() {
    let (_dir, mut db) = open_temp();
    let profile = alice();
    db.write_cache_at(Partition::Profiles, "abc123", &profile, 1_000)
        .expect("write");
    let got: CacheRead<ProfileMetadata> = db
        .read_cache_at(Partition::Profiles, "abc123", 1_000, ReadPolicy::HardMiss)
        .expect("read");
    assert_eq!(got, CacheRead::Fresh(profile));
}

#[test]
fn profile_scenario_expiry_and_stale_while_revalidate() {
    let (_dir, mut db) = open_temp();
    let profile = alice();
    let t0 = 1_700_000_000;
    db.write_cache_at(Partition::Profiles, "abc123", &profile, t0)
        .expect("write");

    // immediately: fresh under either policy
    let got: CacheRead<ProfileMetadata> = db
        .read_cache_at(Partition::Profiles, "abc123", t0, ReadPolicy::StaleWhileRevalidate)
        .expect("read");
    assert_eq!(got, CacheRead::Fresh(alice()));

    // 25 hours later: a hard-miss read sees a miss
    let t1 = t0 + 25 * 60 * 60;
    let got: CacheRead<ProfileMetadata> = db
        .read_cache_at(Partition::Profiles, "abc123", t1, ReadPolicy::HardMiss)
        .expect("read");
    assert_eq!(got, CacheRead::Miss);

    // but a stale-while-revalidate read still serves the value, flagged stale
    let got: CacheRead<ProfileMetadata> = db
        .read_cache_at(Partition::Profiles, "abc123", t1, ReadPolicy::StaleWhileRevalidate)
        .expect("read");
    assert_eq!(got, CacheRead::Stale(alice()));
}

#[test]
fn read_at_the_expiry_boundary() {
    let (_dir, mut db) = open_temp();
    db.write_cache_at(Partition::Profiles, "k", &alice(), 1_000)
        .expect("write");
    let fresh: CacheRead<ProfileMetadata> = db
        .read_cache_at(Partition::Profiles, "k", 1_000 + DAY, ReadPolicy::HardMiss)
        .expect("read");
    assert!(matches!(fresh, CacheRead::Fresh(_)));
    let missed: CacheRead<ProfileMetadata> = db
        .read_cache_at(Partition::Profiles, "k", 1_000 + DAY + 1, ReadPolicy::HardMiss)
        .expect("read");
    assert_eq!(missed, CacheRead::Miss);
}

#[test]
fn missing_key_is_a_miss_not_an_error() {
    let (_dir, db) = open_temp();
    let got: CacheRead<ProfileMetadata> = db
        .read_cache_at(Partition::Profiles, "nobody", 5, ReadPolicy::HardMiss)
        .expect("read");
    assert_eq!(got, CacheRead::Miss);
}

#[test]
fn corrupted_entry_reads_as_deserialize_error() {
    let (_dir, mut db) = open_temp();
    db.put_bytes(Partition::Profiles, "corrupt", &[0xDE, 0xAD, 0xBE, 0xEF])
        .expect("raw write");
    let got = db.read_cache_at::<ProfileMetadata>(
        Partition::Profiles,
        "corrupt",
        1_000,
        ReadPolicy::HardMiss,
    );
    assert_eq!(got, Err(CacheError::Deserialize));
}

#[test]
fn corrupted_entry_with_mutated_payload() {
    let (_dir, mut db) = open_temp();
    db.write_cache_at(Partition::Profiles, "k", &alice(), 1_000)
        .expect("write");
    // fetch the raw bytes, damage the payload's UTF-8, and put them back
    let mut raw = db.get_bytes(Partition::Profiles, "k").expect("present");
    let last = raw.len() - 1;
    raw[last] = 0xFF;
    raw[last - 1] = 0xC3;
    db.put_bytes(Partition::Profiles, "k", &raw).expect("raw write");
    let got = db.read_cache_at::<ProfileMetadata>(
        Partition::Profiles,
        "k",
        1_000,
        ReadPolicy::HardMiss,
    );
    assert_eq!(got, Err(CacheError::Deserialize));
}

#[test]
fn empty_entry_is_corrupted() {
    let (_dir, mut db) = open_temp();
    db.put_bytes(Partition::Profiles, "empty", &[]).expect("raw write");
    let got = db.read_cache_at::<ProfileMetadata>(
        Partition::Profiles,
        "empty",
        1_000,
        ReadPolicy::HardMiss,
    );
    assert_eq!(got, Err(CacheError::Deserialize));
}

#[test]
fn save_image_is_idempotent() {
    let (_dir, mut db) = open_temp();
    let bytes = vec![0x89, 0x50, 0x4E, 0x47, 0x00, 0xFF];
    db.save_image("https://x/y.png", &bytes).expect("first save");
    db.save_image("https://x/y.png", &bytes).expect("second save");
    assert_eq!(db.load_image("https://x/y.png"), Some(bytes));
}

#[test]
fn load_image_missing_url_is_none() {
    let (_dir, db) = open_temp();
    assert_eq!(db.load_image("https://nowhere/none.png"), None);
}

#[test]
fn image_survives_reopening_the_store() {
    let dir = tempfile::tempdir().expect("temp dir");
    let path = dir.path().join("cache.redb");
    let bytes = vec![1, 2, 3, 4, 5];
    {
        let mut db = CacheDb::open(path.to_str().unwrap()).expect("open");
        db.save_image("https://x/y.png", &bytes).expect("save");
    }
    let db2 = CacheDb::open(path.to_str().unwrap()).expect("reopen");
    assert_eq!(db2.load_image("https://x/y.png"), Some(bytes));
}

#[test]
fn distinct_keys_in_one_partition_keep_all_writes() {
    let (_dir, mut db) = open_temp();
    let keys = ["k1", "k2", "k3", "k4", "k5"];
    for (i, key) in keys.iter().enumerate() {
        let mut p = alice();
        p.name = format!("writer-{i}");
        db.write_cache_at(Partition::Profiles, key, &p, 1_000)
            .expect("write");
    }
    for (i, key) in keys.iter().enumerate() {
        let got: CacheRead<ProfileMetadata> = db
            .read_cache_at(Partition::Profiles, key, 1_000, ReadPolicy::HardMiss)
            .expect("read");
        match got {
            CacheRead::Fresh(p) => assert_eq!(p.name, format!("writer-{i}")),
            other => panic!("expected fresh value, got {other:?}"),
        }
    }
}

#[test]
fn last_write_wins_for_one_key() {
    let (_dir, mut db) = open_temp();
    let mut first = alice();
    first.name = String::from("first");
    let mut second = alice();
    second.name = String::from("second");
    db.write_cache_at(Partition::Profiles, "k", &first, 1_000).expect("write");
    db.write_cache_at(Partition::Profiles, "k", &second, 2_000).expect("write");
    let got: CacheRead<ProfileMetadata> = db
        .read_cache_at(Partition::Profiles, "k", 2_000, ReadPolicy::HardMiss)
        .expect("read");
    assert_eq!(got, CacheRead::Fresh(second));
}

#[test]
fn partitions_are_independent_namespaces() {
    let (_dir, mut db) = open_temp();
    let relays = vec![EditableRelay {
        url: String::from("wss://relay.example"),
        read: true,
        write: false,
    }];
    db.write_cache_at(Partition::Profiles, "same-key", &alice(), 1_000)
        .expect("write profile");
    db.write_cache_at(Partition::RelayLists, "same-key", &relays, 1_000)
        .expect("write relays");
    let p: CacheRead<ProfileMetadata> = db
        .read_cache_at(Partition::Profiles, "same-key", 1_000, ReadPolicy::HardMiss)
        .expect("read");
    let r: CacheRead<Vec<EditableRelay>> = db
        .read_cache_at(Partition::RelayLists, "same-key", 1_000, ReadPolicy::HardMiss)
        .expect("read");
    assert_eq!(p, CacheRead::Fresh(alice()));
    assert_eq!(r, CacheRead::Fresh(relays));
}

#[test]
fn followed_set_round_trip() {
    let (_dir, mut db) = open_temp();
    let followed: Vec<String> = vec![String::from("pk1"), String::from("pk2")];
    db.write_cache_at(Partition::Followed, "me", &followed, 1_000)
        .expect("write");
    let got: CacheRead<Vec<String>> = db
        .read_cache_at(Partition::Followed, "me", 1_000, ReadPolicy::HardMiss)
        .expect("read");
    assert_eq!(got, CacheRead::Fresh(followed));
}

#[test]
fn timeline_snapshot_round_trip() {
    let (_dir, mut db) = open_temp();
    let posts = vec![TimelinePost {
        id: String::from("e".repeat(64)),
        kind: 30023,
        author_pubkey: String::from("a".repeat(64)),
        author_metadata: alice(),
        title: String::from("Title"),
        summary: String::from("Summary…"),
        created_at: 1_700_000_000,
        tags: vec![
            vec![String::from("t"), String::from("rust")],
            vec![String::from("emoji"), String::from("zap"), String::from("https://x/z.png")],
        ],
    }];
    db.write_cache_at(Partition::Timelines, "home", &posts, 1_000)
        .expect("write");
    let got: CacheRead<Vec<TimelinePost>> = db
        .read_cache_at(Partition::Timelines, "home", 1_000, ReadPolicy::HardMiss)
        .expect("read");
    assert_eq!(got, CacheRead::Fresh(posts));
}

#[test]
fn zap_history_round_trip() {
    let (_dir, mut db) = open_temp();
    let zaps = vec![ZapReceipt {
        id: String::from("1".repeat(64)),
        zapper_pubkey: Some(String::from("b".repeat(64))),
        recipient_pubkey: String::from("c".repeat(64)),
        recipient_metadata: alice(),
        amount_msats: 21_000,
        created_at: 1_700_000_001,
        note: String::from("great post ⚡"),
        zapped_event_id: None,
    }];
    db.write_cache_at(Partition::ZapHistory, "me", &zaps, 1_000)
        .expect("write");
    let got: CacheRead<Vec<ZapReceipt>> = db
        .read_cache_at(Partition::ZapHistory, "me", 1_000, ReadPolicy::HardMiss)
        .expect("read");
    assert_eq!(got, CacheRead::Fresh(zaps));
}

#[test]
fn article_round_trip() {
    let (_dir, mut db) = open_temp();
    let article = ArticleFull {
        id: String::from("2".repeat(64)),
        kind: 30023,
        author_pubkey: String::from("d".repeat(64)),
        author_metadata: alice(),
        title: String::from("A long article"),
        content: String::from("# Heading\n\nBody with unicode: 記事 ⚡\n"),
        created_at: 1_700_000_002,
        tags: vec![],
    };
    db.write_cache_at(Partition::Timelines, "article:2", &article, 1_000)
        .expect("write");
    let got: CacheRead<ArticleFull> = db
        .read_cache_at(Partition::Timelines, "article:2", 1_000, ReadPolicy::HardMiss)
        .expect("read");
    assert_eq!(got, CacheRead::Fresh(article));
}

#[test]
fn open_fails_for_unusable_path() {
    let dir = tempfile::tempdir().expect("temp dir");
    let missing = dir.path().join("no-such-dir").join("cache.redb");
    assert!(CacheDb::open(missing.to_str().unwrap()).is_err());
}

#[test]
fn raw_bytes_round_trip() {
    let (_dir, mut db) = open_temp();
    let payload = vec![0u8, 1, 2, 255, 254];
    db.put_bytes(Partition::Images, "raw", &payload).expect("put");
    assert_eq!(db.get_bytes(Partition::Images, "raw"), Some(payload));
    assert_eq!(db.get_bytes(Partition::Images, "other"), None);
}
