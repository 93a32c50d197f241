use nostr_cache::cache::{CacheRead, ReadPolicy};
use nostr_cache::records::ProfileMetadata;
use nostr_cache::refresh::{apply_image_fetch, apply_record_fetch, decide_image_plan,
    image_state_after, plan_image_load, ImagePlan, RefreshTable};
use nostr_cache::store::{CacheDb, Partition};
use nostr_cache::types::ImageState;

fn open_store() -> (tempfile::TempDir, CacheDb) {
    let dir = tempfile::tempdir().expect("temp dir");
    let path = dir.path().join("cache.redb");
    let db = CacheDb::open(path.to_str().unwrap()).expect("open store");
    (dir, db)
}

fn named(name: &str) -> ProfileMetadata {
    let mut p = ProfileMetadata::default();
    p.name = String::from(name);
    p
}

#[test]
fn only_one_fetch_starts_per_key() {
    let mut table = RefreshTable::new();
    assert!(table.begin_fetch("key"));
    // a second request for the same key observes the in-flight fetch
    assert!(!table.begin_fetch("key"));
    assert!(table.is_fetching("key"));
    // a different key is independent
    assert!(table.begin_fetch("other"));
}

#[test]
fn finish_makes_the_key_idle_again() {
    let mut table = RefreshTable::new();
    assert!(table.begin_fetch("key"));
    table.finish_fetch("key");
    assert!(!table.is_fetching("key"));
    assert!(table.begin_fetch("key"));
}

#[test]
fn two_refresh_tasks_one_fetch_last_write_wins() {
    let (_dir, mut db) = open_store();
    let mut table = RefreshTable::new();

    // both tasks ask; only the first is told to fetch
    let first_fetches = table.begin_fetch("abc");
    let second_fetches = table.begin_fetch("abc");
    assert!(first_fetches);
    assert!(!second_fetches);

    // the one fetch completes, then a later explicit refresh completes too;
    // the cache reflects the last successful write
    apply_record_fetch(&mut db, &mut table, Partition::Profiles, "abc", Some(&named("v1")), 100)
        .expect("apply");
    assert!(table.begin_fetch("abc"));
    apply_record_fetch(&mut db, &mut table, Partition::Profiles, "abc", Some(&named("v2")), 200)
        .expect("apply");

    let got: CacheRead<ProfileMetadata> = db
        .read_cache_at(Partition::Profiles, "abc", 200, ReadPolicy::HardMiss)
        .expect("read");
    assert_eq!(got, CacheRead::Fresh(named("v2")));
    assert!(!table.is_fetching("abc"));
}

#[test]
fn failed_refresh_never_overwrites_the_cached_value() {
    let (_dir, mut db) = open_store();
    let mut table = RefreshTable::new();
    db.write_cache_at(Partition::Profiles, "abc", &named("kept"), 100)
        .expect("write");

    assert!(table.begin_fetch("abc"));
    let r = apply_record_fetch::<ProfileMetadata>(
        &mut db,
        &mut table,
        Partition::Profiles,
        "abc",
        None,
        200,
    );
    assert!(r.is_ok());
    assert!(!table.is_fetching("abc"));

    let got: CacheRead<ProfileMetadata> = db
        .read_cache_at(Partition::Profiles, "abc", 200, ReadPolicy::HardMiss)
        .expect("read");
    assert_eq!(got, CacheRead::Fresh(named("kept")));
}

#[test]
fn image_plan_fetches_once_then_serves_from_cache() {
    let (_dir, mut db) = open_store();
    let mut table = RefreshTable::new();
    let url = "https://x/y.png";
    let bytes = vec![9u8, 8, 7];

    // nothing cached, nothing in flight: this caller fetches
    assert_eq!(plan_image_load(&db, &mut table, url, false), ImagePlan::StartFetch);
    // meanwhile a second caller is told nothing needs doing
    assert_eq!(plan_image_load(&db, &mut table, url, false), ImagePlan::AlreadyTracked);

    // the fetch completes and stores the bytes
    apply_image_fetch(&mut db, &mut table, url, Some(&bytes)).expect("apply");

    // from now on the store serves the image without a fetch
    assert_eq!(
        plan_image_load(&db, &mut table, url, false),
        ImagePlan::UseCached(bytes.clone())
    );
    assert!(!table.is_fetching(url));
    assert_eq!(db.load_image(url), Some(bytes));
}

#[test]
fn image_decision_is_cache_first() {
    let bytes = vec![1u8, 2];
    assert_eq!(
        decide_image_plan(false, false, Some(bytes.clone())),
        ImagePlan::UseCached(bytes.clone())
    );
    assert_eq!(decide_image_plan(false, false, None), ImagePlan::StartFetch);
    assert_eq!(decide_image_plan(true, false, Some(bytes.clone())), ImagePlan::AlreadyTracked);
    assert_eq!(decide_image_plan(false, true, Some(bytes)), ImagePlan::AlreadyTracked);
    assert_eq!(decide_image_plan(true, true, None), ImagePlan::AlreadyTracked);
}

#[test]
fn image_plan_leaves_mirrored_urls_alone() {
    let (_dir, db) = open_store();
    let mut table = RefreshTable::new();
    assert_eq!(
        plan_image_load(&db, &mut table, "https://x/y.png", true),
        ImagePlan::AlreadyTracked
    );
    assert!(!table.is_fetching("https://x/y.png"));
}

#[test]
fn failed_image_fetch_stores_nothing() {
    let (_dir, mut db) = open_store();
    let mut table = RefreshTable::new();
    let url = "https://x/y.png";
    assert!(table.begin_fetch(url));
    apply_image_fetch(&mut db, &mut table, url, None).expect("apply");
    assert_eq!(db.load_image(url), None);
    assert!(!table.is_fetching(url));
}

#[test]
fn image_state_after_fetch() {
    assert_eq!(image_state_after(true, true), ImageState::Loaded);
    assert_eq!(image_state_after(true, false), ImageState::Failed);
    assert_eq!(image_state_after(false, true), ImageState::Failed);
    assert_eq!(image_state_after(false, false), ImageState::Failed);
}
