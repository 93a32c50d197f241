use nostr_cache::records::{ProfileMetadata, TimelinePost};
use nostr_cache::timeline::{contains_id, merge_new_posts, sort_by_recency};

fn post(id: &str, created_at: u64) -> TimelinePost {
    TimelinePost {
        id: String::from(id),
        kind: 30023,
        author_pubkey: String::from("a".repeat(64)),
        author_metadata: ProfileMetadata::default(),
        title: format!("post {id}"),
        summary: String::new(),
        created_at,
        tags: vec![],
    }
}

fn ids(posts: &[TimelinePost]) -> Vec<String> {
    posts.iter().map(|p| p.id.clone()).collect()
}

#[test]
fn merge_appends_only_unseen_ids() {
    let mut timeline = vec![post("a", 10), post("b", 20)];
    let added = merge_new_posts(
        &mut timeline,
        vec![post("b", 20), post("c", 30), post("a", 10), post("d", 5)],
    );
    assert_eq!(added, 2);
    assert_eq!(ids(&timeline), ["a", "b", "c", "d"]);
}

#[test]
fn merge_into_empty_timeline_keeps_order() {
    let mut timeline: Vec<TimelinePost> = vec![];
    let added = merge_new_posts(&mut timeline, vec![post("x", 3), post("y", 1)]);
    assert_eq!(added, 2);
    assert_eq!(ids(&timeline), ["x", "y"]);
}

#[test]
fn merge_drops_duplicates_within_the_batch() {
    let mut timeline: Vec<TimelinePost> = vec![];
    let added = merge_new_posts(&mut timeline, vec![post("x", 3), post("x", 3)]);
    assert_eq!(added, 1);
    assert_eq!(ids(&timeline), ["x"]);
}

#[test]
fn contains_id_finds_only_present_ids() {
    let timeline = vec![post("a", 10), post("b", 20)];
    assert!(contains_id(&timeline, "a"));
    assert!(contains_id(&timeline, "b"));
    assert!(!contains_id(&timeline, "c"));
}

#[test]
fn sort_orders_newest_first() {
    let mut timeline = vec![post("a", 10), post("b", 40), post("c", 20), post("d", 30)];
    sort_by_recency(&mut timeline);
    assert_eq!(ids(&timeline), ["b", "d", "c", "a"]);
}

#[test]
fn sort_keeps_posts_with_equal_times() {
    let mut timeline = vec![post("a", 10), post("b", 10), post("c", 50)];
    sort_by_recency(&mut timeline);
    assert_eq!(timeline.len(), 3);
    assert_eq!(timeline[0].id, "c");
    let mut tail = ids(&timeline[1..]);
    tail.sort();
    assert_eq!(tail, ["a", "b"]);
}

#[test]
fn fetch_merge_sort_scenario() {
    // the timeline already shows two posts; a refresh brings one known and
    // two new posts; afterwards the timeline shows all four, newest first
    let mut timeline = vec![post("old1", 100), post("old2", 300)];
    let added = merge_new_posts(
        &mut timeline,
        vec![post("old2", 300), post("new1", 200), post("new2", 400)],
    );
    sort_by_recency(&mut timeline);
    assert_eq!(added, 2);
    assert_eq!(ids(&timeline), ["new2", "old2", "new1", "old1"]);
}
