use news_service::feed_fetch::{
    list_retry_backoff_secs, next_list_cursor, users_to_process, ItemStep, UserFeedFetch,
};

const NOW: i64 = 1_700_000_000;

#[test]
fn a_first_fetch_has_backfill_limits() {
    let f = UserFeedFetch::new(None, NOW, 5, 30);
    assert!(f.initial_backfill);
    assert_eq!(f.recent_cutoff_ts, NOW - 24 * 3600);
    assert_eq!(f.initial_backfill_cutoff_ts, NOW - 30 * 86400);
    let g = UserFeedFetch::new(Some(String::from("c0")), NOW, 5, 30);
    assert!(!g.initial_backfill);
}

#[test]
fn old_posts_end_the_page() {
    let mut f = UserFeedFetch::new(Some(String::from("c0")), NOW, 5, 30);
    assert_eq!(f.on_feed_item_at(Some(NOW - 10), &Some(String::from("c9"))), ItemStep::Process { last: false });
    assert_eq!(f.newest_cid, Some(String::from("c9")));
    assert_eq!(f.on_feed_item_at(None, &Some(String::from("c8"))), ItemStep::Process { last: false });
    assert_eq!(f.newest_cid, Some(String::from("c9")));
    assert_eq!(f.on_feed_item_at(Some(NOW - 25 * 3600), &Some(String::from("c7"))), ItemStep::Stop);
    assert!(f.reached_recent_cutoff);
    assert_eq!(f.posts_seen, 2);
    assert!(!f.on_page_end(3, Some(String::from("next"))));
    assert_eq!(f.pages_fetched, 1);
}

#[test]
fn the_stored_post_ends_paging() {
    let mut f = UserFeedFetch::new(Some(String::from("c5")), NOW, 5, 30);
    assert_eq!(f.on_feed_item_at(Some(NOW), &Some(String::from("c5"))), ItemStep::Process { last: true });
    assert!(f.reached_last_post);
    // the cursor still advances, but paging stops
    assert!(!f.on_page_end(1, Some(String::from("next"))));
    assert_eq!(f.cursor, Some(String::from("next")));
}

#[test]
fn a_first_fetch_stops_at_its_page_cap() {
    let mut f = UserFeedFetch::new(None, NOW, 2, 30);
    assert!(f.on_page_end(10, Some(String::from("p2"))));
    assert_eq!(f.cursor, Some(String::from("p2")));
    assert!(!f.on_page_end(10, Some(String::from("p3"))));
    assert!(f.reached_initial_backfill_page_cap);
    assert_eq!(f.pages_fetched, 2);
}

#[test]
fn a_first_fetch_stops_at_its_age_cutoff() {
    let mut f = UserFeedFetch::new(None, NOW, 5, 1);
    // older than a day is already past the recent cutoff, which is checked first
    assert_eq!(f.on_feed_item_at(Some(NOW - 2 * 86400), &None), ItemStep::Stop);
    assert!(f.reached_recent_cutoff);
    let mut g = UserFeedFetch::new(None, NOW, 5, 0);
    assert_eq!(g.on_feed_item_at(Some(NOW - 60), &None), ItemStep::Stop);
    assert!(g.reached_initial_backfill_age_cutoff);
    assert!(!g.reached_recent_cutoff);
}

#[test]
fn paging_stops_on_empty_pages_and_stuck_cursors() {
    let mut f = UserFeedFetch::new(Some(String::from("c")), NOW, 5, 30);
    assert!(f.on_page_end(2, Some(String::from("a"))));
    assert!(!f.on_page_end(2, Some(String::from("a"))));
    let mut g = UserFeedFetch::new(Some(String::from("c")), NOW, 5, 30);
    assert!(!g.on_page_end(0, Some(String::from("a"))));
    let mut h = UserFeedFetch::new(Some(String::from("c")), NOW, 5, 30);
    assert!(!h.on_page_end(2, None));
}

#[test]
fn list_paging_and_retries() {
    assert_eq!(next_list_cursor(3, Some(String::from("b")), &Some(String::from("a"))), Some(String::from("b")));
    assert_eq!(next_list_cursor(3, Some(String::from("a")), &Some(String::from("a"))), None);
    assert_eq!(next_list_cursor(0, Some(String::from("b")), &None), None);
    assert_eq!(next_list_cursor(3, None, &None), None);
    assert_eq!(list_retry_backoff_secs(1), Some(1));
    assert_eq!(list_retry_backoff_secs(3), Some(3));
    assert_eq!(list_retry_backoff_secs(4), None);
    assert_eq!(users_to_process(Some(10), 25), 10);
    assert_eq!(users_to_process(Some(40), 25), 25);
    assert_eq!(users_to_process(None, 25), 25);
}
