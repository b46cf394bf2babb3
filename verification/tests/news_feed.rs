use news_service::news_feed;
use news_service::news_feed::{checked_news_feed_entries, news_feed_entries};
use news_service::decimal::{checked_time_decayed_url_score, time_decayed_url_score, DecimalValue};
use news_service::models::{NewsReferencedUrlQuery, NewsTwitterUser};
use news_service::news_feed::{
    bsky_user_score, calc_user_score, first_feed_decayed_score, first_tweet_index,
    news_feed_url_entry, populate_author_score_map, populate_url_to_tweet_map, url_score_of,
    TweetInfo,
};
use std::collections::HashMap;

fn twitter_user(followers_count: i32, listed_count: i32) -> NewsTwitterUser {
    NewsTwitterUser {
        user_id: 1,
        username: String::from("user"),
        profile_image_url: None,
        description: None,
        verified: None,
        followers_count,
        listed_count,
        user_referenced_tweets_count: None,
        user_score: None,
        last_tweet_id: None,
        last_updated_at: 0,
        last_checked_at: 0,
    }
}

fn referenced(url_id: i32, author_id: i64, user_score: Option<i32>, created_at: i64) -> NewsReferencedUrlQuery {
    NewsReferencedUrlQuery { url_id, author_id, user_score, created_at }
}

#[test]
fn time_decay_with_gravity_one_half() {
    // url_score / (hours + 2)^0.5
    let gravity = DecimalValue::new(5, 1);
    assert_eq!(time_decayed_url_score(gravity, 600, 5), 226);
    assert_eq!(time_decayed_url_score(gravity, 600, 24), 117);
}

#[test]
fn time_decay_with_gravity_four_tenths() {
    let gravity = DecimalValue::new(4, 1);
    assert_eq!(time_decayed_url_score(gravity, 600, 5), 275);
    assert_eq!(time_decayed_url_score(gravity, 600, 10), 222);
}

#[test]
fn news_feed_time_decayed_url_score_test_1() {
    let url_score = 600;
    let hours_since_first_created = 5;
    let time_decayed_url_score = news_feed::time_decayed_url_score(url_score, hours_since_first_created);
    assert_eq!(time_decayed_url_score, 226);
}

#[test]
fn news_feed_time_decayed_url_score_test_2() {
    let url_score = 600;
    let hours_since_first_created = 24;
    let time_decayed_url_score = news_feed::time_decayed_url_score(url_score, hours_since_first_created);
    assert_eq!(time_decayed_url_score, 117);
    assert_eq!(first_feed_decayed_score(600, 24), Some(117));
}

#[test]
fn time_decay_with_whole_gravity_and_negative_score() {
    let gravity = DecimalValue::new(1, 0);
    assert_eq!(checked_time_decayed_url_score(gravity, 600, 5), Some(85));
    assert_eq!(checked_time_decayed_url_score(gravity, -600, 5), Some(-85));
}

#[test]
fn time_decay_fails_on_zero_time() {
    // (-2 + 2)^1 is zero: the division fails
    let gravity = DecimalValue::new(1, 0);
    assert_eq!(checked_time_decayed_url_score(gravity, 600, -2), None);
}

#[test]
fn user_score_brackets() {
    assert_eq!(calc_user_score(&twitter_user(0, 0), 0), 300);
    assert_eq!(calc_user_score(&twitter_user(1001, 501), 26), 450);
    assert_eq!(calc_user_score(&twitter_user(10001, 1001), 51), 600);
    assert_eq!(calc_user_score(&twitter_user(100001, 5001), 76), 750);
    assert_eq!(calc_user_score(&twitter_user(1000001, 5001), 101), 850);
    assert_eq!(calc_user_score(&twitter_user(1000, 500), 25), 300);
}

#[test]
fn bsky_user_score_is_thousands_of_followers_at_least_one() {
    assert_eq!(bsky_user_score(0), 1);
    assert_eq!(bsky_user_score(999), 1);
    assert_eq!(bsky_user_score(2500), 2);
    assert_eq!(bsky_user_score(-5000), 1);
}

#[test]
fn author_scores_keep_the_last_score() {
    let refs = vec![
        referenced(1, 10, Some(5), 100),
        referenced(2, 11, None, 100),
        referenced(3, 10, Some(7), 100),
    ];
    let m = populate_author_score_map(&Some(refs));
    assert_eq!(m.len(), 2);
    assert_eq!(m.get(&10), Some(&7));
    assert_eq!(m.get(&11), Some(&0));
    assert!(populate_author_score_map(&None).is_empty());
}

#[test]
fn url_sharings_keep_one_per_author() {
    let refs = vec![
        referenced(1, 10, Some(5), 300),
        referenced(1, 11, Some(5), 200),
        referenced(1, 10, Some(5), 100),
        referenced(2, 12, Some(5), 50),
    ];
    let m = populate_url_to_tweet_map(&Some(refs));
    assert_eq!(m.len(), 2);
    assert_eq!(
        m.get(&1).unwrap(),
        &vec![TweetInfo { author_id: 10, created_at: 300 }, TweetInfo { author_id: 11, created_at: 200 }]
    );
    assert_eq!(m.get(&2).unwrap(), &vec![TweetInfo { author_id: 12, created_at: 50 }]);
    assert!(populate_url_to_tweet_map(&None).is_empty());
}

#[test]
fn first_tweet_is_the_earliest_first_among_ties() {
    let tweets = vec![
        TweetInfo { author_id: 1, created_at: 30 },
        TweetInfo { author_id: 2, created_at: 10 },
        TweetInfo { author_id: 3, created_at: 10 },
    ];
    assert_eq!(first_tweet_index(&tweets), 1);
}

#[test]
fn news_feed_entry_sums_scores_and_decays() {
    let tweets = vec![
        TweetInfo { author_id: 1, created_at: 7200 },
        TweetInfo { author_id: 2, created_at: 3600 },
    ];
    let mut scores: HashMap<i64, i32> = HashMap::new();
    scores.insert(1, 400);
    scores.insert(2, 200);
    assert_eq!(url_score_of(&tweets, &scores), 600);
    // now is 6 hours after the earliest sharing, minus one second: 5 whole hours
    let now = 3600 + 6 * 3600 - 1;
    let entry = news_feed_url_entry(9, &tweets, &scores, DecimalValue::new(5, 1), now, String::from("t"))
        .unwrap();
    assert_eq!(entry.url_id, 9);
    assert_eq!(entry.url_score, 226);
    assert_eq!(entry.num_references, 2);
    assert_eq!(entry.first_referenced_by, 2);
    assert_eq!(entry.created_at, 3600);
    assert_eq!(entry.created_at_str, "t");
}

#[test]
fn link_sharings_have_scored_authors_and_no_more_rows() {
    let refs = vec![
        referenced(1, 10, Some(5), 300),
        referenced(1, 11, None, 200),
        referenced(1, 10, Some(6), 100),
        referenced(2, 12, Some(5), 50),
        referenced(2, 12, Some(5), 40),
    ];
    let rows = refs.len();
    let refs = Some(refs);
    let scores = populate_author_score_map(&refs);
    let links = populate_url_to_tweet_map(&refs);
    let mut total = 0;
    for tweets in links.values() {
        for t in tweets {
            assert!(scores.contains_key(&t.author_id));
        }
        total += tweets.len();
    }
    assert_eq!(total, 3);
    assert!(total <= rows);
}

#[test]
fn news_feed_entries_follow_first_sharing_order() {
    let refs = Some(vec![
        referenced(7, 1, Some(400), 7200),
        referenced(3, 2, Some(200), 3600),
        referenced(7, 2, Some(200), 3600),
    ]);
    let now = 3600 + 6 * 3600 - 1;
    let feed = news_feed_entries(&refs, DecimalValue::new(5, 1), now);
    assert_eq!(feed.len(), 2);
    assert_eq!(feed[0].url_id, 7);
    assert_eq!(feed[0].url_score, 226);
    assert_eq!(feed[0].num_references, 2);
    assert_eq!(feed[0].first_referenced_by, 2);
    assert_eq!(feed[0].created_at_str, "1970-01-01T01:00:00+00:00");
    assert_eq!(feed[1].url_id, 3);
    assert_eq!(feed[1].num_references, 1);
    let overflow = Some(vec![referenced(1, 1, Some(i32::MAX), 0), referenced(1, 2, Some(1), 0)]);
    assert!(checked_news_feed_entries(&overflow, DecimalValue::new(5, 1), 10).is_none());
    assert_eq!(checked_news_feed_entries(&None, DecimalValue::new(5, 1), 10).unwrap().len(), 0);
}
