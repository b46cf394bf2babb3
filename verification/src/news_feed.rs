//! Scoring of the links shared by followed authors: author scores, the
//! sharings of each link, and the time-decayed score of a link.

use vstd::prelude::*;
use std::collections::HashMap;
use crate::decimal::{DecimalValue, decayed_score_spec, checked_time_decayed_url_score};
use crate::decimal;
use crate::models::{NewsFeedUrl, NewsReferencedUrlQuery, NewsTwitterUser};

verus! {

broadcast use vstd::std_specs::hash::group_hash_axioms;

/// Basic information about one sharing of a link, used for its score.
#[derive(Hash, Eq, PartialEq, Debug, Clone, Copy)]
pub struct TweetInfo {
    pub author_id: i64,
    pub created_at: i64,
}

pub open spec fn followers_score(followers_count: int) -> int {
    if followers_count > 1000000 {
        300
    } else if followers_count > 100000 {
        250
    } else if followers_count > 10000 {
        200
    } else if followers_count > 1000 {
        150
    } else {
        100
    }
}

pub open spec fn listed_score(listed_count: int) -> int {
    if listed_count > 5000 {
        250
    } else if listed_count > 1000 {
        200
    } else if listed_count > 500 {
        150
    } else {
        100
    }
}

pub open spec fn referenced_tweets_score(count: int) -> int {
    if count > 100 {
        300
    } else if count > 75 {
        250
    } else if count > 50 {
        200
    } else if count > 25 {
        150
    } else {
        100
    }
}

pub open spec fn user_score_spec(followers_count: int, listed_count: int, referenced: int) -> int {
    followers_score(followers_count) + listed_score(listed_count) + referenced_tweets_score(
        referenced,
    )
}

/// Score of a Twitter author from followers, list memberships and how often
/// the author's tweets are referenced.
pub fn calc_user_score(news_twitter_user: &NewsTwitterUser, user_referenced_tweets_count: i32) -> (score: i32)
    ensures
        score == user_score_spec(
            news_twitter_user.followers_count as int,
            news_twitter_user.listed_count as int,
            user_referenced_tweets_count as int,
        ),
{
    let followers_count = news_twitter_user.followers_count;
    let followers_score: i32 = if followers_count > 1000000 {
        300
    } else if followers_count > 100000 {
        250
    } else if followers_count > 10000 {
        200
    } else if followers_count > 1000 {
        150
    } else {
        100
    };
    let listed_count = news_twitter_user.listed_count;
    let listed_score: i32 = if listed_count > 5000 {
        250
    } else if listed_count > 1000 {
        200
    } else if listed_count > 500 {
        150
    } else {
        100
    };
    let user_referenced_tweets_score: i32 = if user_referenced_tweets_count > 100 {
        300
    } else if user_referenced_tweets_count > 75 {
        250
    } else if user_referenced_tweets_count > 50 {
        200
    } else if user_referenced_tweets_count > 25 {
        150
    } else {
        100
    };
    followers_score + listed_score + user_referenced_tweets_score
}

/// Law: an author's score lies between 300 and 850, and never falls when any of
/// followers, list memberships or references grows.
pub proof fn lemma_user_score_bounds_and_monotone(f1: int, l1: int, r1: int, f2: int, l2: int, r2: int)
    requires
        f1 <= f2,
        l1 <= l2,
        r1 <= r2,
    ensures
        300 <= user_score_spec(f1, l1, r1) <= 850,
        user_score_spec(f1, l1, r1) <= user_score_spec(f2, l2, r2),
{
}

/// Law: the score is the sum of three independent parts. With followers and
/// references fixed, list memberships count 50 more for each of the marks
/// 500, 1000 and 5000 they pass, and nothing more within a band.
pub proof fn lemma_user_score_listed_steps(f: int, r: int, l1: int, l2: int)
    requires
        l1 <= l2,
    ensures
        l1 <= 500 && 500 < l2 <= 1000 ==> user_score_spec(f, l2, r) == user_score_spec(f, l1, r) + 50,
        l1 <= 500 && 1000 < l2 <= 5000 ==> user_score_spec(f, l2, r) == user_score_spec(f, l1, r) + 100,
        l1 <= 500 && 5000 < l2 ==> user_score_spec(f, l2, r) == user_score_spec(f, l1, r) + 150,
        500 < l1 <= 1000 && 1000 < l2 <= 5000 ==> user_score_spec(f, l2, r) == user_score_spec(f, l1, r) + 50,
        1000 < l1 <= 5000 && 5000 < l2 ==> user_score_spec(f, l2, r) == user_score_spec(f, l1, r) + 50,
        (l2 <= 500 || (500 < l1 && l2 <= 1000) || (1000 < l1 && l2 <= 5000) || 5000 < l1)
            ==> user_score_spec(f, l2, r) == user_score_spec(f, l1, r),
{
}

/// Law: with followers and list memberships fixed, references count 50 more
/// for each of the marks 25, 50, 75 and 100 they pass, and nothing more
/// within a band.
pub proof fn lemma_user_score_references_steps(f: int, l: int, r1: int, r2: int)
    requires
        r1 <= r2,
    ensures
        r1 <= 25 && 25 < r2 <= 50 ==> user_score_spec(f, l, r2) == user_score_spec(f, l, r1) + 50,
        r1 <= 25 && 50 < r2 <= 75 ==> user_score_spec(f, l, r2) == user_score_spec(f, l, r1) + 100,
        r1 <= 25 && 75 < r2 <= 100 ==> user_score_spec(f, l, r2) == user_score_spec(f, l, r1) + 150,
        r1 <= 25 && 100 < r2 ==> user_score_spec(f, l, r2) == user_score_spec(f, l, r1) + 200,
        25 < r1 <= 50 && 50 < r2 <= 75 ==> user_score_spec(f, l, r2) == user_score_spec(f, l, r1) + 50,
        50 < r1 <= 75 && 75 < r2 <= 100 ==> user_score_spec(f, l, r2) == user_score_spec(f, l, r1) + 50,
        75 < r1 <= 100 && 100 < r2 ==> user_score_spec(f, l, r2) == user_score_spec(f, l, r1) + 50,
        (r2 <= 25 || (25 < r1 && r2 <= 50) || (50 < r1 && r2 <= 75) || (75 < r1 && r2 <= 100) || 100 < r1)
            ==> user_score_spec(f, l, r2) == user_score_spec(f, l, r1),
{
}

/// Law: with list memberships and references fixed, followers count 50 more
/// for each of the marks 1000, 10000, 100000 and 1000000 they pass, and
/// nothing more within a band.
pub proof fn lemma_user_score_followers_steps(l: int, r: int, f1: int, f2: int)
    requires
        f1 <= f2,
    ensures
        f1 <= 1000 && 1000 < f2 <= 10000 ==> user_score_spec(f2, l, r) == user_score_spec(f1, l, r) + 50,
        f1 <= 1000 && 10000 < f2 <= 100000 ==> user_score_spec(f2, l, r) == user_score_spec(f1, l, r) + 100,
        f1 <= 1000 && 100000 < f2 <= 1000000 ==> user_score_spec(f2, l, r) == user_score_spec(f1, l, r) + 150,
        f1 <= 1000 && 1000000 < f2 ==> user_score_spec(f2, l, r) == user_score_spec(f1, l, r) + 200,
        1000 < f1 <= 10000 && 10000 < f2 <= 100000 ==> user_score_spec(f2, l, r) == user_score_spec(f1, l, r) + 50,
        10000 < f1 <= 100000 && 100000 < f2 <= 1000000 ==> user_score_spec(f2, l, r) == user_score_spec(f1, l, r) + 50,
        100000 < f1 <= 1000000 && 1000000 < f2 ==> user_score_spec(f2, l, r) == user_score_spec(f1, l, r) + 50,
        (f2 <= 1000 || (1000 < f1 && f2 <= 10000) || (10000 < f1 && f2 <= 100000) || (100000 < f1 && f2 <= 1000000) || 1000000 < f1)
            ==> user_score_spec(f2, l, r) == user_score_spec(f1, l, r),
{
}

/// Law: the lowest score, 300, is that of an author with at most 1000
/// followers, 500 list memberships and 25 references.
pub proof fn lemma_user_score_lowest(f: int, l: int, r: int)
    requires
        f <= 1000,
        l <= 500,
        r <= 25,
    ensures
        user_score_spec(f, l, r) == 300,
{
}

/// Law: for a Bluesky author with at least 1000 followers, the score is the
/// number of whole thousands of followers, with no cap: `1000 * score` is at
/// most the followers and `1000 * (score + 1)` more, and a thousand more
/// followers give one point more. Fewer than 2000 followers give 1.
pub proof fn lemma_bsky_user_score_thousands(f: int)
    requires
        f >= 0,
    ensures
        f >= 1000 ==> 1000 * bsky_user_score_spec(f) <= f < 1000 * (bsky_user_score_spec(f) + 1),
        f >= 1000 ==> bsky_user_score_spec(f + 1000) == bsky_user_score_spec(f) + 1,
        f < 2000 ==> bsky_user_score_spec(f) == 1,
{
}

/// Score of a Bluesky author: a point per thousand followers, at least one.
pub open spec fn bsky_user_score_spec(followers_count: int) -> int {
    let s = followers_count / 1000;
    if s >= 1 {
        s
    } else {
        1
    }
}

/// Score of a Bluesky author from its follower count.
pub fn bsky_user_score(followers_count: i32) -> (score: i32)
    ensures
        score as int == (if followers_count >= 0 {
            bsky_user_score_spec(followers_count as int)
        } else {
            1
        }),
{
    let s = followers_count / 1000;
    if s >= 1 {
        s
    } else {
        1
    }
}

/// The score of each author: the score given with the author's last sharing
/// (none counts as 0).
pub open spec fn author_scores(refs: Seq<NewsReferencedUrlQuery>) -> Map<i64, i32>
    decreases refs.len(),
{
    if refs.len() == 0 {
        Map::empty()
    } else {
        let r = refs.last();
        author_scores(refs.drop_last()).insert(
            r.author_id,
            match r.user_score {
                Some(s) => s,
                None => 0i32,
            },
        )
    }
}

pub open spec fn opt_refs(refs: Option<Vec<NewsReferencedUrlQuery>>) -> Seq<NewsReferencedUrlQuery> {
    match refs {
        Some(v) => v@,
        None => Seq::empty(),
    }
}

/// Map of author id to the author's score.
pub fn populate_author_score_map(news_referenced_urls: &Option<Vec<NewsReferencedUrlQuery>>) -> (m: HashMap<i64, i32>)
    ensures
        m@ == author_scores(opt_refs(*news_referenced_urls)),
{
    let mut author_score_map: HashMap<i64, i32> = HashMap::new();
    match news_referenced_urls {
        Some(refs) => {
            let mut i: usize = 0;
            while i < refs.len()
                invariant
                    i <= refs.len(),
                    author_score_map@ == author_scores(refs@.take(i as int)),
                decreases refs.len() - i,
            {
                assert(refs@.take(i + 1).drop_last() =~= refs@.take(i as int));
                let r = &refs[i];
                let user_score = match r.user_score {
                    Some(us) => us,
                    None => 0,
                };
                author_score_map.insert(r.author_id, user_score);
                i = i + 1;
            }
            assert(refs@.take(i as int) =~= refs@);
        },
        None => {},
    }
    author_score_map
}

pub open spec fn has_author(tweets: Seq<TweetInfo>, author_id: i64) -> bool {
    exists|i: int| 0 <= i < tweets.len() && tweets[i].author_id == author_id
}

pub open spec fn tweet_info_of(r: NewsReferencedUrlQuery) -> TweetInfo {
    TweetInfo { author_id: r.author_id, created_at: r.created_at }
}

/// The sharings of each link, in order, keeping only the first sharing by each author.
pub open spec fn url_tweets(refs: Seq<NewsReferencedUrlQuery>) -> Map<i32, Seq<TweetInfo>>
    decreases refs.len(),
{
    if refs.len() == 0 {
        Map::empty()
    } else {
        let m = url_tweets(refs.drop_last());
        let r = refs.last();
        if m.contains_key(r.url_id) {
            if has_author(m[r.url_id], r.author_id) {
                m
            } else {
                m.insert(r.url_id, m[r.url_id].push(tweet_info_of(r)))
            }
        } else {
            m.insert(r.url_id, seq![tweet_info_of(r)])
        }
    }
}

/// The contents of a map of vectors, each vector taken as a sequence.
pub open spec fn vec_map_view(m: Map<i32, Vec<TweetInfo>>) -> Map<i32, Seq<TweetInfo>> {
    Map::new(|k: i32| m.contains_key(k), |k: i32| m[k]@)
}

fn has_author_exec(tweets: &Vec<TweetInfo>, author_id: i64) -> (b: bool)
    ensures
        b == has_author(tweets@, author_id),
{
    let mut i: usize = 0;
    while i < tweets.len()
        invariant
            i <= tweets.len(),
            forall|j: int| 0 <= j < i ==> tweets@[j].author_id != author_id,
        decreases tweets.len() - i,
    {
        if tweets[i].author_id == author_id {
            return true;
        }
        i = i + 1;
    }
    false
}

/// Map of link id to the sharings of that link, at most one per author.
pub fn populate_url_to_tweet_map(news_referenced_urls: &Option<Vec<NewsReferencedUrlQuery>>) -> (m: HashMap<i32, Vec<TweetInfo>>)
    ensures
        vec_map_view(m@) == url_tweets(opt_refs(*news_referenced_urls)),
{
    let mut url_to_tweet_map: HashMap<i32, Vec<TweetInfo>> = HashMap::new();
    assert(vec_map_view(url_to_tweet_map@) =~= Map::<i32, Seq<TweetInfo>>::empty());
    match news_referenced_urls {
        Some(refs) => {
            let mut i: usize = 0;
            while i < refs.len()
                invariant
                    i <= refs.len(),
                    vec_map_view(url_to_tweet_map@) == url_tweets(refs@.take(i as int)),
                decreases refs.len() - i,
            {
                assert(refs@.take(i + 1).drop_last() =~= refs@.take(i as int));
                let r = &refs[i];
                let url_id = r.url_id;
                let author_id = r.author_id;
                let tweet_info = TweetInfo { author_id, created_at: r.created_at };
                let ghost before = url_to_tweet_map@;
                let ghost spec_before = url_tweets(refs@.take(i as int));
                match url_to_tweet_map.remove(&url_id) {
                    Some(mut tweet_info_vec) => {
                        assert(before.contains_key(url_id));
                        assert(tweet_info_vec@ == spec_before[url_id]);
                        if !has_author_exec(&tweet_info_vec, author_id) {
                            tweet_info_vec.push(tweet_info);
                        }
                        url_to_tweet_map.insert(url_id, tweet_info_vec);
                    },
                    None => {
                        let mut v: Vec<TweetInfo> = Vec::new();
                        v.push(tweet_info);
                        url_to_tweet_map.insert(url_id, v);
                        assert(v@ =~= seq![tweet_info]);
                    },
                }
                assert(vec_map_view(url_to_tweet_map@) =~= url_tweets(refs@.take(i + 1)));
                i = i + 1;
            }
            assert(refs@.take(i as int) =~= refs@);
        },
        None => {},
    }
    url_to_tweet_map
}

/// Sum of the scores of the authors of the given sharings.
pub open spec fn score_sum(tweets: Seq<TweetInfo>, scores: Map<i64, i32>) -> int
    decreases tweets.len(),
{
    if tweets.len() == 0 {
        0
    } else {
        score_sum(tweets.drop_last(), scores) + scores[tweets.last().author_id] as int
    }
}

/// `k` is the earliest sharing, the first one in order among equally early ones.
pub open spec fn is_first_tweet(tweets: Seq<TweetInfo>, k: int) -> bool {
    &&& 0 <= k < tweets.len()
    &&& forall|j: int| 0 <= j < tweets.len() ==> tweets[k].created_at <= #[trigger] tweets[j].created_at
    &&& forall|j: int| 0 <= j < k ==> tweets[k].created_at < #[trigger] tweets[j].created_at
}

/// Position of the earliest sharing; the first one among equally early ones.
pub fn first_tweet_index(tweets: &Vec<TweetInfo>) -> (k: usize)
    requires
        tweets.len() > 0,
    ensures
        is_first_tweet(tweets@, k as int),
{
    let mut k: usize = 0;
    let mut i: usize = 1;
    while i < tweets.len()
        invariant
            1 <= i <= tweets.len(),
            k < i,
            forall|j: int| 0 <= j < i ==> tweets@[k as int].created_at <= #[trigger] tweets@[j].created_at,
            forall|j: int| 0 <= j < k ==> tweets@[k as int].created_at < #[trigger] tweets@[j].created_at,
        decreases tweets.len() - i,
    {
        if tweets[i].created_at < tweets[k].created_at {
            k = i;
        }
        i = i + 1;
    }
    k
}

/// Integer division of `a` by `b > 0` rounded toward zero, as Rust's `/` does.
pub open spec fn div_toward_zero(a: int, b: int) -> int {
    if a >= 0 {
        a / b
    } else {
        -((-a) / b)
    }
}

pub const SECONDS_IN_HOUR: i64 = 3600;

/// Whole hours from `created_at` to `now`, counted as Rust's `/` counts.
pub open spec fn hours_between(created_at: int, now: int) -> int {
    div_toward_zero(now - created_at, SECONDS_IN_HOUR as int)
}

/// Every partial sum of the author scores of `tweets` fits in an `i32`.
pub open spec fn partial_sums_fit(tweets: Seq<TweetInfo>, scores: Map<i64, i32>) -> bool {
    forall|k: int| 0 <= k <= tweets.len() ==> i32::MIN <= #[trigger] score_sum(tweets.take(k), scores) <= i32::MAX
}

/// What a link's sharings are to the feed: the preconditions under which the
/// feed entry of a link is computed.
pub open spec fn entry_inputs_ok(tweets: Seq<TweetInfo>, scores: Map<i64, i32>, now: int) -> bool {
    &&& 0 < tweets.len()
    &&& forall|i: int| 0 <= i < tweets.len() ==> scores.contains_key(#[trigger] tweets[i].author_id)
    &&& forall|i: int| 0 <= i < tweets.len() ==> i64::MIN <= now - #[trigger] tweets[i].created_at <= i64::MAX
    &&& partial_sums_fit(tweets, scores)
}

/// Sum of the author scores of a link's sharings.
pub fn url_score_of(tweets: &Vec<TweetInfo>, author_score_map: &HashMap<i64, i32>) -> (s: i32)
    requires
        forall|i: int| 0 <= i < tweets.len() ==> author_score_map@.contains_key(#[trigger] tweets@[i].author_id),
        partial_sums_fit(tweets@, author_score_map@),
    ensures
        s as int == score_sum(tweets@, author_score_map@),
{
    let mut sum: i32 = 0;
    let mut i: usize = 0;
    while i < tweets.len()
        invariant
            i <= tweets.len(),
            forall|j: int| 0 <= j < tweets.len() ==> author_score_map@.contains_key(#[trigger] tweets@[j].author_id),
            partial_sums_fit(tweets@, author_score_map@),
            sum as int == score_sum(tweets@.take(i as int), author_score_map@),
        decreases tweets.len() - i,
    {
        assert(tweets@.take(i + 1).drop_last() =~= tweets@.take(i as int));
        assert(score_sum(tweets@.take(i + 1), author_score_map@) == score_sum(tweets@.take(i as int), author_score_map@)
            + author_score_map@[tweets@[i as int].author_id]);
        let author_id = tweets[i].author_id;
        let score: i32 = match author_score_map.get(&author_id) {
            Some(v) => *v,
            None => {
                proof {
                    assert(author_score_map@.contains_key(tweets@[i as int].author_id));
                }
                0
            },
        };
        assert(i32::MIN <= score_sum(tweets@.take(i + 1), author_score_map@) <= i32::MAX);
        sum = sum + score;
        i = i + 1;
    }
    assert(tweets@.take(i as int) =~= tweets@);
    sum
}

/// The earliest sharing, the first one among equally early ones.
pub open spec fn first_tweet(tweets: Seq<TweetInfo>) -> TweetInfo {
    tweets[choose|k: int| is_first_tweet(tweets, k)]
}

/// The decayed score of a link with these sharings, or `None` where the
/// decimal computation fails.
pub open spec fn entry_decay(tweets: Seq<TweetInfo>, scores: Map<i64, i32>, gravity: DecimalValue, now: i64) -> Option<i32> {
    decayed_score_spec(
        gravity,
        score_sum(tweets, scores) as i32,
        hours_between(first_tweet(tweets).created_at as int, now as int) as i64,
    )
}

/// `u` is the feed entry of link `url_id` with these sharings, whose earliest
/// sharing's time reads `created_at_str`.
pub open spec fn entry_fields(
    u: NewsFeedUrl,
    url_id: i32,
    tweets: Seq<TweetInfo>,
    scores: Map<i64, i32>,
    gravity: DecimalValue,
    now: i64,
    created_at_str: Seq<char>,
) -> bool {
    &&& Some(u.url_score) == entry_decay(tweets, scores, gravity, now)
    &&& u.url_id == url_id
    &&& u.num_references == tweets.len() as i32
    &&& u.first_referenced_by == first_tweet(tweets).author_id
    &&& u.created_at == first_tweet(tweets).created_at
    &&& u.created_at_str@ == created_at_str
}

/// The feed entry of link `url_id`: its score summed over the sharing authors
/// and decayed by the hours since the earliest sharing, its number of sharings,
/// and who shared it first and when. `created_at_str` is the text form of the
/// earliest sharing's time. `None` where the decimal computation of the decay
/// fails.
pub fn news_feed_url_entry(
    url_id: i32,
    tweets: &Vec<TweetInfo>,
    author_score_map: &HashMap<i64, i32>,
    gravity: DecimalValue,
    now: i64,
    created_at_str: String,
) -> (r: Option<NewsFeedUrl>)
    requires
        gravity.wf(),
        entry_inputs_ok(tweets@, author_score_map@, now as int),
    ensures
        exists|k: int| is_first_tweet(tweets@, k),
        r is None <==> entry_decay(tweets@, author_score_map@, gravity, now) is None,
        r matches Some(u) ==> entry_fields(u, url_id, tweets@, author_score_map@, gravity, now, created_at_str@),
{
    let url_score = url_score_of(tweets, author_score_map);
    let k = first_tweet_index(tweets);
    let first = tweets[k];
    proof {
        lemma_first_tweet_unique(tweets@, k as int);
    }
    let time_since_first_created: i64 = now - first.created_at;
    let hours_since_first_created: i64 = time_since_first_created / SECONDS_IN_HOUR;
    match checked_time_decayed_url_score(gravity, url_score, hours_since_first_created) {
        Some(time_decayed_url_score) => {
            let num_references = tweets.len() as i32;
            Some(NewsFeedUrl {
                url_id,
                url_score: time_decayed_url_score,
                num_references,
                first_referenced_by: first.author_id,
                created_at: first.created_at,
                created_at_str,
            })
        },
        None => None,
    }
}

/// There is exactly one earliest-first sharing.
proof fn lemma_first_tweet_unique(tweets: Seq<TweetInfo>, k: int)
    requires
        is_first_tweet(tweets, k),
    ensures
        forall|m: int| is_first_tweet(tweets, m) ==> m == k,
{
    assert forall|m: int| is_first_tweet(tweets, m) implies m == k by {
        if m < k {
            assert(tweets[k].created_at < tweets[m].created_at);
            assert(tweets[m].created_at <= tweets[k].created_at);
        } else if k < m {
            assert(tweets[m].created_at < tweets[k].created_at);
            assert(tweets[k].created_at <= tweets[m].created_at);
        }
    }
}

/// The gravity of the first feed: `0.5`.
pub open spec fn first_feed_gravity() -> DecimalValue {
    DecimalValue { mantissa: 5, scale: 1 }
}

/// The time-decayed score of the first feed, with gravity `0.5`.
pub fn time_decayed_url_score(url_score: i32, hours_since_first_created: i64) -> (r: i32)
    requires
        decayed_score_spec(first_feed_gravity(), url_score, hours_since_first_created) is Some,
    ensures
        Some(r) == decayed_score_spec(first_feed_gravity(), url_score, hours_since_first_created),
{
    let gravity = DecimalValue::new(5, 1);
    decimal::time_decayed_url_score(gravity, url_score, hours_since_first_created)
}

/// The time-decayed score of the first feed, or `None` where the decimal
/// computation fails.
pub fn first_feed_decayed_score(url_score: i32, hours_since_first_created: i64) -> (r: Option<i32>)
    ensures
        r == decayed_score_spec(first_feed_gravity(), url_score, hours_since_first_created),
{
    let gravity = DecimalValue::new(5, 1);
    match checked_time_decayed_url_score(gravity, url_score, hours_since_first_created) {
        Some(_) => Some(time_decayed_url_score(url_score, hours_since_first_created)),
        None => None,
    }
}

/// Law: every link that some sharing names has its list of sharings, and
/// only those links; each list is non-empty, names each author once, and
/// holds only sharings of that link.
pub proof fn lemma_url_tweets_well_formed(refs: Seq<NewsReferencedUrlQuery>)
    ensures
        forall|k: i32| url_tweets(refs).contains_key(k) <==> exists|j: int| 0 <= j < refs.len() && #[trigger] refs[j].url_id == k,
        forall|k: i32| #[trigger] url_tweets(refs).contains_key(k) ==> url_tweets(refs)[k].len() > 0,
        forall|k: i32, a: int, b: int|
            #![trigger url_tweets(refs)[k][a], url_tweets(refs)[k][b]]
            url_tweets(refs).contains_key(k) && 0 <= a < b < url_tweets(refs)[k].len()
                ==> url_tweets(refs)[k][a].author_id != url_tweets(refs)[k][b].author_id,
        forall|k: i32, a: int|
            url_tweets(refs).contains_key(k) && 0 <= a < url_tweets(refs)[k].len() ==> exists|j: int|
                0 <= j < refs.len() && refs[j].url_id == k && #[trigger] url_tweets(refs)[k][a] == tweet_info_of(refs[j]),
    decreases refs.len(),
{
    if refs.len() > 0 {
        let prev = refs.drop_last();
        lemma_url_tweets_well_formed(prev);
        let m = url_tweets(prev);
        let r = refs.last();
        let n = refs.len() - 1;
        assert forall|j: int| 0 <= j < prev.len() implies #[trigger] prev[j] == refs[j] by {}
        assert forall|k: i32| url_tweets(refs).contains_key(k) <==> exists|j: int| 0 <= j < refs.len() && #[trigger] refs[j].url_id == k by {
            if url_tweets(refs).contains_key(k) {
                if k == r.url_id {
                    assert(refs[n].url_id == k);
                } else {
                    assert(m.contains_key(k));
                    let j = choose|j: int| 0 <= j < prev.len() && #[trigger] prev[j].url_id == k;
                    assert(refs[j].url_id == k);
                }
            }
            if exists|j: int| 0 <= j < refs.len() && #[trigger] refs[j].url_id == k {
                let j = choose|j: int| 0 <= j < refs.len() && #[trigger] refs[j].url_id == k;
                if j < n {
                    assert(prev[j].url_id == k);
                }
            }
        }
        assert forall|k: i32, a: int|
            url_tweets(refs).contains_key(k) && 0 <= a < url_tweets(refs)[k].len() implies exists|j: int|
                0 <= j < refs.len() && refs[j].url_id == k && #[trigger] url_tweets(refs)[k][a] == tweet_info_of(refs[j]) by {
            if k == r.url_id && m.contains_key(k) && !has_author(m[k], r.author_id) && a == m[k].len() {
                assert(refs[n].url_id == k);
            } else if k == r.url_id && !m.contains_key(k) {
                assert(refs[n].url_id == k);
            } else {
                assert(url_tweets(refs)[k][a] == m[k][a]);
                let j = choose|j: int| 0 <= j < prev.len() && prev[j].url_id == k && #[trigger] m[k][a] == tweet_info_of(prev[j]);
                assert(refs[j] == prev[j]);
            }
        }
        assert forall|k: i32, a: int, b: int|
            url_tweets(refs).contains_key(k) && 0 <= a < b < url_tweets(refs)[k].len()
                implies #[trigger] url_tweets(refs)[k][a].author_id != #[trigger] url_tweets(refs)[k][b].author_id by {
            if k == r.url_id && m.contains_key(k) && !has_author(m[k], r.author_id) && b == m[k].len() {
                assert(url_tweets(refs)[k][a] == m[k][a]);
                assert(url_tweets(refs)[k][b] == tweet_info_of(r));
            } else if k == r.url_id && !m.contains_key(k) {
            } else {
                assert(url_tweets(refs)[k][a] == m[k][a]);
                assert(url_tweets(refs)[k][b] == m[k][b]);
            }
        }
    }
}

/// Law: the authors with a score are exactly the authors of the sharings.
pub proof fn lemma_author_scores_domain(refs: Seq<NewsReferencedUrlQuery>)
    ensures
        forall|a: i64| author_scores(refs).contains_key(a) <==> exists|j: int| 0 <= j < refs.len() && #[trigger] refs[j].author_id == a,
    decreases refs.len(),
{
    if refs.len() > 0 {
        let prev = refs.drop_last();
        lemma_author_scores_domain(prev);
        let n = refs.len() - 1;
        assert forall|a: i64| author_scores(refs).contains_key(a) <==> exists|j: int| 0 <= j < refs.len() && #[trigger] refs[j].author_id == a by {
            if author_scores(refs).contains_key(a) {
                if a == refs[n].author_id {
                    assert(refs[n].author_id == a);
                } else {
                    assert(author_scores(prev).contains_key(a));
                    let j = choose|j: int| 0 <= j < prev.len() && #[trigger] prev[j].author_id == a;
                    assert(refs[j] == prev[j]);
                }
            }
            if exists|j: int| 0 <= j < refs.len() && #[trigger] refs[j].author_id == a {
                let j = choose|j: int| 0 <= j < refs.len() && #[trigger] refs[j].author_id == a;
                assert(refs.last() == refs[n]);
                if j < n {
                    assert(prev[j] == refs[j]);
                    assert(prev[j].author_id == a);
                    assert(author_scores(prev).contains_key(a));
                }
            }
        }
    }
}

/// Every sharing of a link has its author among the link's sharings.
proof fn lemma_url_tweets_cover_authors(refs: Seq<NewsReferencedUrlQuery>)
    ensures
        forall|j: int| 0 <= j < refs.len() ==> url_tweets(refs).contains_key(#[trigger] refs[j].url_id)
            && has_author(url_tweets(refs)[refs[j].url_id], refs[j].author_id),
    decreases refs.len(),
{
    if refs.len() > 0 {
        let prev = refs.drop_last();
        lemma_url_tweets_cover_authors(prev);
        let m = url_tweets(prev);
        let r = refs.last();
        let n = refs.len() - 1;
        let mm = url_tweets(refs);
        assert forall|j: int| 0 <= j < refs.len() implies mm.contains_key(#[trigger] refs[j].url_id)
            && has_author(mm[refs[j].url_id], refs[j].author_id) by {
            if j < n {
                assert(prev[j] == refs[j]);
                let k = refs[j].url_id;
                assert(m.contains_key(k) && has_author(m[k], refs[j].author_id));
                let w = choose|w: int| 0 <= w < m[k].len() && m[k][w].author_id == refs[j].author_id;
                assert(mm.contains_key(k));
                assert(mm[k][w] == m[k][w]);
            } else {
                assert(refs[j] == r);
                if m.contains_key(r.url_id) {
                    if has_author(m[r.url_id], r.author_id) {
                        let w = choose|w: int| 0 <= w < m[r.url_id].len() && m[r.url_id][w].author_id == r.author_id;
                        assert(mm[r.url_id][w].author_id == r.author_id);
                    } else {
                        assert(mm[r.url_id][m[r.url_id].len() as int] == tweet_info_of(r));
                    }
                } else {
                    assert(mm[r.url_id][0] == tweet_info_of(r));
                }
            }
        }
    }
}

/// The authors of a list of sharings, in order.
pub open spec fn sharing_authors(tweets: Seq<TweetInfo>) -> Seq<i64> {
    tweets.map_values(|t: TweetInfo| t.author_id)
}

/// The authors who shared link `k`.
pub open spec fn authors_of_link(refs: Seq<NewsReferencedUrlQuery>, k: i32) -> Set<i64> {
    Set::new(|a: i64| exists|j: int| 0 <= j < refs.len() && #[trigger] refs[j].url_id == k && refs[j].author_id == a)
}

/// Law: the sharings kept for a link are one per author who shared it, so
/// their number, the link's number of references, is the number of its
/// distinct sharing authors.
pub proof fn lemma_url_sharings_count_authors(refs: Seq<NewsReferencedUrlQuery>, k: i32)
    requires
        url_tweets(refs).contains_key(k),
    ensures
        sharing_authors(url_tweets(refs)[k]).to_set() == authors_of_link(refs, k),
        url_tweets(refs)[k].len() == authors_of_link(refs, k).len(),
{
    lemma_url_tweets_well_formed(refs);
    lemma_url_tweets_cover_authors(refs);
    let list = url_tweets(refs)[k];
    let authors = sharing_authors(list);
    assert forall|a: i64| authors.to_set().contains(a) <==> authors_of_link(refs, k).contains(a) by {
        if authors.to_set().contains(a) {
            assert(authors.contains(a));
            let w = choose|w: int| 0 <= w < authors.len() && authors[w] == a;
            assert(list[w].author_id == a);
            let j = choose|j: int| 0 <= j < refs.len() && refs[j].url_id == k && #[trigger] list[w] == tweet_info_of(refs[j]);
            assert(refs[j].url_id == k && refs[j].author_id == a);
        }
        if authors_of_link(refs, k).contains(a) {
            let j = choose|j: int| 0 <= j < refs.len() && #[trigger] refs[j].url_id == k && refs[j].author_id == a;
            assert(has_author(url_tweets(refs)[refs[j].url_id], refs[j].author_id));
            let w = choose|w: int| 0 <= w < list.len() && list[w].author_id == a;
            assert(authors[w] == a);
            assert(authors.contains(a));
        }
    }
    assert(authors.to_set() =~= authors_of_link(refs, k));
    assert(authors.no_duplicates()) by {
        assert forall|a: int, b: int| 0 <= a < authors.len() && 0 <= b < authors.len() && a != b implies authors[a] != authors[b] by {
            if a < b {
                assert(list[a].author_id != list[b].author_id);
            } else {
                assert(list[b].author_id != list[a].author_id);
            }
        }
    }
    authors.unique_seq_to_set();
}

/// The shared links, each once, in order of first sharing.
pub open spec fn link_ids(refs: Seq<NewsReferencedUrlQuery>) -> Seq<i32>
    decreases refs.len(),
{
    if refs.len() == 0 {
        Seq::empty()
    } else {
        let prev = link_ids(refs.drop_last());
        if prev.contains(refs.last().url_id) {
            prev
        } else {
            prev.push(refs.last().url_id)
        }
    }
}

/// The number of sharings that `m` keeps for the links `ids`.
pub open spec fn total_sharings(m: Map<i32, Seq<TweetInfo>>, ids: Seq<i32>) -> int
    decreases ids.len(),
{
    if ids.len() == 0 {
        0
    } else {
        total_sharings(m, ids.drop_last()) + m[ids.last()].len()
    }
}

proof fn lemma_total_sharings_insert(m: Map<i32, Seq<TweetInfo>>, ids: Seq<i32>, k: i32, v: Seq<TweetInfo>)
    requires
        ids.no_duplicates(),
    ensures
        !ids.contains(k) ==> total_sharings(m.insert(k, v), ids) == total_sharings(m, ids),
        ids.contains(k) ==> total_sharings(m.insert(k, v), ids) == total_sharings(m, ids) - m[k].len() + v.len(),
    decreases ids.len(),
{
    if ids.len() > 0 {
        let prev = ids.drop_last();
        assert(prev.no_duplicates());
        lemma_total_sharings_insert(m, prev, k, v);
        if ids.last() == k {
            assert(!prev.contains(k)) by {
                if prev.contains(k) {
                    let i = choose|i: int| 0 <= i < prev.len() && prev[i] == k;
                    assert(ids[i] == ids[ids.len() - 1]);
                }
            }
        } else {
            if ids.contains(k) {
                let i = choose|i: int| 0 <= i < ids.len() && ids[i] == k;
                assert(prev[i] == k);
            }
            if prev.contains(k) {
                let i = choose|i: int| 0 <= i < prev.len() && prev[i] == k;
                assert(ids[i] == k);
            }
        }
    }
}

/// Law: the two maps built from the same sharings agree. Every author kept
/// among a link's sharings has a score, so looking the author up never fails;
/// the links with sharings are the shared links, each once; and the sharings
/// kept, over all links, are at most the sharings read.
pub proof fn lemma_feed_maps_agree(refs: Seq<NewsReferencedUrlQuery>)
    ensures
        forall|u: i32, a: int|
            url_tweets(refs).contains_key(u) && 0 <= a < url_tweets(refs)[u].len()
                ==> author_scores(refs).contains_key(#[trigger] url_tweets(refs)[u][a].author_id),
        link_ids(refs).no_duplicates(),
        forall|u: i32| url_tweets(refs).contains_key(u) <==> link_ids(refs).contains(u),
        total_sharings(url_tweets(refs), link_ids(refs)) <= refs.len(),
    decreases refs.len(),
{
    lemma_url_tweets_well_formed(refs);
    lemma_author_scores_domain(refs);
    assert forall|u: i32, a: int|
        url_tweets(refs).contains_key(u) && 0 <= a < url_tweets(refs)[u].len()
            implies author_scores(refs).contains_key(#[trigger] url_tweets(refs)[u][a].author_id) by {
        let j = choose|j: int| 0 <= j < refs.len() && refs[j].url_id == u && #[trigger] url_tweets(refs)[u][a] == tweet_info_of(refs[j]);
        assert(refs[j].author_id == url_tweets(refs)[u][a].author_id);
    }
    if refs.len() > 0 {
        let prev = refs.drop_last();
        lemma_feed_maps_agree(prev);
        let m = url_tweets(prev);
        let ids = link_ids(prev);
        let r = refs.last();
        if m.contains_key(r.url_id) {
            assert(ids.contains(r.url_id));
            assert(link_ids(refs) == ids);
            if !has_author(m[r.url_id], r.author_id) {
                lemma_total_sharings_insert(m, ids, r.url_id, m[r.url_id].push(tweet_info_of(r)));
            }
        } else {
            assert(!ids.contains(r.url_id));
            let nids = ids.push(r.url_id);
            assert(link_ids(refs) == nids);
            let nm = m.insert(r.url_id, seq![tweet_info_of(r)]);
            lemma_total_sharings_insert(m, ids, r.url_id, seq![tweet_info_of(r)]);
            assert(nids.drop_last() =~= ids);
            assert(total_sharings(nm, nids) == total_sharings(nm, ids) + 1);
            assert(nids.no_duplicates()) by {
                assert forall|i: int, j: int| 0 <= i < j < nids.len() implies nids[i] != nids[j] by {
                    if j == ids.len() {
                        assert(nids[i] == ids[i]);
                        if ids[i] == r.url_id {
                            assert(ids.contains(r.url_id));
                        }
                    } else {
                        assert(nids[i] == ids[i] && nids[j] == ids[j]);
                    }
                }
            }
            assert forall|u: i32| nm.contains_key(u) <==> nids.contains(u) by {
                if nm.contains_key(u) && u != r.url_id {
                    assert(m.contains_key(u));
                    assert(ids.contains(u));
                    let i = choose|i: int| 0 <= i < ids.len() && ids[i] == u;
                    assert(nids[i] == u);
                }
                if nids.contains(u) {
                    let i = choose|i: int| 0 <= i < nids.len() && nids[i] == u;
                    if i < ids.len() {
                        assert(ids[i] == u);
                        assert(ids.contains(u));
                    }
                }
            }
        }
    }
}

/// What `chrono::DateTime::from_timestamp(ts, 0)` then `to_rfc3339()` gives
/// for a time in seconds since the epoch, or `None` where it is out of range.
pub uninterp spec fn utc_rfc3339_text(ts: i64) -> Option<Seq<char>>;

/// `chrono::DateTime::from_timestamp(ts, 0)`, then `to_rfc3339`. Claimed: the
/// crate's text for this time (in UTC), and `None` exactly where it has none.
#[verifier::external_body]
fn utc_rfc3339(ts: i64) -> (r: Option<String>)
    ensures
        match r {
            Some(t) => utc_rfc3339_text(ts) == Some(t@),
            None => utc_rfc3339_text(ts) is None,
        },
{
    chrono::DateTime::from_timestamp(ts, 0).map(|d| d.to_rfc3339())
}

/// The author scores of the feed's sharings.
pub open spec fn feed_scores(refs: Option<Vec<NewsReferencedUrlQuery>>) -> Map<i64, i32> {
    author_scores(opt_refs(refs))
}

/// The sharings of each link of the feed.
pub open spec fn feed_links(refs: Option<Vec<NewsReferencedUrlQuery>>) -> Map<i32, Seq<TweetInfo>> {
    url_tweets(opt_refs(refs))
}

/// The links of the feed, in order of first sharing.
pub open spec fn feed_link_ids(refs: Option<Vec<NewsReferencedUrlQuery>>) -> Seq<i32> {
    link_ids(opt_refs(refs))
}

/// Whether the entry of a link can be computed: its score and times fit,
/// the decay succeeds, and its earliest sharing's time has a text.
pub open spec fn link_entry_ok(tweets: Seq<TweetInfo>, scores: Map<i64, i32>, gravity: DecimalValue, now: i64) -> bool {
    &&& entry_inputs_ok(tweets, scores, now as int)
    &&& entry_decay(tweets, scores, gravity, now) is Some
    &&& utc_rfc3339_text(first_tweet(tweets).created_at) is Some
}

/// Whether every link of the feed has an entry.
pub open spec fn feed_ok(refs: Option<Vec<NewsReferencedUrlQuery>>, gravity: DecimalValue, now: i64) -> bool {
    forall|i: int| 0 <= i < feed_link_ids(refs).len() ==> link_entry_ok(
        feed_links(refs)[#[trigger] feed_link_ids(refs)[i]],
        feed_scores(refs),
        gravity,
        now,
    )
}

/// `feed` holds the entry of every link, in order of first sharing.
pub open spec fn is_feed(feed: Seq<NewsFeedUrl>, refs: Option<Vec<NewsReferencedUrlQuery>>, gravity: DecimalValue, now: i64) -> bool {
    &&& feed.len() == feed_link_ids(refs).len()
    &&& forall|i: int| 0 <= i < feed.len() ==> {
        let id = feed_link_ids(refs)[i];
        let tweets = feed_links(refs)[id];
        entry_fields(#[trigger] feed[i], id, tweets, feed_scores(refs), gravity, now, utc_rfc3339_text(first_tweet(tweets).created_at)->0)
    }
}

fn contains_i32(v: &Vec<i32>, x: i32) -> (r: bool)
    ensures
        r == v@.contains(x),
{
    let mut k: usize = 0;
    while k < v.len()
        invariant
            k <= v.len(),
            forall|j: int| 0 <= j < k ==> v@[j] != x,
        decreases v.len() - k,
    {
        if v[k] == x {
            assert(v@[k as int] == x);
            return true;
        }
        k = k + 1;
    }
    false
}

/// The shared links, each once, in order of first sharing.
pub fn feed_link_ids_exec(refs: &Option<Vec<NewsReferencedUrlQuery>>) -> (ids: Vec<i32>)
    ensures
        ids@ == feed_link_ids(*refs),
{
    let mut ids: Vec<i32> = Vec::new();
    match refs {
        Some(rows) => {
            let mut i: usize = 0;
            while i < rows.len()
                invariant
                    i <= rows.len(),
                    ids@ == link_ids(rows@.take(i as int)),
                decreases rows.len() - i,
            {
                assert(rows@.take(i + 1).drop_last() =~= rows@.take(i as int));
                let u = rows[i].url_id;
                if !contains_i32(&ids, u) {
                    ids.push(u);
                }
                i = i + 1;
            }
            assert(rows@.take(i as int) =~= rows@);
        },
        None => {},
    }
    ids
}

/// Whether every partial sum of the sharings' author scores fits in an `i32`.
fn partial_sums_fit_exec(tweets: &Vec<TweetInfo>, scores: &HashMap<i64, i32>) -> (r: bool)
    requires
        forall|i: int| 0 <= i < tweets.len() ==> scores@.contains_key(#[trigger] tweets@[i].author_id),
    ensures
        r == partial_sums_fit(tweets@, scores@),
{
    let mut sum: i64 = 0;
    let mut i: usize = 0;
    while i < tweets.len()
        invariant
            i <= tweets.len(),
            forall|j: int| 0 <= j < tweets.len() ==> scores@.contains_key(#[trigger] tweets@[j].author_id),
            sum as int == score_sum(tweets@.take(i as int), scores@),
            forall|k: int| 0 <= k <= i ==> i32::MIN <= #[trigger] score_sum(tweets@.take(k), scores@) <= i32::MAX,
        decreases tweets.len() - i,
    {
        assert(tweets@.take(i + 1).drop_last() =~= tweets@.take(i as int));
        let score: i32 = match scores.get(&tweets[i].author_id) {
            Some(v) => *v,
            None => {
                proof {
                    assert(scores@.contains_key(tweets@[i as int].author_id));
                }
                0
            },
        };
        assert(score_sum(tweets@.take(i + 1), scores@) == sum + score);
        sum = sum + score as i64;
        if sum < -2147483648 || sum > 2147483647 {
            assert(!(i32::MIN <= score_sum(tweets@.take(i + 1), scores@) <= i32::MAX));
            return false;
        }
        i = i + 1;
    }
    assert(tweets@.take(i as int) =~= tweets@);
    true
}

/// Whether `now` minus every sharing's time fits in an `i64`.
fn times_fit_exec(tweets: &Vec<TweetInfo>, now: i64) -> (r: bool)
    ensures
        r == (forall|i: int| 0 <= i < tweets.len() ==> i64::MIN <= now - #[trigger] tweets@[i].created_at <= i64::MAX),
{
    let mut i: usize = 0;
    while i < tweets.len()
        invariant
            i <= tweets.len(),
            forall|j: int| 0 <= j < i ==> i64::MIN <= now - #[trigger] tweets@[j].created_at <= i64::MAX,
        decreases tweets.len() - i,
    {
        if now.checked_sub(tweets[i].created_at).is_none() {
            return false;
        }
        i = i + 1;
    }
    true
}

/// The news feed of the sharings `refs` at time `now`: the entry of every
/// shared link, in order of first sharing; `None` where the entry of some
/// link cannot be computed (where the scoring would stop).
pub fn checked_news_feed_entries(refs: &Option<Vec<NewsReferencedUrlQuery>>, gravity: DecimalValue, now: i64) -> (r: Option<Vec<NewsFeedUrl>>)
    requires
        gravity.wf(),
    ensures
        r is Some <==> feed_ok(*refs, gravity, now),
        r matches Some(feed) ==> is_feed(feed@, *refs, gravity, now),
{
    let scores = populate_author_score_map(refs);
    let links = populate_url_to_tweet_map(refs);
    let ids = feed_link_ids_exec(refs);
    let ghost rows = opt_refs(*refs);
    proof {
        lemma_feed_maps_agree(rows);
        lemma_url_tweets_well_formed(rows);
    }
    let mut feed: Vec<NewsFeedUrl> = Vec::new();
    let mut i: usize = 0;
    while i < ids.len()
        invariant
            gravity.wf(),
            i <= ids.len(),
            ids@ == feed_link_ids(*refs),
            scores@ == feed_scores(*refs),
            vec_map_view(links@) == feed_links(*refs),
            rows == opt_refs(*refs),
            forall|u: i32| url_tweets(rows).contains_key(u) <==> link_ids(rows).contains(u),
            forall|k: i32| #[trigger] url_tweets(rows).contains_key(k) ==> url_tweets(rows)[k].len() > 0,
            forall|u: i32, a: int|
                url_tweets(rows).contains_key(u) && 0 <= a < url_tweets(rows)[u].len()
                    ==> author_scores(rows).contains_key(#[trigger] url_tweets(rows)[u][a].author_id),
            forall|j: int| 0 <= j < i ==> link_entry_ok(
                feed_links(*refs)[#[trigger] feed_link_ids(*refs)[j]],
                feed_scores(*refs),
                gravity,
                now,
            ),
            feed@.len() == i,
            forall|j: int| 0 <= j < i ==> {
                let id = feed_link_ids(*refs)[j];
                let tweets = feed_links(*refs)[id];
                entry_fields(#[trigger] feed@[j], id, tweets, feed_scores(*refs), gravity, now, utc_rfc3339_text(first_tweet(tweets).created_at)->0)
            },
        decreases ids.len() - i,
    {
        let id = ids[i];
        assert(link_ids(rows).contains(id)) by {
            assert(ids@[i as int] == id);
        }
        assert(url_tweets(rows).contains_key(id));
        assert(links@.contains_key(id)) by {
            assert(vec_map_view(links@).contains_key(id));
        }
        let tweets = match links.get(&id) {
            Some(t) => t,
            None => {
                proof {
                    assert(false);
                }
                return None;
            },
        };
        assert(tweets@ == feed_links(*refs)[id]);
        assert(forall|a: int| 0 <= a < tweets.len() ==> scores@.contains_key(#[trigger] tweets@[a].author_id)) by {
            assert forall|a: int| 0 <= a < tweets.len() implies scores@.contains_key(#[trigger] tweets@[a].author_id) by {
                assert(url_tweets(rows)[id][a] == tweets@[a]);
            }
        }
        if !partial_sums_fit_exec(tweets, &scores) || !times_fit_exec(tweets, now) {
            assert(!link_entry_ok(feed_links(*refs)[feed_link_ids(*refs)[i as int]], feed_scores(*refs), gravity, now));
            return None;
        }
        let k = first_tweet_index(tweets);
        proof {
            lemma_first_tweet_unique(tweets@, k as int);
        }
        assert(tweets@[k as int] == first_tweet(tweets@));
        let text = match utc_rfc3339(tweets[k].created_at) {
            Some(t) => t,
            None => {
                assert(!link_entry_ok(feed_links(*refs)[feed_link_ids(*refs)[i as int]], feed_scores(*refs), gravity, now));
                return None;
            },
        };
        let ghost text_view = text@;
        match news_feed_url_entry(id, tweets, &scores, gravity, now, text) {
            Some(entry) => {
                feed.push(entry);
            },
            None => {
                assert(!link_entry_ok(feed_links(*refs)[feed_link_ids(*refs)[i as int]], feed_scores(*refs), gravity, now));
                return None;
            },
        }
        assert(link_entry_ok(feed_links(*refs)[feed_link_ids(*refs)[i as int]], feed_scores(*refs), gravity, now));
        i = i + 1;
    }
    Some(feed)
}

/// The news feed of the sharings `refs` at time `now`: the entry of every
/// shared link, in order of first sharing.
pub fn news_feed_entries(refs: &Option<Vec<NewsReferencedUrlQuery>>, gravity: DecimalValue, now: i64) -> (feed: Vec<NewsFeedUrl>)
    requires
        gravity.wf(),
        feed_ok(*refs, gravity, now),
    ensures
        is_feed(feed@, *refs, gravity, now),
{
    match checked_news_feed_entries(refs, gravity, now) {
        Some(feed) => feed,
        None => {
            proof {
                assert(false);
            }
            Vec::new()
        },
    }
}

} // verus!
