//! Decisions of the posting jobs: which link is announced next, in what order
//! its sharings are named, and which form of the post text is used.

use vstd::prelude::*;
use crate::models;
use crate::twitter_models;
use crate::post_text::{
    MAX_POST_CHARACTER_COUNT, NEWS_FEED_MIN_NUM_SHARES_BEFORE_POSTING, POST_URL_PLACEHOLDER_LENGTH,
    get_post_text_long, get_post_text_long_len, get_post_text_short, post_text_long_skeleton,
    post_text_long_spec, post_text_short_spec,
};
use crate::tweet_text::NEWS_FEED_MIN_NUM_SHARES_BEFORE_TWEETING;

verus! {

/// Links of the last this many days are candidates for announcement.
pub const NEWS_FEED_URLS_NUM_DAYS: i64 = 3;

/// At most this many links are read as candidates.
pub const NEWS_FEED_URLS_LIMIT: i64 = 20;

/// A record with a creation time, by which it is ordered.
pub trait CreatedAt {
    spec fn created_at_key(&self) -> i64;

    fn created_at_value(&self) -> (t: i64)
        ensures
            t == self.created_at_key(),
    ;
}

impl CreatedAt for models::NewsFeedUrlReferencesQuery {
    open spec fn created_at_key(&self) -> i64 {
        self.created_at
    }

    fn created_at_value(&self) -> (t: i64) {
        self.created_at
    }
}

impl CreatedAt for twitter_models::NewsFeedUrlReferencesQuery {
    open spec fn created_at_key(&self) -> i64 {
        self.created_at
    }

    fn created_at_value(&self) -> (t: i64) {
        self.created_at
    }
}

/// The elements of `s` created at `k`, in order.
pub open spec fn with_key<T: CreatedAt>(s: Seq<T>, k: i64) -> Seq<T>
    decreases s.len(),
{
    if s.len() == 0 {
        Seq::empty()
    } else {
        let prev = with_key(s.drop_last(), k);
        if s.last().created_at_key() == k {
            prev.push(s.last())
        } else {
            prev
        }
    }
}

/// `s` is ordered by creation time.
pub open spec fn sorted_by_created_at<T: CreatedAt>(s: Seq<T>) -> bool {
    forall|i: int, j: int| 0 <= i <= j < s.len() ==> #[trigger] s[i].created_at_key() <= #[trigger] s[j].created_at_key()
}

/// `t` is `s` sorted stably by creation time: ordered, and for every time the
/// elements created then are those of `s`, in their order in `s`.
pub open spec fn stable_sorted_by_created_at<T: CreatedAt>(s: Seq<T>, t: Seq<T>) -> bool {
    &&& sorted_by_created_at(t)
    &&& forall|k: i64| #[trigger] with_key(t, k) == with_key(s, k)
}

proof fn lemma_with_key_concat<T: CreatedAt>(a: Seq<T>, b: Seq<T>, k: i64)
    ensures
        with_key(a + b, k) == with_key(a, k) + with_key(b, k),
    decreases b.len(),
{
    if b.len() == 0 {
        assert(a + b =~= a);
        assert(with_key(a, k) + with_key(b, k) =~= with_key(a, k));
    } else {
        lemma_with_key_concat(a, b.drop_last(), k);
        assert((a + b).drop_last() =~= a + b.drop_last());
        assert((a + b).last() == b.last());
        if b.last().created_at_key() == k {
            assert(with_key(a, k) + with_key(b.drop_last(), k).push(b.last()) =~= (with_key(a, k)
                + with_key(b.drop_last(), k)).push(b.last()));
        }
    }
}

proof fn lemma_with_key_single<T: CreatedAt>(x: T, k: i64)
    ensures
        with_key(seq![x], k) == (if x.created_at_key() == k { seq![x] } else { Seq::<T>::empty() }),
{
    assert(seq![x].drop_last() =~= Seq::<T>::empty());
    assert(with_key(seq![x].drop_last(), k) == Seq::<T>::empty());
    assert(seq![x].last() == x);
    if x.created_at_key() == k {
        assert(Seq::<T>::empty().push(x) =~= seq![x]);
    }
}

proof fn lemma_with_key_none<T: CreatedAt>(s: Seq<T>, k: i64)
    requires
        forall|i: int| 0 <= i < s.len() ==> #[trigger] s[i].created_at_key() != k,
    ensures
        with_key(s, k) == Seq::<T>::empty(),
    decreases s.len(),
{
    if s.len() > 0 {
        lemma_with_key_none(s.drop_last(), k);
    }
}

/// Sorts `v` stably by creation time, earliest first.
pub fn sort_by_created_at<T: CreatedAt>(v: &mut Vec<T>)
    ensures
        stable_sorted_by_created_at(old(v)@, final(v)@),
{
    let ghost orig = old(v)@;
    let mut out: Vec<T> = Vec::new();
    proof {
        assert forall|k: i64| #[trigger] with_key(out@, k) + with_key(v@, k) == with_key(orig, k) by {
            assert(with_key(out@, k) =~= Seq::<T>::empty());
            assert(with_key(out@, k) + with_key(v@, k) =~= with_key(v@, k));
        }
    }
    while v.len() > 0
        invariant
            sorted_by_created_at(out@),
            forall|k: i64| #[trigger] with_key(out@, k) + with_key(v@, k) == with_key(orig, k),
        decreases v.len(),
    {
        let ghost v_before = v@;
        let ghost out_before = out@;
        let x = v.remove(0);
        let key = x.created_at_value();
        let mut p: usize = 0;
        while p < out.len() && out[p].created_at_value() <= key
            invariant
                out@ == out_before,
                sorted_by_created_at(out@),
                p <= out.len(),
                key == x.created_at_key(),
                forall|i: int| 0 <= i < p ==> #[trigger] out@[i].created_at_key() <= key,
            decreases out.len() - p,
        {
            p = p + 1;
        }
        proof {
            if p < out.len() {
                assert(out@[p as int].created_at_key() > key);
            }
        }
        out.insert(p, x);
        proof {
            let pre = out_before.subrange(0, p as int);
            let post = out_before.subrange(p as int, out_before.len() as int);
            assert(out_before =~= pre + post);
            assert(out@ =~= pre + seq![x] + post);
            assert(v_before =~= seq![x] + v@);
            assert forall|i: int| 0 <= i < post.len() implies #[trigger] post[i].created_at_key() > key by {
                assert(post[i] == out_before[p + i]);
                assert(out_before[p as int].created_at_key() <= out_before[p + i].created_at_key());
            }
            assert forall|k: i64| #[trigger] with_key(out@, k) + with_key(v@, k) == with_key(orig, k) by {
                lemma_with_key_concat(pre + seq![x], post, k);
                lemma_with_key_concat(pre, seq![x], k);
                lemma_with_key_concat(pre, post, k);
                lemma_with_key_concat(seq![x], v@, k);
                lemma_with_key_single(x, k);
                if k == key {
                    lemma_with_key_none(post, k);
                    assert(with_key(out@, k) =~= with_key(out_before, k) + seq![x]);
                    assert(with_key(v_before, k) =~= seq![x] + with_key(v@, k));
                    assert(with_key(out@, k) + with_key(v@, k) =~= with_key(out_before, k) + with_key(v_before, k));
                } else {
                    assert(with_key(out@, k) =~= with_key(out_before, k));
                    assert(with_key(v_before, k) =~= with_key(v@, k));
                }
            }
            assert forall|i: int, j: int| 0 <= i <= j < out@.len() implies #[trigger] out@[i].created_at_key()
                <= #[trigger] out@[j].created_at_key() by {
                if i < p && j < p {
                    assert(out@[i] == out_before[i] && out@[j] == out_before[j]);
                } else if i < p && j == p {
                    assert(out@[i] == out_before[i]);
                } else if i < p && j > p {
                    assert(out@[i] == out_before[i] && out@[j] == out_before[j - 1]);
                    assert(out_before[i].created_at_key() <= out_before[j - 1].created_at_key());
                } else if i == p && j > p {
                    assert(out@[j] == out_before[j - 1]);
                    assert(post[j - 1 - p] == out_before[j - 1]);
                } else if i > p {
                    assert(out@[i] == out_before[i - 1] && out@[j] == out_before[j - 1]);
                }
            }
        }
    }
    proof {
        assert forall|k: i64| #[trigger] with_key(out@, k) == with_key(orig, k) by {
            assert(with_key(v@, k) =~= Seq::<T>::empty());
            assert(with_key(out@, k) + with_key(v@, k) =~= with_key(out@, k));
        }
    }
    *v = out;
}

/// A link is posted to Bluesky once it has enough shares and was not posted yet.
pub open spec fn awaits_posting(u: models::NewsFeedUrlQuery) -> bool {
    u.bsky_posted_at is None && u.num_references >= NEWS_FEED_MIN_NUM_SHARES_BEFORE_POSTING
}

/// A link is tweeted once it has enough shares and was not tweeted yet.
pub open spec fn awaits_tweeting(u: twitter_models::NewsFeedUrlQuery) -> bool {
    u.tweeted_at is None && u.num_references >= NEWS_FEED_MIN_NUM_SHARES_BEFORE_TWEETING
}

/// Position of the first link that awaits posting to Bluesky.
pub fn news_feed_url_to_post(news_feed_urls: &Vec<models::NewsFeedUrlQuery>) -> (r: Option<usize>)
    ensures
        match r {
            Some(i) => i < news_feed_urls.len() && awaits_posting(news_feed_urls@[i as int])
                && forall|j: int| 0 <= j < i ==> !awaits_posting(#[trigger] news_feed_urls@[j]),
            None => forall|j: int| 0 <= j < news_feed_urls.len() ==> !awaits_posting(#[trigger] news_feed_urls@[j]),
        },
{
    let mut i: usize = 0;
    while i < news_feed_urls.len()
        invariant
            i <= news_feed_urls.len(),
            forall|j: int| 0 <= j < i ==> !awaits_posting(#[trigger] news_feed_urls@[j]),
        decreases news_feed_urls.len() - i,
    {
        let u = &news_feed_urls[i];
        if u.bsky_posted_at.is_none() && u.num_references >= NEWS_FEED_MIN_NUM_SHARES_BEFORE_POSTING {
            return Some(i);
        }
        i = i + 1;
    }
    None
}

/// Position of the first link that awaits tweeting.
pub fn news_feed_url_to_tweet(news_feed_urls: &Vec<twitter_models::NewsFeedUrlQuery>) -> (r: Option<usize>)
    ensures
        match r {
            Some(i) => i < news_feed_urls.len() && awaits_tweeting(news_feed_urls@[i as int])
                && forall|j: int| 0 <= j < i ==> !awaits_tweeting(#[trigger] news_feed_urls@[j]),
            None => forall|j: int| 0 <= j < news_feed_urls.len() ==> !awaits_tweeting(#[trigger] news_feed_urls@[j]),
        },
{
    let mut i: usize = 0;
    while i < news_feed_urls.len()
        invariant
            i <= news_feed_urls.len(),
            forall|j: int| 0 <= j < i ==> !awaits_tweeting(#[trigger] news_feed_urls@[j]),
        decreases news_feed_urls.len() - i,
    {
        let u = &news_feed_urls[i];
        if u.tweeted_at.is_none() && u.num_references >= NEWS_FEED_MIN_NUM_SHARES_BEFORE_TWEETING {
            return Some(i);
        }
        i = i + 1;
    }
    None
}

/// Estimated byte length of the long form of a post.
pub open spec fn long_post_len(url: models::NewsFeedUrlQuery, refs: Seq<models::NewsFeedUrlReferencesQuery>) -> int {
    vstd::utf8::encode_utf8(post_text_long_skeleton(url, refs)).len() + 2 * POST_URL_PLACEHOLDER_LENGTH
}

/// The text posted for a link: the long form where it fits in a post, else the short form.
pub fn post_text(
    news_feed_url: &models::NewsFeedUrlQuery,
    news_feed_url_references: &Vec<models::NewsFeedUrlReferencesQuery>,
) -> (s: String)
    requires
        long_post_len(*news_feed_url, news_feed_url_references@) <= usize::MAX,
    ensures
        s@ == if long_post_len(*news_feed_url, news_feed_url_references@) <= MAX_POST_CHARACTER_COUNT {
            post_text_long_spec(*news_feed_url, news_feed_url_references@)
        } else {
            post_text_short_spec(*news_feed_url)
        },
{
    if get_post_text_long_len(news_feed_url, news_feed_url_references) <= MAX_POST_CHARACTER_COUNT {
        get_post_text_long(news_feed_url, news_feed_url_references)
    } else {
        get_post_text_short(news_feed_url)
    }
}

} // verus!
