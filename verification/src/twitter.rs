//! Tweets as the service reads them: numeric ids, reference kinds, link
//! previews, the links shared in a tweet, and batching of requests.

use vstd::prelude::*;
use crate::text::{clone_opt, opt_view, owned, starts_with};
use crate::models::NewsTwitterUser;
use crate::urls::{
    ParsedUrl, expanded_url_parsed_spec, get_expanded_url_parsed, remove_all, remove_all_str,
    url_host_of, url_parse_result,
};
use crate::starter_pack::has_prefix;
use std::collections::{HashMap, HashSet};

verus! {

/// Most ids asked of the Twitter API in one request.
pub const MAX_TWEET_RESULTS: usize = 100;

/// A Twitter numeric id.
#[derive(Debug, Clone, Copy, PartialEq, Eq, Structural)]
pub struct NumericId(pub u64);

impl NumericId {
    pub fn new(id: u64) -> (r: NumericId)
        ensures
            r.0 == id,
    {
        NumericId(id)
    }

    pub fn as_u64(&self) -> (r: u64)
        ensures
            r == self.0,
    {
        self.0
    }
}

/// The `i64` with the bits of the id.
pub fn numeric_id_to_i64(numeric: NumericId) -> (r: i64)
    ensures
        r == numeric.0 as i64,
{
    numeric.as_u64() as i64
}

/// The id with the bits of the `i64`.
pub fn i64_to_numeric_id(i: i64) -> (r: NumericId)
    ensures
        r.0 == i as u64,
{
    NumericId::new(i as u64)
}

pub fn opt_numeric_id_to_opt_i64(opt_numeric: Option<NumericId>) -> (r: Option<i64>)
    ensures
        r == match opt_numeric {
            Some(n) => Some(n.0 as i64),
            None => None::<i64>,
        },
{
    match opt_numeric {
        Some(n) => Some(numeric_id_to_i64(n)),
        None => None,
    }
}

pub fn opt_i64_to_opt_numeric_id(opt_i: Option<i64>) -> (r: Option<NumericId>)
    ensures
        r == match opt_i {
            Some(i) => Some(NumericId(i as u64)),
            None => None::<NumericId>,
        },
{
    match opt_i {
        Some(i) => Some(i64_to_numeric_id(i)),
        None => None,
    }
}

/// How a tweet refers to another.
#[derive(Debug, Clone, Copy, PartialEq, Eq, Structural)]
pub enum ReferencedTweetKind {
    Quoted,
    RepliedTo,
    Retweeted,
}

pub open spec fn kind_name(kind: ReferencedTweetKind) -> Seq<char> {
    match kind {
        ReferencedTweetKind::Quoted => "quoted"@,
        ReferencedTweetKind::RepliedTo => "replied_to"@,
        ReferencedTweetKind::Retweeted => "retweeted"@,
    }
}

/// The stored name of a reference kind.
pub fn referenced_tweet_kind_to_string(referenced_tweet_kind: ReferencedTweetKind) -> (s: String)
    ensures
        s@ == kind_name(referenced_tweet_kind),
{
    match referenced_tweet_kind {
        ReferencedTweetKind::Quoted => owned("quoted"),
        ReferencedTweetKind::RepliedTo => owned("replied_to"),
        ReferencedTweetKind::Retweeted => owned("retweeted"),
    }
}

/// A tweet referred to by another.
#[derive(Debug, Clone, Copy)]
pub struct ReferencedTweet {
    pub kind: ReferencedTweetKind,
    pub id: NumericId,
}

/// What the service reads of a tweet.
#[derive(Debug)]
pub struct Tweet {
    pub id: NumericId,
    pub text: String,
    pub author_id: Option<NumericId>,
    pub conversation_id: Option<NumericId>,
    pub in_reply_to_user_id: Option<NumericId>,
    pub referenced_tweets: Option<Vec<ReferencedTweet>>,
}

/// A reference from one tweet to another, as stored.
#[derive(Debug)]
pub struct NewsReferencedTweet {
    pub tweet_id: i64,
    pub referenced_tweet_id: i64,
    pub referenced_tweet_kind: String,
}

pub open spec fn referenced_view(r: NewsReferencedTweet) -> (i64, i64, Seq<char>) {
    (r.tweet_id, r.referenced_tweet_id, r.referenced_tweet_kind@)
}

/// The references of a tweet to other tweets, in order.
pub open spec fn tweet_references(tweet: Tweet) -> Seq<(i64, i64, Seq<char>)> {
    match tweet.referenced_tweets {
        Some(refs) => refs@.map_values(|rt: ReferencedTweet| (tweet.id.0 as i64, rt.id.0 as i64, kind_name(rt.kind))),
        None => Seq::empty(),
    }
}

/// The references of a tweet to other tweets.
pub fn parse_news_referenced_tweets(tweet: &Tweet) -> (r: Vec<NewsReferencedTweet>)
    ensures
        r@.map_values(|x: NewsReferencedTweet| referenced_view(x)) == tweet_references(*tweet),
{
    let mut out: Vec<NewsReferencedTweet> = Vec::new();
    match &tweet.referenced_tweets {
        Some(refs) => {
            let ghost target = refs@.map_values(|rt: ReferencedTweet| (tweet.id.0 as i64, rt.id.0 as i64, kind_name(rt.kind)));
            let mut i: usize = 0;
            while i < refs.len()
                invariant
                    i <= refs.len(),
                    target == refs@.map_values(|rt: ReferencedTweet| (tweet.id.0 as i64, rt.id.0 as i64, kind_name(rt.kind))),
                    out@.map_values(|x: NewsReferencedTweet| referenced_view(x)) == target.take(i as int),
                    out.len() == i,
                decreases refs.len() - i,
            {
                let rt = refs[i];
                let ghost prev = out@;
                assert(target[i as int] == (tweet.id.0 as i64, rt.id.0 as i64, kind_name(rt.kind)));
                out.push(NewsReferencedTweet {
                    tweet_id: numeric_id_to_i64(tweet.id),
                    referenced_tweet_id: numeric_id_to_i64(rt.id),
                    referenced_tweet_kind: referenced_tweet_kind_to_string(rt.kind),
                });
                assert(out@ == prev.push(out@.last()));
                assert(referenced_view(out@.last()) == target[i as int]);
                let ghost pm = prev.map_values(|x: NewsReferencedTweet| referenced_view(x));
                let ghost om = out@.map_values(|x: NewsReferencedTweet| referenced_view(x));
                assert forall|j: int| 0 <= j < i + 1 implies om[j] == target.take(i + 1)[j] by {
                    if j < i {
                        assert(out@[j] == prev[j]);
                        assert(pm[j] == target.take(i as int)[j]);
                    }
                }
                assert(om =~= target.take(i + 1));
                i = i + 1;
            }
            assert(target.take(i as int) =~= target);
        },
        None => {
            assert(out@.map_values(|x: NewsReferencedTweet| referenced_view(x)) =~= Seq::<(i64, i64, Seq<char>)>::empty());
        },
    }
    out
}

/// A preview image of a shared link.
#[derive(Debug)]
pub struct UrlImage {
    pub url: String,
    pub width: usize,
    pub height: usize,
}

pub open spec fn is_thumbnail(image: UrlImage) -> bool {
    image.width == 150 && image.height == 150
}

/// The last thumbnail (150 by 150) and the last other image, in that order.
pub open spec fn last_images(images: Seq<UrlImage>) -> (Option<Seq<char>>, Option<Seq<char>>)
    decreases images.len(),
{
    if images.len() == 0 {
        (None, None)
    } else {
        let prev = last_images(images.drop_last());
        let image = images.last();
        if is_thumbnail(image) {
            (Some(image.url@), prev.1)
        } else {
            (prev.0, Some(image.url@))
        }
    }
}

/// The preview thumbnail and preview image of a link: both, where the link
/// has a thumbnail and another image, else neither.
pub open spec fn url_images_spec(url_images: Option<Seq<UrlImage>>) -> (Option<Seq<char>>, Option<Seq<char>>) {
    match url_images {
        Some(images) => {
            let found = last_images(images);
            if found.0 is Some && found.1 is Some {
                found
            } else {
                (None, None)
            }
        },
        None => (None, None),
    }
}

pub open spec fn opt_vec_view(v: Option<Vec<UrlImage>>) -> Option<Seq<UrlImage>> {
    match v {
        Some(images) => Some(images@),
        None => None,
    }
}

/// The preview thumbnail and preview image of a shared link.
pub fn parse_tweet_url_images(url_images: Option<Vec<UrlImage>>) -> (r: (Option<String>, Option<String>))
    ensures
        (crate::text::opt_view(r.0), crate::text::opt_view(r.1)) == url_images_spec(opt_vec_view(url_images)),
{
    match url_images {
        Some(images) => {
            let mut preview_image_thumbnail_url: Option<String> = None;
            let mut preview_image_url: Option<String> = None;
            let mut i: usize = 0;
            while i < images.len()
                invariant
                    i <= images.len(),
                    (crate::text::opt_view(preview_image_thumbnail_url), crate::text::opt_view(preview_image_url))
                        == last_images(images@.take(i as int)),
                decreases images.len() - i,
            {
                assert(images@.take(i + 1).drop_last() =~= images@.take(i as int));
                let image = &images[i];
                if image.width == 150 && image.height == 150 {
                    preview_image_thumbnail_url = Some(image.url.clone());
                } else {
                    preview_image_url = Some(image.url.clone());
                }
                i = i + 1;
            }
            assert(images@.take(i as int) =~= images@);
            if preview_image_thumbnail_url.is_some() && preview_image_url.is_some() {
                (preview_image_thumbnail_url, preview_image_url)
            } else {
                (None, None)
            }
        },
        None => (None, None),
    }
}

/// `s` cut into pieces of `MAX_TWEET_RESULTS` elements, the last one holding
/// the rest (at most `MAX_TWEET_RESULTS`, possibly none).
pub open spec fn batches<T>(s: Seq<T>) -> Seq<Seq<T>>
    decreases s.len(),
{
    if s.len() <= MAX_TWEET_RESULTS {
        seq![s]
    } else {
        seq![s.take(MAX_TWEET_RESULTS as int)] + batches(s.skip(MAX_TWEET_RESULTS as int))
    }
}

/// The concatenation of a sequence of sequences.
pub open spec fn flatten_seqs<T>(ss: Seq<Seq<T>>) -> Seq<T>
    decreases ss.len(),
{
    if ss.len() == 0 {
        Seq::empty()
    } else {
        ss[0] + flatten_seqs(ss.drop_first())
    }
}

/// Splits `items` into requests of at most `MAX_TWEET_RESULTS` items each,
/// in order.
pub fn split_requests_into_max_amount<T>(items: Vec<T>) -> (r: Vec<Vec<T>>)
    where
        T: Clone,
    ensures
        r@.map_values(|v: Vec<T>| v@) == batches(items@),
{
    let ghost orig = items@;
    let mut rest = items;
    let mut out: Vec<Vec<T>> = Vec::new();
    let ghost mut done: Seq<Seq<T>> = Seq::empty();
    loop
        invariant_except_break
            out@.map_values(|v: Vec<T>| v@) == done,
            done + batches(rest@) == batches(orig),
        ensures
            out@.map_values(|v: Vec<T>| v@) == batches(orig),
        decreases rest@.len(),
    {
        if rest.len() <= MAX_TWEET_RESULTS {
            let ghost last = rest@;
            out.push(rest);
            proof {
                assert(batches(last) == seq![last]);
                assert(out@.map_values(|v: Vec<T>| v@) =~= done.push(last));
                assert(done + seq![last] =~= done.push(last));
            }
            break;
        }
        let ghost before = rest@;
        let tail = rest.split_off(MAX_TWEET_RESULTS);
        proof {
            assert(rest@ =~= before.take(MAX_TWEET_RESULTS as int));
            assert(tail@ =~= before.skip(MAX_TWEET_RESULTS as int));
            assert(batches(before) == seq![rest@] + batches(tail@));
            assert(done + batches(before) =~= done.push(rest@) + batches(tail@));
            done = done.push(rest@);
        }
        out.push(rest);
        assert(out@.map_values(|v: Vec<T>| v@) =~= done);
        rest = tail;
    }
    out
}

/// Law: the batches, put back together, are the items in order; each holds
/// at most `MAX_TWEET_RESULTS` items, and only the batch of no items is empty.
pub proof fn lemma_batches_partition<T>(s: Seq<T>)
    ensures
        flatten_seqs(batches(s)) == s,
        forall|i: int| 0 <= i < batches(s).len() ==> (#[trigger] batches(s)[i]).len() <= MAX_TWEET_RESULTS,
        forall|i: int| 0 <= i < batches(s).len() && s.len() > 0 ==> (#[trigger] batches(s)[i]).len() > 0,
        batches(s).len() >= 1,
    decreases s.len(),
{
    if s.len() <= MAX_TWEET_RESULTS {
        assert(batches(s) == seq![s]);
        assert(seq![s].drop_first() =~= Seq::<Seq<T>>::empty());
        assert(flatten_seqs(seq![s]) == s + flatten_seqs(Seq::<Seq<T>>::empty()));
        assert(s + Seq::<T>::empty() =~= s);
    } else {
        let tail = s.skip(MAX_TWEET_RESULTS as int);
        lemma_batches_partition(tail);
        let b = batches(s);
        assert(b == seq![s.take(MAX_TWEET_RESULTS as int)] + batches(tail));
        assert(b.drop_first() =~= batches(tail));
        assert(b[0] == s.take(MAX_TWEET_RESULTS as int));
        assert(s.take(MAX_TWEET_RESULTS as int) + tail =~= s);
        assert forall|i: int| 0 <= i < b.len() implies (#[trigger] b[i]).len() <= MAX_TWEET_RESULTS by {
            if i > 0 {
                assert(b[i] == batches(tail)[i - 1]);
            }
        }
        assert forall|i: int| 0 <= i < b.len() && s.len() > 0 implies (#[trigger] b[i]).len() > 0 by {
            if i > 0 {
                assert(b[i] == batches(tail)[i - 1]);
            }
        }
    }
}

/// What the service stores of a link shared in a tweet: its host without
/// `www.`, its stored form, and whether it points at Twitter itself.
#[derive(Debug)]
pub struct TweetUrlParts {
    pub expanded_url_host: String,
    pub expanded_url_parsed: String,
    pub is_twitter_url: bool,
}

/// The parts of a shared link, where it parses as a URL with a host (the
/// link is skipped otherwise).
pub fn tweet_url_parts(expanded_url: &str) -> (r: Option<TweetUrlParts>)
    ensures
        r is Some <==> (url_parse_result(expanded_url@) matches Some(u) && url_host_of(u) is Some),
        r matches Some(p) ==> {
            let u = url_parse_result(expanded_url@)->0;
            let host = url_host_of(u)->0;
            &&& p.expanded_url_host@ == remove_all(host, "www."@)
            &&& p.expanded_url_parsed@ == expanded_url_parsed_spec(u, host)
            &&& p.is_twitter_url == (has_prefix(expanded_url@, "https://twitter.com"@)
                || has_prefix(expanded_url@, "https://mobile.twitter.com"@))
        },
{
    match ParsedUrl::parse(expanded_url) {
        Some(parsed) => match parsed.host_str() {
            Some(host) => {
                proof {
                    reveal_strlit("www.");
                }
                let expanded_url_host = remove_all_str(host.as_str(), "www.");
                let expanded_url_parsed = get_expanded_url_parsed(&parsed);
                let is_twitter_url = starts_with(expanded_url, "https://twitter.com") || starts_with(
                    expanded_url,
                    "https://mobile.twitter.com",
                );
                Some(TweetUrlParts { expanded_url_host, expanded_url_parsed, is_twitter_url })
            },
            None => None,
        },
        None => None,
    }
}

/// Hours after which the members of a list are read again (a week).
pub const LIST_REFRESH_HOURS: i64 = 168;

/// Minutes after which a user's tweets are read again.
pub const USER_REFRESH_MINUTES: i64 = 120;

/// Whether a list last checked `hours_since_checked` hours ago is read again.
pub fn list_needs_refresh(hours_since_checked: i64) -> (r: bool)
    ensures
        r == (hours_since_checked > LIST_REFRESH_HOURS),
{
    hours_since_checked > LIST_REFRESH_HOURS
}

/// Whether a user last checked `minutes_since_checked` minutes ago has their
/// tweets read again.
pub fn user_needs_tweet_refresh(minutes_since_checked: i64) -> (r: bool)
    ensures
        r == (minutes_since_checked > USER_REFRESH_MINUTES),
{
    minutes_since_checked > USER_REFRESH_MINUTES
}

/// The id of the newest tweet read (the first one), which becomes the user's
/// watermark.
pub fn last_tweet_id(tweets: &Vec<Tweet>) -> (r: Option<i64>)
    ensures
        r == (if tweets@.len() > 0 { Some(tweets@[0].id.0 as i64) } else { None::<i64> }),
{
    if tweets.len() > 0 {
        Some(numeric_id_to_i64(tweets[0].id))
    } else {
        None
    }
}

/// The references of all the tweets, tweet after tweet.
pub open spec fn all_references(tweets: Seq<Tweet>) -> Seq<(i64, i64, Seq<char>)>
    decreases tweets.len(),
{
    if tweets.len() == 0 {
        Seq::empty()
    } else {
        all_references(tweets.drop_last()) + tweet_references(tweets.last())
    }
}

/// The references of all the tweets read, in order.
pub fn all_referenced_tweets(tweets: &Vec<Tweet>) -> (r: Vec<NewsReferencedTweet>)
    ensures
        r@.map_values(|x: NewsReferencedTweet| referenced_view(x)) == all_references(tweets@),
{
    let mut all: Vec<NewsReferencedTweet> = Vec::new();
    let mut i: usize = 0;
    while i < tweets.len()
        invariant
            i <= tweets.len(),
            all@.map_values(|x: NewsReferencedTweet| referenced_view(x)) == all_references(tweets@.take(i as int)),
        decreases tweets.len() - i,
    {
        assert(tweets@.take(i + 1).drop_last() =~= tweets@.take(i as int));
        let mut refs = parse_news_referenced_tweets(&tweets[i]);
        let ghost before = all@;
        all.append(&mut refs);
        assert(all@.map_values(|x: NewsReferencedTweet| referenced_view(x)) =~= before.map_values(
            |x: NewsReferencedTweet| referenced_view(x),
        ) + tweet_references(tweets@[i as int]));
        i = i + 1;
    }
    assert(tweets@.take(i as int) =~= tweets@);
    all
}

/// Public counts of a Twitter user.
#[derive(Debug, Clone, Copy)]
pub struct PublicMetrics {
    pub followers_count: usize,
    pub listed_count: usize,
}

/// What the service reads of a Twitter user.
#[derive(Debug)]
pub struct TwitterUser {
    pub id: NumericId,
    pub username: String,
    pub profile_image_url: Option<String>,
    pub description: Option<String>,
    pub verified: Option<bool>,
    pub public_metrics: Option<PublicMetrics>,
}

/// `user_row` is the new row of `user`, updated and checked at the given times.
pub open spec fn twitter_user_row(user_row: NewsTwitterUser, user: TwitterUser, last_updated_at: i64, last_checked_at: i64) -> bool {
    &&& user_row.user_id == user.id.0 as i64
    &&& user_row.username@ == user.username@
    &&& opt_view(user_row.profile_image_url) == opt_view(user.profile_image_url)
    &&& opt_view(user_row.description) == opt_view(user.description)
    &&& user_row.verified == user.verified
    &&& user_row.followers_count == match user.public_metrics {
        Some(pm) => pm.followers_count as i32,
        None => 0i32,
    }
    &&& user_row.listed_count == match user.public_metrics {
        Some(pm) => pm.listed_count as i32,
        None => 0i32,
    }
    &&& user_row.user_referenced_tweets_count is None
    &&& user_row.user_score is None
    &&& user_row.last_tweet_id is None
    &&& user_row.last_updated_at == last_updated_at
    &&& user_row.last_checked_at == last_checked_at
}

/// The row of a Twitter user met for the first time.
pub fn news_twitter_user_from(user: &TwitterUser, last_updated_at: i64, last_checked_at: i64) -> (r: NewsTwitterUser)
    ensures
        twitter_user_row(r, *user, last_updated_at, last_checked_at),
{
    let (followers_count, listed_count): (i32, i32) = match user.public_metrics {
        Some(pm) => (pm.followers_count as i32, pm.listed_count as i32),
        None => (0, 0),
    };
    NewsTwitterUser {
        user_id: numeric_id_to_i64(user.id),
        username: user.username.clone(),
        profile_image_url: clone_opt(&user.profile_image_url),
        description: clone_opt(&user.description),
        verified: user.verified,
        followers_count,
        listed_count,
        user_referenced_tweets_count: None,
        user_score: None,
        last_tweet_id: None,
        last_updated_at,
        last_checked_at,
    }
}

/// A tweet of a followed user that refers to a tweet of `referenced_author_id`.
#[derive(Debug, Clone, Copy)]
pub struct UserReferencedTweet {
    pub referenced_author_id: i64,
    pub tweet_id: i64,
}

/// The authors that some tweet of `refs` refers to.
pub open spec fn referenced_authors(refs: Seq<UserReferencedTweet>) -> Set<i64> {
    Set::new(|a: i64| exists|j: int| 0 <= j < refs.len() && #[trigger] refs[j].referenced_author_id == a)
}

/// The tweets of `refs` that refer to author `a`.
pub open spec fn referring_tweets(refs: Seq<UserReferencedTweet>, a: i64) -> Set<i64> {
    Set::new(|t: i64| exists|j: int| 0 <= j < refs.len() && #[trigger] refs[j].referenced_author_id == a && refs[j].tweet_id == t)
}

/// An author is popular when more than 50 and at most 100 distinct tweets refer to it.
pub open spec fn is_popular(refs: Seq<UserReferencedTweet>, a: i64) -> bool {
    50 < referring_tweets(refs, a).len() <= 100
}

/// One more tweet adds its author to the referenced authors and its id to
/// the tweets that refer to that author, and changes nothing else.
proof fn lemma_refs_push(p: Seq<UserReferencedTweet>, r: UserReferencedTweet, a: i64)
    ensures
        referenced_authors(p.push(r)).contains(a) <==> (referenced_authors(p).contains(a) || a == r.referenced_author_id),
        referring_tweets(p.push(r), a) == (if a == r.referenced_author_id {
            referring_tweets(p, a).insert(r.tweet_id)
        } else {
            referring_tweets(p, a)
        }),
{
    let q = p.push(r);
    assert forall|j: int| 0 <= j < p.len() implies #[trigger] q[j] == p[j] by {}
    assert(q[p.len() as int] == r);
    if referenced_authors(q).contains(a) {
        let j = choose|j: int| 0 <= j < q.len() && #[trigger] q[j].referenced_author_id == a;
        if j < p.len() {
            assert(p[j].referenced_author_id == a);
        }
    }
    if referenced_authors(p).contains(a) {
        let j = choose|j: int| 0 <= j < p.len() && #[trigger] p[j].referenced_author_id == a;
        assert(q[j].referenced_author_id == a);
    }
    let expected = if a == r.referenced_author_id {
        referring_tweets(p, a).insert(r.tweet_id)
    } else {
        referring_tweets(p, a)
    };
    assert forall|t: i64| referring_tweets(q, a).contains(t) <==> expected.contains(t) by {
        if referring_tweets(q, a).contains(t) {
            let j = choose|j: int| 0 <= j < q.len() && #[trigger] q[j].referenced_author_id == a && q[j].tweet_id == t;
            if j < p.len() {
                assert(p[j].referenced_author_id == a && p[j].tweet_id == t);
            }
        }
        if referring_tweets(p, a).contains(t) {
            let j = choose|j: int| 0 <= j < p.len() && #[trigger] p[j].referenced_author_id == a && p[j].tweet_id == t;
            assert(q[j].referenced_author_id == a && q[j].tweet_id == t);
        }
        if a == r.referenced_author_id && t == r.tweet_id {
            assert(q[p.len() as int].referenced_author_id == a && q[p.len() as int].tweet_id == t);
        }
    }
    assert(referring_tweets(q, a) =~= expected);
}

/// The map from each referenced author to the ids of the tweets that refer
/// to it, over `refs`.
pub open spec fn is_author_map(m: Map<i64, HashSet<i64>>, refs: Seq<UserReferencedTweet>) -> bool {
    &&& forall|a: i64| #[trigger] m.contains_key(a) <==> referenced_authors(refs).contains(a)
    &&& forall|a: i64| #[trigger] m.contains_key(a) ==> m[a]@ == referring_tweets(refs, a)
}

/// The authors referred to by more than 50 and at most 100 distinct tweets,
/// each once, in the order in which the map of authors yields them.
pub fn popular_referenced_author_ids(refs: &Vec<UserReferencedTweet>) -> (r: Vec<i64>)
    ensures
        r@.no_duplicates(),
        forall|a: i64| #[trigger] r@.contains(a) <==> (referenced_authors(refs@).contains(a) && is_popular(refs@, a)),
{
    let mut author_map: HashMap<i64, HashSet<i64>> = HashMap::new();
    let mut i: usize = 0;
    assert(is_author_map(author_map@, refs@.take(0)));
    while i < refs.len()
        invariant
            i <= refs.len(),
            is_author_map(author_map@, refs@.take(i as int)),
        decreases refs.len() - i,
    {
        let ghost prefix = refs@.take(i as int);
        let r = refs[i];
        assert(refs@.take(i + 1) =~= prefix.push(r));
        let author_id = r.referenced_author_id;
        let mut tweets: HashSet<i64> = match author_map.remove(&author_id) {
            Some(s) => s,
            None => HashSet::new(),
        };
        tweets.insert(r.tweet_id);
        author_map.insert(author_id, tweets);
        assert forall|a: i64| #[trigger] author_map@.contains_key(a) <==> referenced_authors(prefix.push(r)).contains(a) by {
            lemma_refs_push(prefix, r, a);
        }
        assert forall|a: i64| #[trigger] author_map@.contains_key(a) implies author_map@[a]@ == referring_tweets(prefix.push(r), a) by {
            lemma_refs_push(prefix, r, a);
        }
        i = i + 1;
    }
    assert(refs@.take(i as int) =~= refs@);
    let mut out: Vec<i64> = Vec::new();
    let ghost mut seen: Set<i64> = Set::empty();
    for author_id in it: author_map.keys()
        invariant
            is_author_map(author_map@, refs@),
            it.seq().no_duplicates(),
            it.seq().unref().to_set() == author_map@.dom(),
            seen == it.seq().take(it.index()).unref().to_set(),
            it.index() == it.seq().len() ==> seen == author_map@.dom(),
            out@.no_duplicates(),
            forall|a: i64| #[trigger] out@.contains(a) <==> seen.contains(a) && is_popular(refs@, a),
    {
        let ghost idx = it.index();
        assert(*author_id == *it.seq()[idx]);
        assert(it.seq().unref()[idx] == *author_id);
        assert(author_map@.dom().contains(*author_id));
        let tweet_count = match author_map.get(author_id) {
            Some(s) => s.len(),
            None => 0,
        };
        assert(tweet_count == referring_tweets(refs@, *author_id).len());
        let ghost before = out@;
        let ghost old_seen = seen;
        assert(!seen.contains(*author_id)) by {
            if seen.contains(*author_id) {
                assert(it.seq().take(idx).unref().contains(*author_id));
                let k = choose|k: int| 0 <= k < idx && it.seq().take(idx).unref()[k] == *author_id;
                assert(it.seq()[k] == it.seq()[idx]);
            }
        }
        assert(!before.contains(*author_id));
        if 50 < tweet_count && tweet_count <= 100 {
            out.push(*author_id);
        }
        assert(out@ == if is_popular(refs@, *author_id) { before.push(*author_id) } else { before });
        proof {
            seen = seen.insert(*author_id);
        }
        assert(seen == it.seq().take(idx + 1).unref().to_set()) by {
            let prev = it.seq().take(idx).unref();
            let next = it.seq().take(idx + 1).unref();
            assert(next =~= prev.push(*author_id));
            assert forall|x: i64| next.contains(x) <==> prev.contains(x) || x == *author_id by {
                if next.contains(x) {
                    let k = choose|k: int| 0 <= k < next.len() && next[k] == x;
                    if k < idx {
                        assert(prev[k] == x);
                    }
                }
                if prev.contains(x) {
                    let k = choose|k: int| 0 <= k < prev.len() && prev[k] == x;
                    assert(next[k] == x);
                }
                if x == *author_id {
                    assert(next[idx] == x);
                }
            }
            assert(next.to_set() =~= old_seen.insert(*author_id));
        }
        assert(idx + 1 == it.seq().len() ==> seen == author_map@.dom()) by {
            if idx + 1 == it.seq().len() {
                assert(it.seq().take(idx + 1) =~= it.seq());
            }
        }
        assert forall|a: i64| #[trigger] out@.contains(a) <==> seen.contains(a) && is_popular(refs@, a) by {
            assert(before.contains(a) <==> old_seen.contains(a) && is_popular(refs@, a));
            if is_popular(refs@, *author_id) {
                assert(out@.contains(a) <==> before.contains(a) || a == *author_id) by {
                    if out@.contains(a) {
                        let j = choose|j: int| 0 <= j < out@.len() && out@[j] == a;
                        if j < before.len() {
                            assert(before[j] == a);
                        }
                    }
                    if before.contains(a) {
                        let j = choose|j: int| 0 <= j < before.len() && before[j] == a;
                        assert(out@[j] == a);
                    }
                    if a == *author_id {
                        assert(out@[before.len() as int] == a);
                    }
                }
            }
        }
    }
    assert(seen == author_map@.dom());
    out
}

} // verus!
