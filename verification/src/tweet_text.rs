//! Texts of the tweets that announce a news feed link.

use vstd::prelude::*;
use crate::post_text::{min3, shared_by_spec, shared_by_text};
use crate::twitter_models::{NewsFeedUrlQuery, NewsFeedUrlReferencesQuery};

verus! {

/// Fewest shares a link needs before it is tweeted.
pub const NEWS_FEED_MIN_NUM_SHARES_BEFORE_TWEETING: i32 = 2;

/// The name shown for the sharer of a tweet.
pub open spec fn sharer_name(r: NewsFeedUrlReferencesQuery) -> Seq<char> {
    r.username.unwrap()@
}

/// "Shared by ..." naming the first three sharing tweets' users and counting the rest.
pub open spec fn tweet_shared_by_spec(refs: Seq<NewsFeedUrlReferencesQuery>) -> Seq<char> {
    shared_by_spec(refs.map_values(|r: NewsFeedUrlReferencesQuery| sharer_name(r)), refs.len())
}

pub open spec fn tweet_text_spec(
    url: NewsFeedUrlQuery,
    refs: Seq<NewsFeedUrlReferencesQuery>,
) -> Seq<char> {
    url.title@ + "\n\nMore info: https://climatenews.app/news_feed/"@ + url.url_slug@ + "\n\n"@
        + tweet_shared_by_spec(refs) + "\n\nArticle link: "@ + url.expanded_url_parsed@
        + "\n#ClimateNews"@
}

/// Whether the references that a tweet names all have a user name.
pub open spec fn named_sharers(refs: Seq<NewsFeedUrlReferencesQuery>) -> bool {
    forall|i: int| 0 <= i < min3(refs.len()) ==> (#[trigger] refs[i]).username is Some
}

/// "Shared by ..." naming the users of the first three sharing tweets and counting the rest.
pub fn tweet_shared_by_text(news_feed_url_references: &Vec<NewsFeedUrlReferencesQuery>) -> (s: String)
    requires
        named_sharers(news_feed_url_references@),
    ensures
        s@ == tweet_shared_by_spec(news_feed_url_references@),
{
    let n = news_feed_url_references.len();
    let mut first: Vec<String> = Vec::new();
    let mut i: usize = 0;
    while i < n && i < 3
        invariant
            n == news_feed_url_references.len(),
            named_sharers(news_feed_url_references@),
            i <= 3,
            i <= n,
            first.len() == i,
            forall|j: int| 0 <= j < i ==> first@[j]@ == sharer_name(news_feed_url_references@[j]),
        decreases 3 - i,
    {
        assert(news_feed_url_references@[i as int].username is Some);
        match &news_feed_url_references[i].username {
            Some(name) => {
                first.push(name.clone());
            },
            None => {},
        }
        i = i + 1;
    }
    let s = shared_by_text(&first, n);
    proof {
        let all = news_feed_url_references@.map_values(|r: NewsFeedUrlReferencesQuery| sharer_name(r));
        let f = first@.map_values(|x: String| x@);
        assert forall|j: int| 0 <= j < f.len() implies f[j] == all[j] by {}
        assert(shared_by_spec(f, n as nat) == shared_by_spec(all, n as nat));
    }
    s
}

/// The tweet announcing a link: title, link to the feed page, sharers, article link, tag.
pub fn get_tweet_text(
    news_feed_url: &NewsFeedUrlQuery,
    news_feed_url_references: &Vec<NewsFeedUrlReferencesQuery>,
) -> (s: String)
    requires
        named_sharers(news_feed_url_references@),
    ensures
        s@ == tweet_text_spec(*news_feed_url, news_feed_url_references@),
{
    let mut s = news_feed_url.title.clone();
    s.append("\n\nMore info: https://climatenews.app/news_feed/");
    s.append(news_feed_url.url_slug.as_str());
    s.append("\n\n");
    let shared = tweet_shared_by_text(news_feed_url_references);
    s.append(shared.as_str());
    s.append("\n\nArticle link: ");
    s.append(news_feed_url.expanded_url_parsed.as_str());
    s.append("\n#ClimateNews");
    s
}

} // verus!
