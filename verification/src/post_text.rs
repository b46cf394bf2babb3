//! Texts of the Bluesky posts that announce a news feed link.

use vstd::prelude::*;
use crate::models::{NewsFeedUrlQuery, NewsFeedUrlReferencesQuery};
use crate::text::{decimal_digits, decimal_string};

verus! {

/// Byte length that a link takes in a post, whatever its text.
pub const POST_URL_PLACEHOLDER_LENGTH: usize = 20;

/// Longest post text, in bytes, that is posted in its long form.
pub const MAX_POST_CHARACTER_COUNT: usize = 300;

/// Fewest shares a link needs before it is posted.
pub const NEWS_FEED_MIN_NUM_SHARES_BEFORE_POSTING: i32 = 2;

pub open spec fn others_suffix(k: nat) -> Seq<char> {
    if k == 1 {
        " and 1 other"@
    } else {
        " and "@ + decimal_digits(k) + " others"@
    }
}

/// "Shared by ..." for `n` sharers whose first names are `names`
/// (all of them when there are at most three, else the first three).
pub open spec fn shared_by_spec(names: Seq<Seq<char>>, n: nat) -> Seq<char> {
    if n == 0 {
        Seq::empty()
    } else if n == 1 {
        "Shared by @"@ + names[0]
    } else if n == 2 {
        "Shared by @"@ + names[0] + " and @"@ + names[1]
    } else if n == 3 {
        "Shared by @"@ + names[0] + ", @"@ + names[1] + " and @"@ + names[2]
    } else {
        "Shared by @"@ + names[0] + ", @"@ + names[1] + ", @"@ + names[2] + others_suffix(
            (n - 3) as nat,
        )
    }
}

pub open spec fn min3(n: nat) -> nat {
    if n < 3 {
        n
    } else {
        3
    }
}

/// The author handles of the references that have one, in order.
pub open spec fn handles_of(refs: Seq<NewsFeedUrlReferencesQuery>) -> Seq<Seq<char>>
    decreases refs.len(),
{
    if refs.len() == 0 {
        Seq::empty()
    } else {
        let prev = handles_of(refs.drop_last());
        match refs.last().author_handle {
            Some(h) => prev.push(h@),
            None => prev,
        }
    }
}

/// `s` without repeated elements: each first occurrence, in order.
pub open spec fn unique_spec(s: Seq<Seq<char>>) -> Seq<Seq<char>>
    decreases s.len(),
{
    if s.len() == 0 {
        Seq::empty()
    } else {
        let prev = unique_spec(s.drop_last());
        if prev.contains(s.last()) {
            prev
        } else {
            prev.push(s.last())
        }
    }
}

/// The distinct author handles of the references, in order of first appearance.
pub open spec fn unique_handles_spec(refs: Seq<NewsFeedUrlReferencesQuery>) -> Seq<Seq<char>> {
    unique_spec(handles_of(refs))
}

pub open spec fn post_shared_by_spec(refs: Seq<NewsFeedUrlReferencesQuery>) -> Seq<char> {
    let h = unique_handles_spec(refs);
    shared_by_spec(h, h.len())
}

pub open spec fn title_or_empty(t: Option<String>) -> Seq<char> {
    match t {
        Some(s) => s@,
        None => Seq::empty(),
    }
}

pub open spec fn post_text_long_spec(
    url: NewsFeedUrlQuery,
    refs: Seq<NewsFeedUrlReferencesQuery>,
) -> Seq<char> {
    title_or_empty(url.title) + "\n\nPosts: https://climatenews.app/news_feed/"@ + url.url_slug@
        + "\n\n"@ + post_shared_by_spec(refs) + "\n\nArticle link: "@ + url.expanded_url_parsed@
}

pub open spec fn post_text_short_spec(url: NewsFeedUrlQuery) -> Seq<char> {
    title_or_empty(url.title) + "\n\nPosts: https://climatenews.app/news_feed/"@ + url.url_slug@
        + "\n\nArticle link: "@ + url.expanded_url_parsed@
}

/// The long post with the links left out, whose byte length estimates the post's.
pub open spec fn post_text_long_skeleton(
    url: NewsFeedUrlQuery,
    refs: Seq<NewsFeedUrlReferencesQuery>,
) -> Seq<char> {
    title_or_empty(url.title) + "\n\nPosts:\n\n"@ + post_shared_by_spec(refs)
        + "\n\nArticle link: "@
}

/// Builds the "Shared by ..." text from the first names and the number of sharers.
pub fn shared_by_text(names: &Vec<String>, n: usize) -> (s: String)
    requires
        names.len() == min3(n as nat),
    ensures
        s@ == shared_by_spec(names@.map_values(|x: String| x@), n as nat),
{
    let ghost v = names@.map_values(|x: String| x@);
    let mut s = String::new();
    if n >= 1 {
        s.append("Shared by @");
        s.append(names[0].as_str());
    }
    if n == 2 {
        s.append(" and @");
        s.append(names[1].as_str());
    } else if n >= 3 {
        s.append(", @");
        s.append(names[1].as_str());
        if n == 3 {
            s.append(" and @");
            s.append(names[2].as_str());
        } else {
            s.append(", @");
            s.append(names[2].as_str());
            if n == 4 {
                s.append(" and 1 other");
            } else {
                s.append(" and ");
                let k = decimal_string(n - 3);
                s.append(k.as_str());
                s.append(" others");
            }
        }
    }
    proof {
        if n >= 1 {
            assert(v[0] == names@[0]@);
        }
        if n >= 2 {
            assert(v[1] == names@[1]@);
        }
        if n >= 3 {
            assert(v[2] == names@[2]@);
        }
    }
    assert(s@ =~= shared_by_spec(v, n as nat));
    s
}

/// The distinct author handles of the references, in order of first appearance.
pub fn get_unique_referenced_handles(news_feed_url_references: &Vec<NewsFeedUrlReferencesQuery>) -> (handles: Vec<String>)
    ensures
        handles@.map_values(|x: String| x@) == unique_handles_spec(news_feed_url_references@),
{
    let mut out: Vec<String> = Vec::new();
    let ghost mut all: Seq<Seq<char>> = Seq::empty();
    let mut i: usize = 0;
    while i < news_feed_url_references.len()
        invariant
            i <= news_feed_url_references.len(),
            all == handles_of(news_feed_url_references@.take(i as int)),
            out@.map_values(|x: String| x@) == unique_spec(all),
        decreases news_feed_url_references.len() - i,
    {
        assert(news_feed_url_references@.take(i + 1).drop_last() =~= news_feed_url_references@.take(
            i as int,
        ));
        match &news_feed_url_references[i].author_handle {
            Some(h) => {
                let ghost prev = unique_spec(all);
                let found = contains_string(&out, h);
                proof {
                    all = all.push(h@);
                    assert(all.drop_last() =~= handles_of(news_feed_url_references@.take(i as int)));
                }
                if !found {
                    out.push(h.clone());
                    assert(out@.map_values(|x: String| x@) =~= prev.push(h@));
                }
            },
            None => {},
        }
        i = i + 1;
    }
    assert(news_feed_url_references@.take(i as int) =~= news_feed_url_references@);
    out
}

fn contains_string(v: &Vec<String>, x: &String) -> (b: bool)
    ensures
        b == v@.map_values(|s: String| s@).contains(x@),
{
    let ghost vv = v@.map_values(|s: String| s@);
    let mut i: usize = 0;
    while i < v.len()
        invariant
            i <= v.len(),
            vv == v@.map_values(|s: String| s@),
            forall|j: int| 0 <= j < i ==> vv[j] != x@,
        decreases v.len() - i,
    {
        if v[i] == *x {
            assert(vv[i as int] == x@);
            return true;
        }
        i = i + 1;
    }
    assert(!vv.contains(x@));
    false
}

/// "Shared by ..." naming up to three distinct sharers and counting the rest.
pub fn post_shared_by_text(news_feed_url_references: &Vec<NewsFeedUrlReferencesQuery>) -> (s: String)
    ensures
        s@ == post_shared_by_spec(news_feed_url_references@),
{
    let handles = get_unique_referenced_handles(news_feed_url_references);
    let n = handles.len();
    let mut first: Vec<String> = Vec::new();
    let mut i: usize = 0;
    while i < n && i < 3
        invariant
            n == handles.len(),
            i <= 3,
            i <= n,
            first.len() == i,
            forall|j: int| 0 <= j < i ==> first@[j]@ == handles@[j]@,
        decreases 3 - i,
    {
        first.push(handles[i].clone());
        i = i + 1;
    }
    let s = shared_by_text(&first, n);
    proof {
        let h = handles@.map_values(|x: String| x@);
        let f = first@.map_values(|x: String| x@);
        assert forall|j: int| 0 <= j < f.len() implies f[j] == h[j] by {}
        assert(shared_by_spec(f, n as nat) == shared_by_spec(h, n as nat));
    }
    s
}

/// The long form of a post: title, link to the feed page, sharers, article link.
pub fn get_post_text_long(
    news_feed_url: &NewsFeedUrlQuery,
    news_feed_url_references: &Vec<NewsFeedUrlReferencesQuery>,
) -> (s: String)
    ensures
        s@ == post_text_long_spec(*news_feed_url, news_feed_url_references@),
{
    let mut s = title_string(&news_feed_url.title);
    s.append("\n\nPosts: https://climatenews.app/news_feed/");
    s.append(news_feed_url.url_slug.as_str());
    s.append("\n\n");
    let shared = post_shared_by_text(news_feed_url_references);
    s.append(shared.as_str());
    s.append("\n\nArticle link: ");
    s.append(news_feed_url.expanded_url_parsed.as_str());
    s
}

/// The short form of a post: title, link to the feed page, article link.
pub fn get_post_text_short(news_feed_url: &NewsFeedUrlQuery) -> (s: String)
    ensures
        s@ == post_text_short_spec(*news_feed_url),
{
    let mut s = title_string(&news_feed_url.title);
    s.append("\n\nPosts: https://climatenews.app/news_feed/");
    s.append(news_feed_url.url_slug.as_str());
    s.append("\n\nArticle link: ");
    s.append(news_feed_url.expanded_url_parsed.as_str());
    s
}

/// Estimated byte length of the long post: its text without the two links,
/// plus room for each link.
pub fn get_post_text_long_len(
    news_feed_url: &NewsFeedUrlQuery,
    news_feed_url_references: &Vec<NewsFeedUrlReferencesQuery>,
) -> (n: usize)
    requires
        vstd::utf8::encode_utf8(post_text_long_skeleton(*news_feed_url, news_feed_url_references@)).len()
            + 2 * POST_URL_PLACEHOLDER_LENGTH <= usize::MAX,
    ensures
        n == vstd::utf8::encode_utf8(post_text_long_skeleton(*news_feed_url, news_feed_url_references@)).len()
            + 2 * POST_URL_PLACEHOLDER_LENGTH,
{
    let mut s = title_string(&news_feed_url.title);
    s.append("\n\nPosts:\n\n");
    let shared = post_shared_by_text(news_feed_url_references);
    s.append(shared.as_str());
    s.append("\n\nArticle link: ");
    s.as_str().len() + POST_URL_PLACEHOLDER_LENGTH * 2
}

fn title_string(title: &Option<String>) -> (s: String)
    ensures
        s@ == title_or_empty(*title),
{
    match title {
        Some(t) => t.clone(),
        None => String::new(),
    }
}

/// Law: the distinct handles name each handle once, and name exactly the
/// handles that occur.
pub proof fn lemma_unique_handles(s: Seq<Seq<char>>)
    ensures
        forall|i: int, j: int| 0 <= i < j < unique_spec(s).len() ==> unique_spec(s)[i] != unique_spec(s)[j],
        forall|x: Seq<char>| unique_spec(s).contains(x) <==> s.contains(x),
    decreases s.len(),
{
    if s.len() > 0 {
        let prev = s.drop_last();
        lemma_unique_handles(prev);
        let u = unique_spec(prev);
        assert forall|x: Seq<char>| unique_spec(s).contains(x) <==> s.contains(x) by {
            if s.contains(x) {
                let k = choose|k: int| 0 <= k < s.len() && s[k] == x;
                if k < s.len() - 1 {
                    assert(prev[k] == x);
                    assert(prev.contains(x));
                    assert(u.contains(x));
                    let m = choose|m: int| 0 <= m < u.len() && u[m] == x;
                    if !u.contains(s.last()) {
                        assert(u.push(s.last())[m] == x);
                    }
                } else {
                    if !u.contains(s.last()) {
                        assert(u.push(s.last())[u.len() as int] == x);
                    }
                }
            }
            if unique_spec(s).contains(x) {
                let k = choose|k: int| 0 <= k < unique_spec(s).len() && unique_spec(s)[k] == x;
                if u.contains(s.last()) {
                    assert(unique_spec(s) == u);
                    assert(u[k] == x);
                    assert(u.contains(x));
                    assert(prev.contains(x));
                    let m = choose|m: int| 0 <= m < prev.len() && prev[m] == x;
                    assert(s[m] == x);
                } else if k < u.len() {
                    assert(u[k] == x);
                    assert(u.contains(x));
                    assert(prev.contains(x));
                    let m = choose|m: int| 0 <= m < prev.len() && prev[m] == x;
                    assert(s[m] == x);
                } else {
                    assert(s[s.len() - 1] == x);
                }
            }
        }
    }
}

} // verus!
