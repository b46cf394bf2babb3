use news_service::cron::{news_feed_url_to_post, news_feed_url_to_tweet, post_text, sort_by_created_at};
use news_service::models::{NewsFeedUrlQuery, NewsFeedUrlReferencesQuery};
use news_service::twitter_models;

fn url(num_references: i32, bsky_posted_at: Option<i64>, title: &str) -> NewsFeedUrlQuery {
    NewsFeedUrlQuery {
        url_slug: String::from("slug"),
        url_id: num_references,
        url_score: 1,
        num_references,
        bsky_posted_at,
        first_referenced_by_username: String::from("u"),
        created_at: 0,
        title: Some(String::from(title)),
        description: None,
        expanded_url_parsed: String::from("https://example.org/a"),
        expanded_url_host: String::from("example.org"),
        display_url: None,
        preview_image_thumbnail_url: None,
        preview_image_url: None,
    }
}

fn reference(handle: &str, created_at: i64) -> NewsFeedUrlReferencesQuery {
    NewsFeedUrlReferencesQuery {
        url_id: 1,
        text: String::from("t"),
        post_uri: String::from("at://p"),
        author_did: String::from("did:plc:p"),
        author_handle: Some(String::from(handle)),
        created_at,
        created_at_str: String::from(""),
    }
}

#[test]
fn the_first_link_awaiting_posting_is_chosen() {
    let urls = vec![url(5, Some(1), "posted"), url(1, None, "few"), url(2, None, "a"), url(3, None, "b")];
    assert_eq!(news_feed_url_to_post(&urls), Some(2));
    assert_eq!(news_feed_url_to_post(&vec![url(1, None, "few")]), None);
}

#[test]
fn the_first_link_awaiting_tweeting_is_chosen() {
    let mk = |num_references: i32, tweeted_at: Option<i64>| twitter_models::NewsFeedUrlQuery {
        url_slug: String::from("s"),
        url_id: 1,
        url_score: 1,
        num_references,
        tweeted_at,
        first_referenced_by_username: String::from("u"),
        created_at: 0,
        title: String::from("t"),
        description: String::from("d"),
        expanded_url_parsed: String::from("e"),
        expanded_url_host: String::from("h"),
        display_url: String::from("d"),
        preview_image_thumbnail_url: None,
        preview_image_url: None,
    };
    assert_eq!(news_feed_url_to_tweet(&vec![mk(3, Some(1)), mk(2, None)]), Some(1));
    assert_eq!(news_feed_url_to_tweet(&vec![mk(1, None)]), None);
}

#[test]
fn references_sort_stably_by_time() {
    let mut refs = vec![reference("c", 30), reference("a", 10), reference("d", 30), reference("b", 10)];
    sort_by_created_at(&mut refs);
    let order: Vec<Option<String>> = refs.into_iter().map(|r| r.author_handle).collect();
    assert_eq!(
        order,
        vec![Some(String::from("a")), Some(String::from("b")), Some(String::from("c")), Some(String::from("d"))]
    );
}

#[test]
fn long_titles_fall_back_to_the_short_post() {
    let refs = vec![reference("user1.bsky.social", 0)];
    let short = url(2, None, "T");
    assert_eq!(
        post_text(&short, &refs),
        "T\n\nPosts: https://climatenews.app/news_feed/slug\n\nShared by @user1.bsky.social\n\nArticle link: https://example.org/a"
    );
    let long_title = "x".repeat(260);
    let long = url(2, None, &long_title);
    assert_eq!(
        post_text(&long, &refs),
        format!("{}\n\nPosts: https://climatenews.app/news_feed/slug\n\nArticle link: https://example.org/a", long_title)
    );
}
