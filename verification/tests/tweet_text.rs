use news_service::tweet_text::{get_tweet_text, tweet_shared_by_text};
use news_service::twitter_models::{NewsFeedUrlQuery, NewsFeedUrlReferencesQuery};

#[test]
fn test_get_tweet_text() {
    let news_feed_url_query = NewsFeedUrlQuery {
        url_slug: String::from("example-slug"),
        url_id: 1,
        url_score: 100,
        num_references: 2,
        tweeted_at: None,
        first_referenced_by_username: String::from("climatenews_app"),
        created_at: 0,
        title: String::from("Example Title"),
        description: String::from("example description"),
        expanded_url_parsed: String::from("https://www.theguardian.com/environment/2022/dec/12/brazil-goldminers-carve-road-to-chaos-amazon-reserve"),
        expanded_url_host: String::from("https://www.theguardian.com"),
        display_url: String::from("https://www.theguardian.com"),
         preview_image_thumbnail_url: None,
         preview_image_url: None,
    };

    // Shared by 1 user
    let mut news_feed_url_references_list = vec![NewsFeedUrlReferencesQuery {
        url_id: 1,
        text: String::from("Example Title"),
        tweet_id: 1,
        author_id: 1,
        created_at: 0,
        created_at_str: String::from(""),
        username: Some(String::from("user1")),
        referenced_username: None,
        referenced_tweet_id: None,
        referenced_tweet_kind: None,
    }];

    assert_eq!(
        get_tweet_text(&news_feed_url_query, &news_feed_url_references_list),
        String::from("Example Title\n\nMore info: https://climatenews.app/news_feed/example-slug\n\nShared by @user1\n\nArticle link: https://www.theguardian.com/environment/2022/dec/12/brazil-goldminers-carve-road-to-chaos-amazon-reserve\n#ClimateNews")
    );

    // Shared by 2 users
    news_feed_url_references_list.push(NewsFeedUrlReferencesQuery {
        url_id: 1,
        text: String::from("Example Title"),
        tweet_id: 2,
        author_id: 2,
        created_at: 0,
        created_at_str: String::from(""),
        username: Some(String::from("user2")),
        referenced_username: None,
        referenced_tweet_id: None,
        referenced_tweet_kind: None,
    });

    assert_eq!(
                get_tweet_text(&news_feed_url_query, &news_feed_url_references_list),
                String::from("Example Title\n\nMore info: https://climatenews.app/news_feed/example-slug\n\nShared by @user1 and @user2\n\nArticle link: https://www.theguardian.com/environment/2022/dec/12/brazil-goldminers-carve-road-to-chaos-amazon-reserve\n#ClimateNews")
            );
    // Shared by 3 users
    news_feed_url_references_list.push(NewsFeedUrlReferencesQuery {
        url_id: 1,
        text: String::from("Example Title"),
        tweet_id: 2,
        author_id: 2,
        created_at: 0,
        created_at_str: String::from(""),
        username: Some(String::from("user3")),
        referenced_username: None,
        referenced_tweet_id: None,
        referenced_tweet_kind: None,
    });

    assert_eq!(
                get_tweet_text(&news_feed_url_query, &news_feed_url_references_list),
                String::from("Example Title\n\nMore info: https://climatenews.app/news_feed/example-slug\n\nShared by @user1, @user2 and @user3\n\nArticle link: https://www.theguardian.com/environment/2022/dec/12/brazil-goldminers-carve-road-to-chaos-amazon-reserve\n#ClimateNews")
            );

    // Shared by 4 users
    news_feed_url_references_list.push(NewsFeedUrlReferencesQuery {
        url_id: 1,
        text: String::from("Example Title"),
        tweet_id: 2,
        author_id: 2,
        created_at: 0,
        created_at_str: String::from(""),
        username: Some(String::from("user4")),
        referenced_username: None,
        referenced_tweet_id: None,
        referenced_tweet_kind: None,
    });

    assert_eq!(
                get_tweet_text(&news_feed_url_query, &news_feed_url_references_list),
                String::from("Example Title\n\nMore info: https://climatenews.app/news_feed/example-slug\n\nShared by @user1, @user2, @user3 and 1 other\n\nArticle link: https://www.theguardian.com/environment/2022/dec/12/brazil-goldminers-carve-road-to-chaos-amazon-reserve\n#ClimateNews")
            );

    // Shared by 5 users
    news_feed_url_references_list.push(NewsFeedUrlReferencesQuery {
        url_id: 1,
        text: String::from("Example Title"),
        tweet_id: 2,
        author_id: 2,
        created_at: 0,
        created_at_str: String::from(""),
        username: Some(String::from("user5")),
        referenced_username: None,
        referenced_tweet_id: None,
        referenced_tweet_kind: None,
    });

    assert_eq!(
                get_tweet_text(&news_feed_url_query, &news_feed_url_references_list),
                String::from("Example Title\n\nMore info: https://climatenews.app/news_feed/example-slug\n\nShared by @user1, @user2, @user3 and 2 others\n\nArticle link: https://www.theguardian.com/environment/2022/dec/12/brazil-goldminers-carve-road-to-chaos-amazon-reserve\n#ClimateNews")
            );
}

fn tweet_reference(username: &str) -> NewsFeedUrlReferencesQuery {
    NewsFeedUrlReferencesQuery {
        url_id: 1,
        text: String::from("text"),
        tweet_id: 1,
        author_id: 1,
        created_at: 0,
        created_at_str: String::from(""),
        username: Some(String::from(username)),
        referenced_username: None,
        referenced_tweet_id: None,
        referenced_tweet_kind: None,
    }
}

#[test]
fn tweet_shared_by_text_names_every_sharing_tweet() {
    // Repeated users are named again: each sharing tweet counts
    let refs = vec![tweet_reference("a"), tweet_reference("a")];
    assert_eq!(tweet_shared_by_text(&refs), String::from("Shared by @a and @a"));
    assert_eq!(tweet_shared_by_text(&vec![]), String::from(""));
}
