use news_service::models::{NewsFeedUrlQuery, NewsFeedUrlReferencesQuery};
use news_service::post_text::{
    get_post_text_long, get_post_text_long_len, get_post_text_short, get_unique_referenced_handles,
    post_shared_by_text,
};

fn reference(handle: Option<&str>, created_at: i64) -> NewsFeedUrlReferencesQuery {
    NewsFeedUrlReferencesQuery {
        url_id: 1,
        text: String::from("text"),
        post_uri: String::from("at://did:plc:x/app.bsky.feed.post/r"),
        author_did: String::from("did:plc:x"),
        author_handle: handle.map(String::from),
        created_at,
        created_at_str: String::from(""),
    }
}

#[test]
fn test_unique_struct_values() {
    // A list of unique names is extracted from records that repeat a name
    let data = vec![reference(Some("a"), 0), reference(Some("a"), 0)];
    let unique_names: Vec<String> = get_unique_referenced_handles(&data);
    assert_eq!(unique_names, vec![String::from("a")]);
}

#[test]
fn test_get_post_text() {
    let news_feed_url_query = NewsFeedUrlQuery {
        url_slug: String::from("example-slug"),
        url_id: 1,
        url_score: 100,
        num_references: 2,
        bsky_posted_at: None,
        first_referenced_by_username: String::from("user1.bsky.social"),
        created_at: 0,
        title: Some(String::from("Example Title")),
        description: Some(String::from("example description")),
        expanded_url_parsed: String::from("https://www.theguardian.com/environment/2022/dec/12/brazil-goldminers-carve-road-to-chaos-amazon-reserve"),
        expanded_url_host: String::from("www.theguardian.com"),
        display_url: Some(String::from("theguardian.com")),
        preview_image_thumbnail_url: None,
        preview_image_url: None,
    };

    // Shared by 1 user
    let mut news_feed_url_references_list = vec![NewsFeedUrlReferencesQuery {
        url_id: 1,
        text: String::from("Example Title"),
        post_uri: String::from("at://did:plc:user1/app.bsky.feed.post/rkey1"),
        author_did: String::from("did:plc:user1"),
        author_handle: Some(String::from("user1.bsky.social")),
        created_at: 0,
        created_at_str: String::from(""),
    }];

    assert_eq!(
        get_post_text_long(&news_feed_url_query, &news_feed_url_references_list),
        String::from("Example Title\n\nPosts: https://climatenews.app/news_feed/example-slug\n\nShared by @user1.bsky.social\n\nArticle link: https://www.theguardian.com/environment/2022/dec/12/brazil-goldminers-carve-road-to-chaos-amazon-reserve")
    );

    assert_eq!(
        get_post_text_long_len(&news_feed_url_query, &news_feed_url_references_list),
        107
    );

    // Shared by 2 users
    news_feed_url_references_list.push(NewsFeedUrlReferencesQuery {
        url_id: 1,
        text: String::from("Example Title"),
        post_uri: String::from("at://did:plc:user2/app.bsky.feed.post/rkey2"),
        author_did: String::from("did:plc:user2"),
        author_handle: Some(String::from("user2.bsky.social")),
        created_at: 0,
        created_at_str: String::from(""),
    });

    assert_eq!(
        get_post_text_long(&news_feed_url_query, &news_feed_url_references_list),
                String::from("Example Title\n\nPosts: https://climatenews.app/news_feed/example-slug\n\nShared by @user1.bsky.social and @user2.bsky.social\n\nArticle link: https://www.theguardian.com/environment/2022/dec/12/brazil-goldminers-carve-road-to-chaos-amazon-reserve")
            );
    // Shared by 3 users
    news_feed_url_references_list.push(NewsFeedUrlReferencesQuery {
        url_id: 1,
        text: String::from("Example Title"),
        post_uri: String::from("at://did:plc:user3/app.bsky.feed.post/rkey3"),
        author_did: String::from("did:plc:user3"),
        author_handle: Some(String::from("user3.bsky.social")),
        created_at: 0,
        created_at_str: String::from(""),
    });

    assert_eq!(
        get_post_text_long(&news_feed_url_query, &news_feed_url_references_list),
                String::from("Example Title\n\nPosts: https://climatenews.app/news_feed/example-slug\n\nShared by @user1.bsky.social, @user2.bsky.social and @user3.bsky.social\n\nArticle link: https://www.theguardian.com/environment/2022/dec/12/brazil-goldminers-carve-road-to-chaos-amazon-reserve")
            );

    // Shared by 4 users
    news_feed_url_references_list.push(NewsFeedUrlReferencesQuery {
        url_id: 1,
        text: String::from("Example Title"),
        post_uri: String::from("at://did:plc:user4/app.bsky.feed.post/rkey4"),
        author_did: String::from("did:plc:user4"),
        author_handle: Some(String::from("user4.bsky.social")),
        created_at: 0,
        created_at_str: String::from(""),
    });

    assert_eq!(
            get_post_text_long(&news_feed_url_query, &news_feed_url_references_list),
                String::from("Example Title\n\nPosts: https://climatenews.app/news_feed/example-slug\n\nShared by @user1.bsky.social, @user2.bsky.social, @user3.bsky.social and 1 other\n\nArticle link: https://www.theguardian.com/environment/2022/dec/12/brazil-goldminers-carve-road-to-chaos-amazon-reserve")
            );

    // Shared by 5 users
    news_feed_url_references_list.push(NewsFeedUrlReferencesQuery {
        url_id: 1,
        text: String::from("Example Title"),
        post_uri: String::from("at://did:plc:user5/app.bsky.feed.post/rkey5"),
        author_did: String::from("did:plc:user5"),
        author_handle: Some(String::from("user5.bsky.social")),
        created_at: 0,
        created_at_str: String::from(""),
    });

    assert_eq!(
                get_post_text_long(&news_feed_url_query, &news_feed_url_references_list),
                String::from("Example Title\n\nPosts: https://climatenews.app/news_feed/example-slug\n\nShared by @user1.bsky.social, @user2.bsky.social, @user3.bsky.social and 2 others\n\nArticle link: https://www.theguardian.com/environment/2022/dec/12/brazil-goldminers-carve-road-to-chaos-amazon-reserve")
            );

    // Shared by 5 users with duplicate handle
    news_feed_url_references_list.push(NewsFeedUrlReferencesQuery {
        url_id: 1,
        text: String::from("Example Title"),
        post_uri: String::from("at://did:plc:user5/app.bsky.feed.post/rkey5"),
        author_did: String::from("did:plc:user5"),
        author_handle: Some(String::from("user5.bsky.social")),
        created_at: 0,
        created_at_str: String::from(""),
    });

    let unique_referenced_handles = get_unique_referenced_handles(&news_feed_url_references_list);
    assert_eq!(
        unique_referenced_handles,
        vec![
            String::from("user1.bsky.social"),
            String::from("user2.bsky.social"),
            String::from("user3.bsky.social"),
            String::from("user4.bsky.social"),
            String::from("user5.bsky.social")
        ]
    );
    assert_eq!(
                get_post_text_long(&news_feed_url_query, &news_feed_url_references_list),
                String::from("Example Title\n\nPosts: https://climatenews.app/news_feed/example-slug\n\nShared by @user1.bsky.social, @user2.bsky.social, @user3.bsky.social and 2 others\n\nArticle link: https://www.theguardian.com/environment/2022/dec/12/brazil-goldminers-carve-road-to-chaos-amazon-reserve")
            );
    assert_eq!(
        get_post_text_short(&news_feed_url_query),
        String::from("Example Title\n\nPosts: https://climatenews.app/news_feed/example-slug\n\nArticle link: https://www.theguardian.com/environment/2022/dec/12/brazil-goldminers-carve-road-to-chaos-amazon-reserve")
    );
}

#[test]
fn shared_by_text_is_empty_without_handles() {
    let refs = vec![reference(None, 0), reference(None, 1)];
    assert_eq!(post_shared_by_text(&refs), String::from(""));
    assert_eq!(post_shared_by_text(&vec![]), String::from(""));
}

#[test]
fn shared_by_text_skips_missing_and_repeated_handles() {
    let refs = vec![
        reference(Some("b"), 0),
        reference(None, 1),
        reference(Some("a"), 2),
        reference(Some("b"), 3),
    ];
    assert_eq!(get_unique_referenced_handles(&refs), vec![String::from("b"), String::from("a")]);
    assert_eq!(post_shared_by_text(&refs), String::from("Shared by @b and @a"));
}

#[test]
fn shared_by_text_counts_many_others() {
    let names = ["u1", "u2", "u3", "u4", "u5", "u6", "u7", "u8", "u9", "u10", "u11", "u12", "u13", "u14"];
    let refs: Vec<NewsFeedUrlReferencesQuery> = names.iter().map(|n| reference(Some(n), 0)).collect();
    assert_eq!(post_shared_by_text(&refs), String::from("Shared by @u1, @u2, @u3 and 11 others"));
}
