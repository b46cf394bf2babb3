use news_service::twitter::{
    i64_to_numeric_id, numeric_id_to_i64, opt_i64_to_opt_numeric_id, opt_numeric_id_to_opt_i64,
    parse_news_referenced_tweets, parse_tweet_url_images, referenced_tweet_kind_to_string,
    split_requests_into_max_amount, tweet_url_parts, NumericId, ReferencedTweet, ReferencedTweetKind,
    Tweet, UrlImage,
};

#[test]
fn numeric_ids_round_trip_through_i64() {
    assert_eq!(numeric_id_to_i64(NumericId::new(1587558325050560513)), 1587558325050560513);
    assert_eq!(i64_to_numeric_id(42), NumericId(42));
    assert_eq!(numeric_id_to_i64(i64_to_numeric_id(-1)), -1);
    assert_eq!(i64_to_numeric_id(-1).as_u64(), u64::MAX);
    assert_eq!(opt_numeric_id_to_opt_i64(Some(NumericId(7))), Some(7));
    assert_eq!(opt_numeric_id_to_opt_i64(None), None);
    assert_eq!(opt_i64_to_opt_numeric_id(Some(7)), Some(NumericId(7)));
    assert_eq!(opt_i64_to_opt_numeric_id(None), None);
}

#[test]
fn reference_kinds_have_stored_names() {
    assert_eq!(referenced_tweet_kind_to_string(ReferencedTweetKind::Quoted), "quoted");
    assert_eq!(referenced_tweet_kind_to_string(ReferencedTweetKind::RepliedTo), "replied_to");
    assert_eq!(referenced_tweet_kind_to_string(ReferencedTweetKind::Retweeted), "retweeted");
}

#[test]
fn referenced_tweets_are_listed_in_order() {
    let tweet = Tweet {
        id: NumericId(5),
        text: String::from("t"),
        author_id: None,
        conversation_id: None,
        in_reply_to_user_id: None,
        referenced_tweets: Some(vec![
            ReferencedTweet { kind: ReferencedTweetKind::Quoted, id: NumericId(6) },
            ReferencedTweet { kind: ReferencedTweetKind::Retweeted, id: NumericId(7) },
        ]),
    };
    let refs = parse_news_referenced_tweets(&tweet);
    assert_eq!(refs.len(), 2);
    assert_eq!((refs[0].tweet_id, refs[0].referenced_tweet_id), (5, 6));
    assert_eq!(refs[0].referenced_tweet_kind, "quoted");
    assert_eq!(refs[1].referenced_tweet_kind, "retweeted");
    let bare = Tweet { referenced_tweets: None, ..tweet };
    assert!(parse_news_referenced_tweets(&bare).is_empty());
}

fn image(url: &str, width: usize, height: usize) -> UrlImage {
    UrlImage { url: String::from(url), width, height }
}

#[test]
fn url_images_need_a_thumbnail_and_another_image() {
    let both = Some(vec![image("big", 600, 400), image("thumb", 150, 150), image("big2", 800, 600)]);
    assert_eq!(
        parse_tweet_url_images(both),
        (Some(String::from("thumb")), Some(String::from("big2")))
    );
    assert_eq!(parse_tweet_url_images(Some(vec![image("thumb", 150, 150)])), (None, None));
    assert_eq!(parse_tweet_url_images(Some(vec![image("big", 150, 151)])), (None, None));
    assert_eq!(parse_tweet_url_images(None), (None, None));
}

#[test]
fn requests_are_split_into_batches_of_one_hundred() {
    let empty: Vec<Vec<u32>> = split_requests_into_max_amount(Vec::<u32>::new());
    assert_eq!(empty, vec![Vec::<u32>::new()]);
    let exact = split_requests_into_max_amount((0..100u32).collect());
    assert_eq!(exact.len(), 1);
    assert_eq!(exact[0].len(), 100);
    let many = split_requests_into_max_amount((0..250u32).collect());
    assert_eq!(many.iter().map(|b| b.len()).collect::<Vec<usize>>(), vec![100, 100, 50]);
    assert_eq!(many.concat(), (0..250u32).collect::<Vec<u32>>());
}

#[test]
fn shared_link_parts() {
    let parts = tweet_url_parts("https://www.theguardian.com/a/b?utm=1").unwrap();
    assert_eq!(parts.expanded_url_host, "theguardian.com");
    assert_eq!(parts.expanded_url_parsed, "https://www.theguardian.com/a/b");
    assert!(!parts.is_twitter_url);
    let tw = tweet_url_parts("https://mobile.twitter.com/x/status/1").unwrap();
    assert!(tw.is_twitter_url);
    assert!(tweet_url_parts("nonsense").is_none());
    assert!(tweet_url_parts("mailto:someone@example.com").is_none());
}

use news_service::twitter::{
    all_referenced_tweets, last_tweet_id, list_needs_refresh, news_twitter_user_from,
    popular_referenced_author_ids, user_needs_tweet_refresh, PublicMetrics, TwitterUser,
    UserReferencedTweet,
};

fn tweet(id: u64, refs: Option<Vec<ReferencedTweet>>) -> Tweet {
    Tweet {
        id: NumericId(id),
        text: String::from("t"),
        author_id: None,
        conversation_id: None,
        in_reply_to_user_id: None,
        referenced_tweets: refs,
    }
}

#[test]
fn refresh_decisions() {
    assert!(list_needs_refresh(169));
    assert!(!list_needs_refresh(168));
    assert!(user_needs_tweet_refresh(121));
    assert!(!user_needs_tweet_refresh(120));
}

#[test]
fn newest_tweet_and_all_references() {
    let tweets = vec![
        tweet(9, Some(vec![ReferencedTweet { kind: ReferencedTweetKind::RepliedTo, id: NumericId(1) }])),
        tweet(8, None),
        tweet(7, Some(vec![ReferencedTweet { kind: ReferencedTweetKind::Quoted, id: NumericId(2) }])),
    ];
    assert_eq!(last_tweet_id(&tweets), Some(9));
    assert_eq!(last_tweet_id(&vec![]), None);
    let all = all_referenced_tweets(&tweets);
    assert_eq!(all.len(), 2);
    assert_eq!((all[0].tweet_id, all[0].referenced_tweet_id), (9, 1));
    assert_eq!(all[0].referenced_tweet_kind, "replied_to");
    assert_eq!((all[1].tweet_id, all[1].referenced_tweet_id), (7, 2));
}

#[test]
fn twitter_user_rows() {
    let user = TwitterUser {
        id: NumericId(3),
        username: String::from("climate"),
        profile_image_url: None,
        description: Some(String::from("d")),
        verified: Some(true),
        public_metrics: Some(PublicMetrics { followers_count: 1500, listed_count: 20 }),
    };
    let row = news_twitter_user_from(&user, 1, 2);
    assert_eq!(row.user_id, 3);
    assert_eq!(row.username, "climate");
    assert_eq!((row.followers_count, row.listed_count), (1500, 20));
    assert_eq!((row.last_updated_at, row.last_checked_at), (1, 2));
    let bare = TwitterUser { public_metrics: None, ..user };
    assert_eq!(news_twitter_user_from(&bare, 1, 2).followers_count, 0);
}

#[test]
fn popular_authors_have_fifty_one_to_one_hundred_tweets() {
    let mut refs: Vec<UserReferencedTweet> = Vec::new();
    for t in 0..60 {
        refs.push(UserReferencedTweet { referenced_author_id: 1, tweet_id: t });
        refs.push(UserReferencedTweet { referenced_author_id: 1, tweet_id: t });
    }
    for t in 0..50 {
        refs.push(UserReferencedTweet { referenced_author_id: 2, tweet_id: t });
    }
    for t in 0..101 {
        refs.push(UserReferencedTweet { referenced_author_id: 3, tweet_id: t });
    }
    for t in 0..100 {
        refs.push(UserReferencedTweet { referenced_author_id: 4, tweet_id: t });
    }
    // the authors come in the order in which the map yields them
    let mut popular = popular_referenced_author_ids(&refs);
    popular.sort();
    assert_eq!(popular, vec![1, 4]);
    assert!(popular_referenced_author_ids(&Vec::new()).is_empty());
}
