//! Rows of the news database that the verified logic reads and builds.

use vstd::prelude::*;

verus! {

/// A Bluesky account followed by the service.
#[derive(Clone, Debug)]
pub struct NewsBskyUser {
    pub did: String,
    pub handle: String,
    pub display_name: Option<String>,
    pub avatar_url: Option<String>,
    pub description: Option<String>,
    pub followers_count: i32,
    pub follows_count: i32,
    pub posts_count: i32,
    pub user_score: Option<i32>,
    pub last_post_cid: Option<String>,
    pub last_updated_at: i64,
    pub last_checked_at: i64,
}

/// A Bluesky post.
#[derive(Clone, Debug)]
pub struct NewsBskyPost {
    pub post_uri: String,
    pub cid: Option<String>,
    pub text: String,
    pub author_did: String,
    pub reply_parent_uri: Option<String>,
    pub reply_root_uri: Option<String>,
    pub created_at: i64,
    pub created_at_str: String,
}

/// A link shared in Bluesky posts.
#[derive(Clone, Debug)]
pub struct NewsBskyPostUrl {
    pub url_id: i32,
    pub url: String,
    pub expanded_url: String,
    pub expanded_url_parsed: String,
    pub expanded_url_host: String,
    pub display_url: Option<String>,
    pub is_bsky_url: Option<bool>,
    pub is_english: Option<bool>,
    pub title: Option<String>,
    pub description: Option<String>,
    pub preview_image_thumbnail_url: Option<String>,
    pub preview_image_url: Option<String>,
    pub created_at: i64,
    pub created_at_str: String,
}

/// A reply or repost relation between Bluesky posts.
#[derive(Clone, Debug)]
pub struct NewsBskyReference {
    pub post_uri: String,
    pub ref_post_uri: String,
    pub ref_kind: String,
}

/// A Twitter account followed by the service.
#[derive(Clone, Debug)]
pub struct NewsTwitterUser {
    pub user_id: i64,
    pub username: String,
    pub profile_image_url: Option<String>,
    pub description: Option<String>,
    pub verified: Option<bool>,
    pub followers_count: i32,
    pub listed_count: i32,
    pub user_referenced_tweets_count: Option<i32>,
    pub user_score: Option<i32>,
    pub last_tweet_id: Option<i64>,
    pub last_updated_at: i64,
    pub last_checked_at: i64,
}

/// One sharing of a link by an author, as the feed query returns it.
#[derive(Clone, Debug)]
pub struct NewsReferencedUrlQuery {
    pub url_id: i32,
    pub author_id: i64,
    pub user_score: Option<i32>,
    pub created_at: i64,
}

/// A scored link of the news feed.
#[derive(Clone, Debug)]
pub struct NewsFeedUrl {
    pub url_id: i32,
    pub url_score: i32,
    pub num_references: i32,
    pub first_referenced_by: i64,
    pub created_at: i64,
    pub created_at_str: String,
}

/// A news feed link with its metadata, as the feed query returns it.
#[derive(Clone, Debug)]
pub struct NewsFeedUrlQuery {
    pub url_slug: String,
    pub url_id: i32,
    pub url_score: i32,
    pub num_references: i32,
    pub bsky_posted_at: Option<i64>,
    pub first_referenced_by_username: String,
    pub created_at: i64,
    pub title: Option<String>,
    pub description: Option<String>,
    pub expanded_url_parsed: String,
    pub expanded_url_host: String,
    pub display_url: Option<String>,
    pub preview_image_thumbnail_url: Option<String>,
    pub preview_image_url: Option<String>,
}

/// A post that shared a news feed link.
#[derive(Clone, Debug)]
pub struct NewsFeedUrlReferencesQuery {
    pub url_id: i32,
    pub text: String,
    pub post_uri: String,
    pub author_did: String,
    pub author_handle: Option<String>,
    pub created_at: i64,
    pub created_at_str: String,
}

/// Change marker of the feed for static builds.
#[derive(Clone, Debug)]
pub struct NewsFeedBuildMetadata {
    pub updated_at: Option<i64>,
    pub total_count: Option<i64>,
}

} // verus!
