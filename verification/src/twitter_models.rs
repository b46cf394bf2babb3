//! Rows of the news database from the time links were collected on Twitter.

use vstd::prelude::*;

verus! {

/// A news feed link with its metadata, as the Twitter-era feed query returns it.
#[derive(Clone, Debug)]
pub struct NewsFeedUrlQuery {
    pub url_slug: String,
    pub url_id: i32,
    pub url_score: i32,
    pub num_references: i32,
    pub tweeted_at: Option<i64>,
    pub first_referenced_by_username: String,
    pub created_at: i64,
    pub title: String,
    pub description: String,
    pub expanded_url_parsed: String,
    pub expanded_url_host: String,
    pub display_url: String,
    pub preview_image_thumbnail_url: Option<String>,
    pub preview_image_url: Option<String>,
}

/// A tweet that shared a news feed link.
#[derive(Clone, Debug)]
pub struct NewsFeedUrlReferencesQuery {
    pub url_id: i32,
    pub text: String,
    pub tweet_id: i64,
    pub author_id: i64,
    pub created_at: i64,
    pub created_at_str: String,
    pub username: Option<String>,
    pub referenced_username: Option<String>,
    pub referenced_tweet_id: Option<i64>,
    pub referenced_tweet_kind: Option<String>,
}

} // verus!
