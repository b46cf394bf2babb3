//! Verified core of the climate news service: scoring of shared links,
//! slugs, post texts, record parsing and the decisions of the fetch loops.

pub mod text;
pub mod slug;
pub mod models;
pub mod post_text;
pub mod twitter_models;
pub mod tweet_text;
pub mod decimal;
pub mod news_feed;
pub mod json;
pub mod bluesky;
pub mod starter_pack;
pub mod feed_fetch;
pub mod cron;
pub mod urls;
pub mod twitter;
pub mod api;
pub mod openai;
pub mod language;
pub mod html;
