//! The decisions of the Bluesky fetch loops: which posts of an author's feed
//! are stored, when paging stops, how list pages advance and when a failed
//! request is tried again.

use vstd::prelude::*;
use crate::bluesky::{PostView, extract_created_at_from_record, parse_rfc3339_seconds, rfc3339_seconds};
use crate::json::{json_get, opt_str};
use crate::text::{clone_opt, opt_view};

verus! {

broadcast use vstd::string::group_string_axioms;

/// Posts per page asked of an author's feed.
pub const MAX_BSKY_POST_RESULTS: u32 = 100;

/// Members per page asked of a list.
pub const MAX_BSKY_LIST_RESULTS: u32 = 100;

/// Pause between requests, in milliseconds.
pub const REQUEST_SLEEP_DURATION: u64 = 1500;

/// Posts older than this many hours end the fetch of a feed.
pub const RECENT_POST_MAX_AGE_HOURS: i64 = 24;

/// Pages read at most from the feed of an author met for the first time,
/// unless configured otherwise.
pub const DEFAULT_INITIAL_BACKFILL_MAX_PAGES: usize = 5;

/// Oldest post, in days, read from the feed of an author met for the first
/// time, unless configured otherwise.
pub const DEFAULT_INITIAL_BACKFILL_MAX_POST_AGE_DAYS: i64 = 30;

/// Tries of a list page request before giving up.
pub const LIST_FETCH_MAX_ATTEMPTS: usize = 4;

/// Whether two optional strings are equal.
pub fn opt_string_eq(a: &Option<String>, b: &Option<String>) -> (r: bool)
    ensures
        r == (opt_view(*a) == opt_view(*b)),
{
    match (a, b) {
        (Some(x), Some(y)) => *x == *y,
        (None, None) => true,
        _ => false,
    }
}

/// The state of the fetch of one author's feed: its limits, where paging
/// stands and what has been met so far.
#[derive(Debug)]
pub struct UserFeedFetch {
    /// The newest post stored at the previous fetch; none for an author met
    /// for the first time.
    pub last_post_cid: Option<String>,
    /// Posts created before this time end the fetch.
    pub recent_cutoff_ts: i64,
    /// Whether this is the first fetch of the author.
    pub initial_backfill: bool,
    pub initial_backfill_max_pages: usize,
    /// On a first fetch, posts created before this time end it.
    pub initial_backfill_cutoff_ts: i64,
    /// The cursor of the next page to ask for.
    pub cursor: Option<String>,
    /// The newest post met, which becomes the author's watermark.
    pub newest_cid: Option<String>,
    pub pages_fetched: usize,
    pub posts_seen: usize,
    pub reached_last_post: bool,
    pub reached_recent_cutoff: bool,
    pub reached_initial_backfill_age_cutoff: bool,
    pub reached_initial_backfill_page_cap: bool,
}

/// What to do with a post of the feed.
#[derive(Debug, PartialEq, Eq, Structural, Clone, Copy)]
pub enum ItemStep {
    /// Store nothing more from this page.
    Stop,
    /// Store the post; then, where `last` holds, store nothing more from this page.
    Process { last: bool },
}

/// The fields that a step leaves as they were.
pub open spec fn same_limits(a: UserFeedFetch, b: UserFeedFetch) -> bool {
    &&& opt_view(a.last_post_cid) == opt_view(b.last_post_cid)
    &&& a.recent_cutoff_ts == b.recent_cutoff_ts
    &&& a.initial_backfill == b.initial_backfill
    &&& a.initial_backfill_max_pages == b.initial_backfill_max_pages
    &&& a.initial_backfill_cutoff_ts == b.initial_backfill_cutoff_ts
}

/// The creation time of a feed post, where its record has one that parses.
pub open spec fn post_timestamp(post: PostView) -> Option<i64> {
    match post.record {
        Some(record) => match opt_str(json_get(record, "createdAt"@)) {
            Some(text) => rfc3339_seconds(text),
            None => None,
        },
        None => None,
    }
}

impl UserFeedFetch {
    /// The start of the fetch of an author's feed at time `now`: a first fetch
    /// where no post of the author is stored yet.
    pub fn new(
        last_post_cid: Option<String>,
        now: i64,
        initial_backfill_max_pages: usize,
        initial_backfill_max_post_age_days: i64,
    ) -> (f: UserFeedFetch)
        requires
            i64::MIN <= now - RECENT_POST_MAX_AGE_HOURS * 3600,
            i64::MIN <= initial_backfill_max_post_age_days * 86400 <= i64::MAX,
            i64::MIN <= now - initial_backfill_max_post_age_days * 86400 <= i64::MAX,
        ensures
            opt_view(f.last_post_cid) == opt_view(last_post_cid),
            f.recent_cutoff_ts == now - RECENT_POST_MAX_AGE_HOURS * 3600,
            f.initial_backfill == (last_post_cid is None),
            f.initial_backfill_max_pages == initial_backfill_max_pages,
            f.initial_backfill_cutoff_ts == now - initial_backfill_max_post_age_days * 86400,
            f.cursor is None,
            f.newest_cid is None,
            f.pages_fetched == 0,
            f.posts_seen == 0,
            !f.reached_last_post,
            !f.reached_recent_cutoff,
            !f.reached_initial_backfill_age_cutoff,
            !f.reached_initial_backfill_page_cap,
    {
        let initial_backfill = last_post_cid.is_none();
        let age_secs: i64 = initial_backfill_max_post_age_days * 86400;
        UserFeedFetch {
            last_post_cid,
            recent_cutoff_ts: now - RECENT_POST_MAX_AGE_HOURS * 60 * 60,
            initial_backfill,
            initial_backfill_max_pages,
            initial_backfill_cutoff_ts: now - age_secs,
            cursor: None,
            newest_cid: None,
            pages_fetched: 0,
            posts_seen: 0,
            reached_last_post: false,
            reached_recent_cutoff: false,
            reached_initial_backfill_age_cutoff: false,
            reached_initial_backfill_page_cap: false,
        }
    }

    /// The decision for a post created at `created_at` (none where its time is
    /// unknown) with content id `cid`: a post older than the recent cutoff, or
    /// on a first fetch older than the age cutoff, ends the page; any other
    /// post is counted and stored, the first one with an id becomes the
    /// newest, and the post stored at the previous fetch ends the page.
    pub fn on_feed_item_at(&mut self, created_at: Option<i64>, cid: &Option<String>) -> (step: ItemStep)
        requires
            old(self).posts_seen < usize::MAX,
        ensures
            same_limits(*final(self), *old(self)),
            opt_view(final(self).cursor) == opt_view(old(self).cursor),
            final(self).pages_fetched == old(self).pages_fetched,
            final(self).reached_initial_backfill_page_cap == old(self).reached_initial_backfill_page_cap,
            ({
                let too_old = (created_at matches Some(t) && t < old(self).recent_cutoff_ts);
                let past_backfill = !too_old && old(self).initial_backfill
                    && (created_at matches Some(t) && t < old(self).initial_backfill_cutoff_ts);
                let is_last = old(self).last_post_cid is Some && opt_view(*cid) == opt_view(old(self).last_post_cid);
                &&& final(self).reached_recent_cutoff == (old(self).reached_recent_cutoff || too_old)
                &&& final(self).reached_initial_backfill_age_cutoff == (old(self).reached_initial_backfill_age_cutoff || past_backfill)
                &&& (too_old || past_backfill) ==> {
                    &&& step == ItemStep::Stop
                    &&& final(self).posts_seen == old(self).posts_seen
                    &&& opt_view(final(self).newest_cid) == opt_view(old(self).newest_cid)
                    &&& final(self).reached_last_post == old(self).reached_last_post
                }
                &&& !(too_old || past_backfill) ==> {
                    &&& step == ItemStep::Process { last: is_last }
                    &&& final(self).posts_seen == old(self).posts_seen + 1
                    &&& opt_view(final(self).newest_cid) == (if old(self).newest_cid is None {
                        opt_view(*cid)
                    } else {
                        opt_view(old(self).newest_cid)
                    })
                    &&& final(self).reached_last_post == (old(self).reached_last_post || is_last)
                }
            }),
    {
        if let Some(t) = created_at {
            if t < self.recent_cutoff_ts {
                self.reached_recent_cutoff = true;
                return ItemStep::Stop;
            }
        }
        if self.initial_backfill {
            if let Some(t) = created_at {
                if t < self.initial_backfill_cutoff_ts {
                    self.reached_initial_backfill_age_cutoff = true;
                    return ItemStep::Stop;
                }
            }
        }
        self.posts_seen = self.posts_seen + 1;
        if self.newest_cid.is_none() {
            if cid.is_some() {
                self.newest_cid = clone_opt(cid);
            }
        }
        let is_last = self.last_post_cid.is_some() && opt_string_eq(cid, &self.last_post_cid);
        if is_last {
            self.reached_last_post = true;
        }
        ItemStep::Process { last: is_last }
    }

    /// The decision for a post of the feed, from the creation time its record gives.
    pub fn on_feed_item(&mut self, post: &PostView) -> (step: ItemStep)
        requires
            old(self).posts_seen < usize::MAX,
        ensures
            ({
                let created_at = post_timestamp(*post);
                let too_old = (created_at matches Some(t) && t < old(self).recent_cutoff_ts);
                let past_backfill = !too_old && old(self).initial_backfill
                    && (created_at matches Some(t) && t < old(self).initial_backfill_cutoff_ts);
                let is_last = old(self).last_post_cid is Some && opt_view(post.cid) == opt_view(old(self).last_post_cid);
                &&& same_limits(*final(self), *old(self))
                &&& opt_view(final(self).cursor) == opt_view(old(self).cursor)
                &&& final(self).pages_fetched == old(self).pages_fetched
                &&& final(self).reached_recent_cutoff == (old(self).reached_recent_cutoff || too_old)
                &&& final(self).reached_initial_backfill_age_cutoff == (old(self).reached_initial_backfill_age_cutoff || past_backfill)
                &&& (too_old || past_backfill) ==> step == ItemStep::Stop && final(self).posts_seen == old(self).posts_seen
                &&& !(too_old || past_backfill) ==> step == ItemStep::Process { last: is_last }
                    && final(self).posts_seen == old(self).posts_seen + 1
                    && final(self).reached_last_post == (old(self).reached_last_post || is_last)
            }),
    {
        let created_at: Option<i64> = match &post.record {
            Some(record) => match extract_created_at_from_record(record) {
                Some(text) => parse_rfc3339_seconds(text.as_str()),
                None => None,
            },
            None => None,
        };
        self.on_feed_item_at(created_at, &post.cid)
    }

    /// The decision at the end of a page of `feed_len` posts whose cursor is
    /// `next_cursor`: whether to ask for the next page. Paging stops at the page
    /// cap of a first fetch, at a cutoff, on an empty page or a cursor that does
    /// not advance, without a cursor, and after the previously stored post.
    pub fn on_page_end(&mut self, feed_len: usize, next_cursor: Option<String>) -> (more: bool)
        requires
            old(self).pages_fetched < usize::MAX,
        ensures
            same_limits(*final(self), *old(self)),
            final(self).pages_fetched == old(self).pages_fetched + 1,
            final(self).posts_seen == old(self).posts_seen,
            opt_view(final(self).newest_cid) == opt_view(old(self).newest_cid),
            final(self).reached_last_post == old(self).reached_last_post,
            final(self).reached_recent_cutoff == old(self).reached_recent_cutoff,
            final(self).reached_initial_backfill_age_cutoff == old(self).reached_initial_backfill_age_cutoff,
            ({
                let cap = old(self).initial_backfill && final(self).pages_fetched >= old(self).initial_backfill_max_pages;
                let stalled = feed_len == 0 || (next_cursor is Some && opt_view(next_cursor) == opt_view(old(self).cursor));
                let advance = !cap && !old(self).reached_initial_backfill_age_cutoff && !old(self).reached_recent_cutoff
                    && !stalled && next_cursor is Some;
                &&& final(self).reached_initial_backfill_page_cap == (old(self).reached_initial_backfill_page_cap || cap)
                &&& opt_view(final(self).cursor) == (if advance { opt_view(next_cursor) } else { opt_view(old(self).cursor) })
                &&& more == (advance && !old(self).reached_last_post)
            }),
            // Paging only goes on to a cursor other than the one just used.
            more ==> final(self).cursor is Some && opt_view(final(self).cursor) != opt_view(old(self).cursor),
            // A first fetch never reads more pages than its cap.
            more ==> !(final(self).initial_backfill && final(self).pages_fetched >= final(self).initial_backfill_max_pages),
    {
        self.pages_fetched = self.pages_fetched + 1;
        if self.initial_backfill && self.pages_fetched >= self.initial_backfill_max_pages {
            self.reached_initial_backfill_page_cap = true;
            return false;
        }
        if self.reached_initial_backfill_age_cutoff {
            return false;
        }
        if self.reached_recent_cutoff {
            return false;
        }
        if feed_len == 0 || (next_cursor.is_some() && opt_string_eq(&next_cursor, &self.cursor)) {
            return false;
        }
        match next_cursor {
            Some(c) => {
                self.cursor = Some(c);
            },
            None => {
                return false;
            },
        }
        if self.reached_last_post {
            return false;
        }
        true
    }
}

/// The cursor of the next page of a list, after a page of `items_len`
/// members whose cursor is `next_cursor`; none where paging stops: an empty
/// page, no cursor, or a cursor that does not advance.
pub fn next_list_cursor(items_len: usize, next_cursor: Option<String>, cursor: &Option<String>) -> (r: Option<String>)
    ensures
        r is Some <==> (items_len > 0 && next_cursor is Some && opt_view(next_cursor) != opt_view(*cursor)),
        r is Some ==> opt_view(r) == opt_view(next_cursor),
        // Paging only goes on to a cursor other than the one just used.
        r is Some ==> opt_view(r) != opt_view(*cursor),
{
    if items_len == 0 || (next_cursor.is_some() && opt_string_eq(&next_cursor, cursor)) {
        return None;
    }
    next_cursor
}

/// Seconds to wait before trying a list page again after the failed try
/// number `attempt` (counted from 1); none once all tries are spent.
pub fn list_retry_backoff_secs(attempt: usize) -> (r: Option<u64>)
    ensures
        r is None <==> attempt >= LIST_FETCH_MAX_ATTEMPTS,
        r matches Some(s) ==> s == attempt,
{
    if attempt >= LIST_FETCH_MAX_ATTEMPTS {
        None
    } else {
        Some(attempt as u64)
    }
}

/// How many of `total_users` authors a run fetches, under an optional cap.
pub fn users_to_process(max_users_per_run: Option<usize>, total_users: usize) -> (n: usize)
    ensures
        n == match max_users_per_run {
            Some(limit) => if limit < total_users { limit } else { total_users },
            None => total_users,
        },
{
    match max_users_per_run {
        Some(limit) => if limit < total_users { limit } else { total_users },
        None => total_users,
    }
}

} // verus!
