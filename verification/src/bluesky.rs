//! Bluesky API records and what the service reads from them: users, posts,
//! shared links, replies and reposts.

use vstd::prelude::*;
use crate::json::{JsonValue, json_get, json_str, json_array, opt_get, opt_str, str_equal};
use crate::models::{NewsBskyPost, NewsBskyPostUrl, NewsBskyReference, NewsBskyUser};
use crate::starter_pack::has_prefix;
use crate::urls::{ParsedUrl, remove_all, remove_all_str, url_host_of, url_parse_result};
use crate::text::{clone_opt, opt_view, owned, starts_with};

verus! {

/// Base address of the Bluesky service.
pub const BLUESKY_SERVICE: &'static str = "https://bsky.social";

/// Type of a rich-text feature that is a link.
pub const LINK_FEATURE_TYPE: &'static str = "app.bsky.richtext.facet#link";

/// A Bluesky account as the API shows it.
#[derive(Debug)]
pub struct ActorBasic {
    pub did: String,
    pub handle: String,
    pub display_name: Option<String>,
    pub avatar: Option<String>,
    pub description: Option<String>,
    pub followers_count: Option<i32>,
    pub follows_count: Option<i32>,
    pub posts_count: Option<i32>,
}

/// A reference to a post.
#[derive(Debug)]
pub struct StrongRef {
    pub uri: String,
    pub cid: Option<String>,
}

/// The posts a reply answers.
#[derive(Debug)]
pub struct ReplyRef {
    pub parent: StrongRef,
    pub root: StrongRef,
}

/// Who reposted a post.
#[derive(Debug)]
pub struct ReasonRepost {
    pub by: ActorBasic,
}

/// A post as the API shows it.
#[derive(Debug)]
pub struct PostView {
    pub uri: String,
    pub cid: Option<String>,
    pub author: ActorBasic,
    pub record: Option<JsonValue>,
    pub indexed_at: Option<String>,
    pub like_count: Option<i32>,
    pub repost_count: Option<i32>,
    pub reply_count: Option<i32>,
    pub embed: Option<JsonValue>,
}

/// A post of a feed, with the reply or repost that brought it there.
#[derive(Debug)]
pub struct FeedViewPost {
    pub post: PostView,
    pub reply: Option<ReplyRef>,
    pub reason: Option<ReasonRepost>,
}

/// A page of an author's feed.
#[derive(Debug)]
pub struct AuthorFeedResponse {
    pub feed: Vec<FeedViewPost>,
    pub cursor: Option<String>,
}

/// A page of a custom feed.
#[derive(Debug)]
pub struct FeedResponse {
    pub feed: Vec<FeedViewPost>,
    pub cursor: Option<String>,
}

/// A post with its replies.
#[derive(Debug)]
pub struct ThreadViewPost {
    pub post: PostView,
    pub replies: Option<Vec<ThreadViewPost>>,
}

/// A thread of posts.
#[derive(Debug)]
pub struct PostThreadResponse {
    pub thread: ThreadViewPost,
}

/// The DID a handle resolves to.
#[derive(Debug)]
pub struct ResolveHandleResponse {
    pub did: String,
}

/// A link found in a post's rich text.
#[derive(Debug)]
pub struct FacetLink {
    pub uri: String,
}

/// A starter pack record.
#[derive(Debug)]
pub struct StarterPackView {
    pub uri: String,
    pub cid: String,
    pub record: JsonValue,
}

/// A starter pack as the API returns it.
#[derive(Debug)]
pub struct StarterPackResponse {
    pub starter_pack: StarterPackView,
}

/// One member of a list.
#[derive(Debug)]
pub struct ListItemView {
    pub subject: ActorBasic,
}

/// A page of a list's members.
#[derive(Debug)]
pub struct GetListResponse {
    pub cursor: Option<String>,
    pub items: Vec<ListItemView>,
}

/// The tokens and identity of a logged-in Bluesky session.
#[derive(Debug)]
pub struct BlueskySession {
    pub access_jwt: String,
    pub refresh_jwt: String,
    pub did: String,
    pub handle: String,
}

/// The link a rich-text feature holds, if it is a link feature with a URI.
pub open spec fn feature_link(feature: JsonValue) -> Option<Seq<char>> {
    if opt_str(json_get(feature, "$type"@)) == Some(LINK_FEATURE_TYPE@) {
        opt_str(json_get(feature, "uri"@))
    } else {
        None
    }
}

/// The links of a sequence of features, in order.
pub open spec fn links_of_features(features: Seq<JsonValue>) -> Seq<Seq<char>>
    decreases features.len(),
{
    if features.len() == 0 {
        Seq::empty()
    } else {
        let prev = links_of_features(features.drop_last());
        match feature_link(features.last()) {
            Some(u) => prev.push(u),
            None => prev,
        }
    }
}

/// The elements of an optional array value; none where it is no array.
pub open spec fn array_or_empty(value: Option<JsonValue>) -> Seq<JsonValue> {
    match value {
        Some(v) => match json_array(v) {
            Some(items) => items,
            None => Seq::empty(),
        },
        None => Seq::empty(),
    }
}

/// The features of a facet.
pub open spec fn facet_features(facet: JsonValue) -> Seq<JsonValue> {
    array_or_empty(json_get(facet, "features"@))
}

/// The links of a sequence of facets, in order.
pub open spec fn links_of_facets(facets: Seq<JsonValue>) -> Seq<Seq<char>>
    decreases facets.len(),
{
    if facets.len() == 0 {
        Seq::empty()
    } else {
        links_of_facets(facets.drop_last()) + links_of_features(facet_features(facets.last()))
    }
}

/// The links of a post record's facets, in order.
pub open spec fn record_links(record: JsonValue) -> Seq<Seq<char>> {
    links_of_facets(array_or_empty(json_get(record, "facets"@)))
}

pub open spec fn facet_uris(links: Seq<FacetLink>) -> Seq<Seq<char>> {
    links.map_values(|l: FacetLink| l.uri@)
}

/// The link of one feature.
fn feature_link_exec(feature: &JsonValue) -> (r: Option<String>)
    ensures
        opt_view(r) == feature_link(*feature),
{
    let type_value = feature.get("$type");
    let feature_type = match type_value {
        Some(t) => t.as_str(),
        None => None,
    };
    match feature_type {
        Some(ty) => {
            if str_equal(ty, LINK_FEATURE_TYPE) {
                match feature.get("uri") {
                    Some(u) => match u.as_str() {
                        Some(uri) => Some(owned(uri)),
                        None => None,
                    },
                    None => None,
                }
            } else {
                None
            }
        },
        None => None,
    }
}

/// The links in a post record's rich-text facets, in order.
pub fn extract_facets_from_record(record: &JsonValue) -> (links: Vec<FacetLink>)
    ensures
        facet_uris(links@) == record_links(*record),
{
    let mut links: Vec<FacetLink> = Vec::new();
    let facets_value = record.get("facets");
    let facets_array = match facets_value {
        Some(f) => f.as_array(),
        None => None,
    };
    let ghost all_facets = array_or_empty(json_get(*record, "facets"@));
    match facets_array {
        Some(facets) => {
            let mut i: usize = 0;
            while i < facets.len()
                invariant
                    all_facets == facets@,
                    i <= facets.len(),
                    facet_uris(links@) == links_of_facets(facets@.take(i as int)),
                decreases facets.len() - i,
            {
                assert(facets@.take(i + 1).drop_last() =~= facets@.take(i as int));
                let facet = &facets[i];
                let features_value = facet.get("features");
                let features_array = match features_value {
                    Some(f) => f.as_array(),
                    None => None,
                };
                let ghost before = facet_uris(links@);
                let ghost feats = facet_features(*facet);
                match features_array {
                    Some(features) => {
                        let mut j: usize = 0;
                        while j < features.len()
                            invariant
                                feats == features@,
                                j <= features.len(),
                                facet_uris(links@) == before + links_of_features(features@.take(j as int)),
                            decreases features.len() - j,
                        {
                            assert(features@.take(j + 1).drop_last() =~= features@.take(j as int));
                            let ghost prev_links = links@;
                            assert(features@.take(j + 1).last() == features@[j as int]);
                            match feature_link_exec(&features[j]) {
                                Some(uri) => {
                                    let ghost u = uri@;
                                    links.push(FacetLink { uri });
                                    assert(links@ == prev_links.push(links@.last()));
                                    assert(facet_uris(links@) =~= facet_uris(prev_links).push(u));
                                    assert(facet_uris(links@) =~= before + links_of_features(features@.take(j + 1)));
                                },
                                None => {},
                            }
                            j = j + 1;
                        }
                        assert(features@.take(j as int) =~= features@);
                    },
                    None => {
                        assert(links_of_features(feats) =~= Seq::<Seq<char>>::empty());
                        assert(before + links_of_features(feats) =~= before);
                    },
                }
                i = i + 1;
            }
            assert(facets@.take(i as int) =~= facets@);
        },
        None => {
            assert(facet_uris(links@) =~= Seq::<Seq<char>>::empty());
        },
    }
    links
}

/// The text of a string member of a record.
fn string_member(record: &JsonValue, key: &str) -> (r: Option<String>)
    ensures
        opt_view(r) == opt_str(json_get(*record, key@)),
{
    match record.get(key) {
        Some(v) => match v.as_str() {
            Some(s) => Some(owned(s)),
            None => None,
        },
        None => None,
    }
}

/// The text of a post record.
pub fn extract_post_text_from_record(record: &JsonValue) -> (r: Option<String>)
    ensures
        opt_view(r) == opt_str(json_get(*record, "text"@)),
{
    string_member(record, "text")
}

/// The creation time of a post record, as written in the record.
pub fn extract_created_at_from_record(record: &JsonValue) -> (r: Option<String>)
    ensures
        opt_view(r) == opt_str(json_get(*record, "createdAt"@)),
{
    string_member(record, "createdAt")
}

/// The URI of the post that a reply record names under `which` (`parent` or `root`).
pub open spec fn reply_uri(record: JsonValue, which: Seq<char>) -> Option<Seq<char>> {
    opt_str(opt_get(opt_get(json_get(record, "reply"@), which), "uri"@))
}

fn reply_member_uri(record: &JsonValue, which: &str) -> (r: Option<String>)
    ensures
        opt_view(r) == reply_uri(*record, which@),
{
    match record.get("reply") {
        Some(reply) => match reply.get(which) {
            Some(target) => string_member(target, "uri"),
            None => None,
        },
        None => None,
    }
}

/// The URIs of the parent and root posts that a reply record answers.
pub fn extract_reply_uris_from_record(record: &JsonValue) -> (r: (Option<String>, Option<String>))
    ensures
        opt_view(r.0) == reply_uri(*record, "parent"@),
        opt_view(r.1) == reply_uri(*record, "root"@),
{
    let parent_uri = reply_member_uri(record, "parent");
    let root_uri = reply_member_uri(record, "root");
    (parent_uri, root_uri)
}

pub open spec fn count_or_zero(c: Option<i32>) -> i32 {
    match c {
        Some(n) => n,
        None => 0,
    }
}

/// `user` is the account `actor`, checked at `last_checked_at` and updated at
/// `last_updated_at`, with no score and no last post yet.
pub open spec fn user_from_actor(user: NewsBskyUser, actor: ActorBasic, last_updated_at: i64, last_checked_at: i64) -> bool {
    &&& user.did@ == actor.did@
    &&& user.handle@ == actor.handle@
    &&& opt_view(user.display_name) == opt_view(actor.display_name)
    &&& opt_view(user.avatar_url) == opt_view(actor.avatar)
    &&& opt_view(user.description) == opt_view(actor.description)
    &&& user.followers_count == count_or_zero(actor.followers_count)
    &&& user.follows_count == count_or_zero(actor.follows_count)
    &&& user.posts_count == count_or_zero(actor.posts_count)
    &&& user.user_score is None
    &&& user.last_post_cid is None
    &&& user.last_updated_at == last_updated_at
    &&& user.last_checked_at == last_checked_at
}

/// The account row of `actor`, with the given update and check times.
pub fn bsky_user_from_actor(actor: &ActorBasic, last_updated_at: i64, last_checked_at: i64) -> (user: NewsBskyUser)
    ensures
        user_from_actor(user, *actor, last_updated_at, last_checked_at),
{
    NewsBskyUser {
        did: actor.did.clone(),
        handle: actor.handle.clone(),
        display_name: clone_opt(&actor.display_name),
        avatar_url: clone_opt(&actor.avatar),
        description: clone_opt(&actor.description),
        followers_count: count_or_zero_exec(actor.followers_count),
        follows_count: count_or_zero_exec(actor.follows_count),
        posts_count: count_or_zero_exec(actor.posts_count),
        user_score: None,
        last_post_cid: None,
        last_updated_at,
        last_checked_at,
    }
}

fn count_or_zero_exec(c: Option<i32>) -> (n: i32)
    ensures
        n == count_or_zero(c),
{
    match c {
        Some(n) => n,
        None => 0,
    }
}

/// The current time in seconds since the Unix epoch (`chrono::Utc::now`).
/// Nothing is claimed of the value: it is the clock's.
#[verifier::external_body]
pub(crate) fn now_utc_timestamp() -> (t: i64) {
    chrono::Utc::now().timestamp()
}

/// The account row of `actor`, stamped with the current time.
pub fn parse_bsky_user(actor: &ActorBasic) -> (user: NewsBskyUser)
    ensures
        user_from_actor(user, *actor, user.last_updated_at, user.last_checked_at),
{
    let last_updated_at = now_utc_timestamp();
    let last_checked_at = now_utc_timestamp();
    bsky_user_from_actor(actor, last_updated_at, last_checked_at)
}

/// What `chrono::DateTime::parse_from_rfc3339` followed by `timestamp()` gives
/// for a text: the seconds since the epoch, or `None` where the text is no
/// RFC 3339 date and time.
pub uninterp spec fn rfc3339_seconds(text: Seq<char>) -> Option<i64>;

/// `chrono::DateTime::parse_from_rfc3339(text)` then `timestamp()`. Claimed: the
/// result is the crate's answer for this text.
#[verifier::external_body]
pub(crate) fn parse_rfc3339_seconds(text: &str) -> (r: Option<i64>)
    ensures
        r == rfc3339_seconds(text@),
{
    chrono::DateTime::parse_from_rfc3339(text).ok().map(|d| d.timestamp())
}

pub open spec fn text_or_empty(t: Option<Seq<char>>) -> Seq<char> {
    match t {
        Some(s) => s,
        None => Seq::empty(),
    }
}

/// The creation time written in a post's record (empty where there is none).
pub open spec fn created_at_text(record: JsonValue) -> Seq<char> {
    text_or_empty(opt_str(json_get(record, "createdAt"@)))
}

/// `post` is the row of the post `view`, whose record is `record`, created at `created_at`.
pub open spec fn post_from_view(post: NewsBskyPost, view: PostView, record: JsonValue, created_at: i64) -> bool {
    &&& post.post_uri@ == view.uri@
    &&& opt_view(post.cid) == opt_view(view.cid)
    &&& post.text@ == text_or_empty(opt_str(json_get(record, "text"@)))
    &&& post.author_did@ == view.author.did@
    &&& opt_view(post.reply_parent_uri) == reply_uri(record, "parent"@)
    &&& opt_view(post.reply_root_uri) == reply_uri(record, "root"@)
    &&& post.created_at == created_at
    &&& post.created_at_str@ == created_at_text(record)
}

fn string_or_empty(s: Option<String>) -> (r: String)
    ensures
        r@ == text_or_empty(opt_view(s)),
{
    match s {
        Some(t) => t,
        None => String::new(),
    }
}

/// The row of a post, given what its record's creation time parses to: none
/// for a post without a record or with an unparsable creation time.
pub fn bsky_post_from_view(post_view: &PostView, created_at: Option<i64>) -> (r: Option<NewsBskyPost>)
    ensures
        r is Some <==> (post_view.record is Some && created_at is Some),
        r matches Some(post) ==> post_from_view(post, *post_view, post_view.record->0, created_at->0),
{
    match &post_view.record {
        Some(record) => {
            let text = string_or_empty(extract_post_text_from_record(record));
            let created_at_str = string_or_empty(extract_created_at_from_record(record));
            match created_at {
                Some(ts) => {
                    let (reply_parent_uri, reply_root_uri) = extract_reply_uris_from_record(record);
                    Some(NewsBskyPost {
                        post_uri: post_view.uri.clone(),
                        cid: clone_opt(&post_view.cid),
                        text,
                        author_did: post_view.author.did.clone(),
                        reply_parent_uri,
                        reply_root_uri,
                        created_at: ts,
                        created_at_str,
                    })
                },
                None => None,
            }
        },
        None => None,
    }
}

/// The row of a post; none for a post without a record or whose creation time
/// is no RFC 3339 date and time.
pub fn parse_bsky_post(post_view: &PostView) -> (r: Option<NewsBskyPost>)
    ensures
        r is Some <==> (post_view.record is Some && rfc3339_seconds(
            created_at_text(post_view.record->0),
        ) is Some),
        r matches Some(post) ==> post_from_view(
            post,
            *post_view,
            post_view.record->0,
            rfc3339_seconds(created_at_text(post_view.record->0))->0,
        ),
{
    match &post_view.record {
        Some(record) => {
            let created_at_str = string_or_empty(extract_created_at_from_record(record));
            let created_at = parse_rfc3339_seconds(created_at_str.as_str());
            bsky_post_from_view(post_view, created_at)
        },
        None => None,
    }
}

/// The kind of reference recorded for a reply.
pub const REPLY_KIND: &'static str = "reply_to";

/// The kind of reference recorded for a repost.
pub const REPOST_KIND: &'static str = "repost";

/// The references a feed item records: its reply's parent, then who reposted it.
pub open spec fn feed_references(item: FeedViewPost) -> Seq<(Seq<char>, Seq<char>, Seq<char>)> {
    let replies: Seq<(Seq<char>, Seq<char>, Seq<char>)> = match item.reply {
        Some(reply) => seq![(item.post.uri@, reply.parent.uri@, REPLY_KIND@)],
        None => Seq::empty(),
    };
    let reposts: Seq<(Seq<char>, Seq<char>, Seq<char>)> = match item.reason {
        Some(reason) => seq![(item.post.uri@, reason.by.did@, REPOST_KIND@)],
        None => Seq::empty(),
    };
    replies + reposts
}

/// Law: a feed item records a reply reference (the post, its parent, `reply_to`)
/// exactly when it is a reply, and a repost reference (the post, the
/// reposter's DID, `repost`) exactly when it was reposted, each whatever the
/// other is; it records nothing else.
pub proof fn lemma_feed_references_parts(item: FeedViewPost)
    ensures
        feed_references(item).len() == (if item.reply is Some { 1int } else { 0 }) + (if item.reason is Some { 1int } else { 0 }),
        item.reply matches Some(reply) ==> feed_references(item).contains((item.post.uri@, reply.parent.uri@, REPLY_KIND@)),
        item.reason matches Some(reason) ==> feed_references(item).contains((item.post.uri@, reason.by.did@, REPOST_KIND@)),
        forall|k: int| 0 <= k < feed_references(item).len() ==> {
            let e = #[trigger] feed_references(item)[k];
            ||| (item.reply matches Some(reply) && e == (item.post.uri@, reply.parent.uri@, REPLY_KIND@))
            ||| (item.reason matches Some(reason) && e == (item.post.uri@, reason.by.did@, REPOST_KIND@))
        },
{
    let refs = feed_references(item);
    match item.reply {
        Some(reply) => {
            assert(refs[0] == (item.post.uri@, reply.parent.uri@, REPLY_KIND@));
        },
        None => {},
    }
    match item.reason {
        Some(reason) => {
            assert(refs[refs.len() - 1] == (item.post.uri@, reason.by.did@, REPOST_KIND@));
        },
        None => {},
    }
}

pub open spec fn reference_view(r: NewsBskyReference) -> (Seq<char>, Seq<char>, Seq<char>) {
    (r.post_uri@, r.ref_post_uri@, r.ref_kind@)
}

/// The reply and repost references of a feed item.
pub fn bsky_references(feed_view: &FeedViewPost) -> (refs: Vec<NewsBskyReference>)
    ensures
        refs@.map_values(|r: NewsBskyReference| reference_view(r)) == feed_references(*feed_view),
{
    let mut refs: Vec<NewsBskyReference> = Vec::new();
    match &feed_view.reply {
        Some(reply) => {
            refs.push(NewsBskyReference {
                post_uri: feed_view.post.uri.clone(),
                ref_post_uri: reply.parent.uri.clone(),
                ref_kind: owned(REPLY_KIND),
            });
        },
        None => {},
    }
    match &feed_view.reason {
        Some(reason) => {
            refs.push(NewsBskyReference {
                post_uri: feed_view.post.uri.clone(),
                ref_post_uri: reason.by.did.clone(),
                ref_kind: owned(REPOST_KIND),
            });
        },
        None => {},
    }
    assert(refs@.map_values(|r: NewsBskyReference| reference_view(r)) =~= feed_references(*feed_view));
    refs
}

/// The list of a starter pack record: its `list` member, either a URI or an
/// object with a `uri`.
pub open spec fn starter_pack_list(record: JsonValue) -> Option<Seq<char>> {
    match json_get(record, "list"@) {
        Some(v) => match json_str(v) {
            Some(uri) => Some(uri),
            None => opt_str(json_get(v, "uri"@)),
        },
        None => None,
    }
}

/// The URI of the list a starter pack record names.
pub fn starter_pack_list_uri(record: &JsonValue) -> (r: Option<String>)
    ensures
        opt_view(r) == starter_pack_list(*record),
{
    match record.get("list") {
        Some(v) => match v.as_str() {
            Some(uri) => Some(owned(uri)),
            None => string_member(v, "uri"),
        },
        None => None,
    }
}

/// Links to Bluesky itself start so.
pub const BSKY_URL_PREFIX: &'static str = "https://bsky.app";

/// `row` is the new row of the link `uri` found at `now_ts` (`now_str`),
/// whose URL has the host `host`.
pub open spec fn post_url_from_link(row: NewsBskyPostUrl, uri: Seq<char>, host: Option<Seq<char>>, now_ts: i64, now_str: Seq<char>) -> bool {
    &&& row.url_id == 0
    &&& row.url@ == uri
    &&& row.expanded_url@ == uri
    &&& row.expanded_url_parsed@ == uri
    &&& row.expanded_url_host@ == match host {
        Some(h) => remove_all(h, "www."@),
        None => Seq::empty(),
    }
    &&& opt_view(row.display_url) == Some(uri)
    &&& row.is_bsky_url == Some(has_prefix(uri, BSKY_URL_PREFIX@))
    &&& row.is_english is None
    &&& row.title is None
    &&& row.description is None
    &&& row.preview_image_thumbnail_url is None
    &&& row.preview_image_url is None
    &&& row.created_at == now_ts
    &&& row.created_at_str@ == now_str
}

/// The row of a link found in a post at `now_ts` (`now_str`): none where the
/// link is no URL.
pub fn bsky_post_url_from_link(uri: &str, now_ts: i64, now_str: &str) -> (r: Option<NewsBskyPostUrl>)
    ensures
        r is Some <==> url_parse_result(uri@) is Some,
        r matches Some(row) ==> post_url_from_link(row, uri@, url_host_of(url_parse_result(uri@)->0), now_ts, now_str@),
{
    match ParsedUrl::parse(uri) {
        Some(parsed) => {
            proof {
                reveal_strlit("www.");
            }
            let expanded_url_host = match parsed.host_str() {
                Some(h) => remove_all_str(h.as_str(), "www."),
                None => String::new(),
            };
            let is_bsky_url = starts_with(uri, BSKY_URL_PREFIX);
            Some(NewsBskyPostUrl {
                url_id: 0,
                url: owned(uri),
                expanded_url: owned(uri),
                expanded_url_parsed: owned(uri),
                expanded_url_host,
                display_url: Some(owned(uri)),
                is_bsky_url: Some(is_bsky_url),
                is_english: None,
                title: None,
                description: None,
                preview_image_thumbnail_url: None,
                preview_image_url: None,
                created_at: now_ts,
                created_at_str: owned(now_str),
            })
        },
        None => None,
    }
}

/// Whether the stored row of a link still lacks the metadata that is fetched
/// for links outside Bluesky.
pub fn needs_metadata(url_db: &NewsBskyPostUrl, is_bsky_url: bool) -> (r: bool)
    ensures
        r == (!is_bsky_url && url_db.title is None && url_db.is_english is None),
{
    !is_bsky_url && url_db.title.is_none() && url_db.is_english.is_none()
}

} // verus!
