use news_service::bluesky::{
    bsky_post_from_view, bsky_post_url_from_link, bsky_references, bsky_user_from_actor,
    extract_created_at_from_record, extract_facets_from_record, extract_post_text_from_record,
    extract_reply_uris_from_record, needs_metadata, parse_bsky_post, parse_bsky_user,
    starter_pack_list_uri, ActorBasic, FeedViewPost, PostView, ReasonRepost, ReplyRef, StrongRef,
};
use news_service::json::JsonValue;

fn s(text: &str) -> JsonValue {
    JsonValue::Str(String::from(text))
}

fn obj(members: Vec<(&str, JsonValue)>) -> JsonValue {
    JsonValue::Object(members.into_iter().map(|(k, v)| (String::from(k), v)).collect())
}

fn link_feature(uri: &str) -> JsonValue {
    obj(vec![("$type", s("app.bsky.richtext.facet#link")), ("uri", s(uri))])
}

fn actor(did: &str) -> ActorBasic {
    ActorBasic {
        did: String::from(did),
        handle: String::from("someone.bsky.social"),
        display_name: Some(String::from("Someone")),
        avatar: None,
        description: Some(String::from("about")),
        followers_count: Some(1200),
        follows_count: None,
        posts_count: Some(3),
    }
}

fn post(record: Option<JsonValue>) -> PostView {
    PostView {
        uri: String::from("at://did:plc:a/app.bsky.feed.post/1"),
        cid: Some(String::from("cid1")),
        author: actor("did:plc:a"),
        record,
        indexed_at: None,
        like_count: None,
        repost_count: None,
        reply_count: None,
        embed: None,
    }
}

fn record(created_at: &str) -> JsonValue {
    obj(vec![
        ("text", s("Hello climate")),
        ("createdAt", s(created_at)),
        (
            "reply",
            obj(vec![
                ("parent", obj(vec![("uri", s("at://parent"))])),
                ("root", obj(vec![("uri", s("at://root"))])),
            ]),
        ),
        (
            "facets",
            JsonValue::Array(vec![
                obj(vec![(
                    "features",
                    JsonValue::Array(vec![
                        link_feature("https://a.example/1"),
                        obj(vec![("$type", s("app.bsky.richtext.facet#mention")), ("did", s("did:plc:x"))]),
                    ]),
                )]),
                obj(vec![("features", s("not an array"))]),
                obj(vec![("features", JsonValue::Array(vec![link_feature("https://b.example/2")]))]),
            ]),
        ),
    ])
}

#[test]
fn facets_yield_their_links_in_order() {
    let links = extract_facets_from_record(&record("2024-01-01T00:00:00Z"));
    let uris: Vec<String> = links.into_iter().map(|l| l.uri).collect();
    assert_eq!(uris, vec![String::from("https://a.example/1"), String::from("https://b.example/2")]);
    assert!(extract_facets_from_record(&JsonValue::Null).is_empty());
}

#[test]
fn record_members_are_read() {
    let r = record("2024-01-01T00:00:00Z");
    assert_eq!(extract_post_text_from_record(&r), Some(String::from("Hello climate")));
    assert_eq!(extract_created_at_from_record(&r), Some(String::from("2024-01-01T00:00:00Z")));
    assert_eq!(
        extract_reply_uris_from_record(&r),
        (Some(String::from("at://parent")), Some(String::from("at://root")))
    );
    let bare = obj(vec![("text", JsonValue::Number(String::from("3")))]);
    assert_eq!(extract_post_text_from_record(&bare), None);
    assert_eq!(extract_reply_uris_from_record(&bare), (None, None));
}

#[test]
fn posts_with_a_parsable_time_become_rows() {
    let p = parse_bsky_post(&post(Some(record("2024-01-01T00:00:00Z")))).unwrap();
    assert_eq!(p.created_at, 1704067200);
    assert_eq!(p.created_at_str, "2024-01-01T00:00:00Z");
    assert_eq!(p.text, "Hello climate");
    assert_eq!(p.author_did, "did:plc:a");
    assert_eq!(p.reply_parent_uri, Some(String::from("at://parent")));
    assert_eq!(p.cid, Some(String::from("cid1")));
    assert!(parse_bsky_post(&post(Some(record("yesterday")))).is_none());
    assert!(parse_bsky_post(&post(None)).is_none());
    assert!(bsky_post_from_view(&post(Some(record("x"))), None).is_none());
    assert_eq!(bsky_post_from_view(&post(Some(record("x"))), Some(5)).unwrap().created_at, 5);
}

#[test]
fn users_are_built_from_actors() {
    let u = bsky_user_from_actor(&actor("did:plc:a"), 10, 20);
    assert_eq!(u.did, "did:plc:a");
    assert_eq!(u.followers_count, 1200);
    assert_eq!(u.follows_count, 0);
    assert_eq!(u.posts_count, 3);
    assert_eq!(u.display_name, Some(String::from("Someone")));
    assert_eq!(u.avatar_url, None);
    assert_eq!((u.last_updated_at, u.last_checked_at), (10, 20));
    assert!(u.user_score.is_none() && u.last_post_cid.is_none());
    let now = parse_bsky_user(&actor("did:plc:b"));
    assert_eq!(now.did, "did:plc:b");
    assert!(now.last_updated_at > 1_600_000_000);
}

#[test]
fn replies_and_reposts_are_recorded() {
    let item = FeedViewPost {
        post: post(None),
        reply: Some(ReplyRef {
            parent: StrongRef { uri: String::from("at://parent"), cid: None },
            root: StrongRef { uri: String::from("at://root"), cid: None },
        }),
        reason: Some(ReasonRepost { by: actor("did:plc:reposter") }),
    };
    let refs = bsky_references(&item);
    assert_eq!(refs.len(), 2);
    assert_eq!(refs[0].ref_post_uri, "at://parent");
    assert_eq!(refs[0].ref_kind, "reply_to");
    assert_eq!(refs[1].ref_post_uri, "did:plc:reposter");
    assert_eq!(refs[1].ref_kind, "repost");
    let plain = FeedViewPost { post: post(None), reply: None, reason: None };
    assert!(bsky_references(&plain).is_empty());
}

#[test]
fn starter_pack_list_is_a_uri_or_an_object() {
    assert_eq!(starter_pack_list_uri(&obj(vec![("list", s("at://l"))])), Some(String::from("at://l")));
    assert_eq!(
        starter_pack_list_uri(&obj(vec![("list", obj(vec![("uri", s("at://m"))]))])),
        Some(String::from("at://m"))
    );
    assert_eq!(starter_pack_list_uri(&obj(vec![("name", s("x"))])), None);
}

#[test]
fn shared_links_become_url_rows() {
    let row = bsky_post_url_from_link("https://www.example.org/a?b=1", 7, "now").unwrap();
    assert_eq!(row.expanded_url_host, "example.org");
    assert_eq!(row.expanded_url_parsed, "https://www.example.org/a?b=1");
    assert_eq!(row.is_bsky_url, Some(false));
    assert_eq!(row.created_at, 7);
    assert!(needs_metadata(&row, false));
    assert!(!needs_metadata(&row, true));
    let bsky = bsky_post_url_from_link("https://bsky.app/profile/x", 7, "now").unwrap();
    assert_eq!(bsky.is_bsky_url, Some(true));
    assert!(bsky_post_url_from_link("no url here", 7, "now").is_none());
}
