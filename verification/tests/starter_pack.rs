use news_service::starter_pack::{
    bsky_starter_pack_seeds, owner_is_did, parse_starter_pack_url, starter_pack_at_uri,
    StarterPackTarget, StarterPackUrlError,
};

fn pack(url: &str) -> (String, String) {
    match parse_starter_pack_url(url) {
        Ok(StarterPackTarget::Pack { owner, rkey }) => (owner, rkey),
        other => panic!("unexpected {:?}", other),
    }
}

#[test]
fn seed_links_name_owner_and_key() {
    let seeds = bsky_starter_pack_seeds();
    assert_eq!(seeds.len(), 1);
    assert_eq!(seeds[0].label, "scientists who do climate");
    assert_eq!(
        pack(seeds[0].starter_pack_url),
        (String::from("katharinehayhoe.com"), String::from("3l3nzhaktgx2s"))
    );
}

#[test]
fn starter_pack_links_are_parsed() {
    assert_eq!(pack("https://bsky.app/starter-pack/did:plc:abc/xyz/"), (String::from("did:plc:abc"), String::from("xyz")));
    assert_eq!(pack("https://bsky.app/starter-pack/a.b/key?ref=1"), (String::from("a.b"), String::from("key")));
    match parse_starter_pack_url("at://did:plc:abc/app.bsky.graph.starterpack/xyz") {
        Ok(StarterPackTarget::AtUri(u)) => assert_eq!(u, "at://did:plc:abc/app.bsky.graph.starterpack/xyz"),
        other => panic!("unexpected {:?}", other),
    }
    assert_eq!(parse_starter_pack_url("https://bsky.app/profile/a.b").unwrap_err(), StarterPackUrlError::Invalid);
    assert_eq!(parse_starter_pack_url("https://bsky.app/starter-pack/a.b").unwrap_err(), StarterPackUrlError::Invalid);
    assert_eq!(
        parse_starter_pack_url("https://bsky.app/starter-pack/a.b/?x=1").unwrap_err(),
        StarterPackUrlError::MissingRkey
    );
}

#[test]
fn at_uris_of_packs() {
    assert!(owner_is_did("did:plc:abc"));
    assert!(!owner_is_did("katharinehayhoe.com"));
    assert_eq!(starter_pack_at_uri("did:plc:abc", "xyz"), "at://did:plc:abc/app.bsky.graph.starterpack/xyz");
}

#[test]
fn built_at_uris_are_taken_back_as_they_are() {
    let uri = starter_pack_at_uri("did:plc:abc", "xyz");
    match parse_starter_pack_url(&uri) {
        Ok(StarterPackTarget::AtUri(u)) => assert_eq!(u, uri),
        other => panic!("unexpected {:?}", other),
    }
}
