use news_service::urls::{get_expanded_url_parsed, remove_all_str, str_contains, ParsedUrl};

fn expanded(url: &str) -> String {
    get_expanded_url_parsed(&ParsedUrl::parse(url).unwrap())
}

#[test]
fn get_expanded_url_parsed_params_test() {
    assert_eq!(
        expanded("https://github.com/rust-lang/rust/issues?labels=E-easy&state=open"),
        "https://github.com/rust-lang/rust/issues"
    );
}

#[test]
fn get_expanded_url_parsed_no_params_test() {
    assert_eq!(expanded("http://youtube.com/ecopracticas"), "http://youtube.com/ecopracticas");
}

#[test]
fn get_expanded_url_parsed_youtube_params_test() {
    assert_eq!(
        expanded("https://m.youtube.com/watch?v=3SPVIUV2_uY"),
        "https://m.youtube.com/watch?v=3SPVIUV2_uY"
    );
}

#[test]
fn get_expanded_url_parsed_youtube_mobile_params_test() {
    assert_eq!(
        expanded("http://youtube.com/watch?v=3TTF-muHLIQ&feature=youtu.be"),
        "http://youtube.com/watch?v=3TTF-muHLIQ"
    );
}

#[test]
fn get_expanded_url_parsed_youtube_playlist_params_test() {
    assert_eq!(
        expanded("https://www.youtube.com/playlist?list=PLhQpDGfX5e7CSp3rm5SDv7D_idfkRzje-"),
        "https://www.youtube.com/playlist?list=PLhQpDGfX5e7CSp3rm5SDv7D_idfkRzje-"
    );
}

#[test]
fn youtube_playlist_wins_over_video() {
    assert_eq!(
        expanded("https://www.youtube.com/watch?v=abc&list=PL1&t=3"),
        "https://www.youtube.com/watch?list=PL1"
    );
}

#[test]
fn parse_refuses_relative_links() {
    assert!(ParsedUrl::parse("not a url").is_none());
    assert_eq!(ParsedUrl::parse("HTTPS://Example.com").unwrap().as_string(), "https://example.com/");
}

#[test]
fn www_is_removed_everywhere() {
    assert_eq!(remove_all_str("www.example.com", "www."), "example.com");
    assert_eq!(remove_all_str("a.www.www.b", "www."), "a.b");
    assert_eq!(remove_all_str("wwwwww.x", "www."), "wwwx");
    assert!(str_contains("m.youtube.com", "youtube.com"));
    assert!(!str_contains("youtu.be", "youtube.com"));
}
