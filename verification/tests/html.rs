use news_service::html::{
    attr_content_from_lowered, extract_attr_content, extract_title, key_value_bytes,
    meta_content_by_key, meta_content_in_page, next_meta_tag, title_from_lowered, title_in_page,
    trim_text, url_metadata_from_html, LowercaseShift,
};

const PAGE: &str = "<html><head>\n<TITLE lang=\"en\">  Floods hit the coast \n</Title>\n<meta name=\"description\" content=\"  Rain and wind \">\n<META property='og:image' content='https://img.example/a.png'>\n<meta property=\"og:title\" content=\"\" content=\"Second\">\n</head></html>";

#[test]
fn the_title_is_trimmed() {
    assert_eq!(extract_title(PAGE), Some(String::from("Floods hit the coast")));
    assert_eq!(extract_title("<title>   </title>"), None);
    assert_eq!(extract_title("<title>unclosed"), None);
    assert_eq!(extract_title("no title here"), None);
}

#[test]
fn meta_tags_are_found_case_insensitively() {
    assert_eq!(meta_content_by_key(PAGE, "name", "description"), Some(String::from("Rain and wind")));
    assert_eq!(meta_content_by_key(PAGE, "property", "og:image"), Some(String::from("https://img.example/a.png")));
    assert_eq!(meta_content_by_key(PAGE, "PROPERTY", "OG:Title"), Some(String::from("Second")));
    assert_eq!(meta_content_by_key(PAGE, "property", "og:description"), None);
}

#[test]
fn attribute_values_skip_empty_ones() {
    assert_eq!(extract_attr_content("<meta content=\"\" content='x'>", "content"), Some(String::from("x")));
    assert_eq!(extract_attr_content("<meta CONTENT = \"x\">", "content"), None);
    assert_eq!(extract_attr_content("<meta content=\"unclosed>", "content"), None);
}

#[test]
fn page_metadata() {
    let m = url_metadata_from_html(PAGE).unwrap().unwrap();
    assert_eq!(m.title, Some(String::from("Floods hit the coast")));
    assert_eq!(m.description, Some(String::from("Rain and wind")));
    assert_eq!(m.preview_image_url, Some(String::from("https://img.example/a.png")));
    let og = url_metadata_from_html("<meta property=\"og:title\" content=\"OG\">").unwrap().unwrap();
    assert_eq!(og.title, Some(String::from("OG")));
    assert!(url_metadata_from_html("<p>plain</p>").unwrap().is_none());
}

#[test]
fn lowercase_shifts_are_reported() {
    // 'İ' lowercases to two characters, moving the offsets of what follows
    let page = "İİİ<title>ab</title>";
    assert!(title_in_page(page).is_err() || title_in_page(page).unwrap() != Some(String::from("ab")));
    assert!(meta_content_in_page("<p>x</p>", "name", "description").unwrap().is_none());
    assert_eq!(trim_text("\u{3000} a b \u{85}"), "a b");
}

#[test]
fn the_title_is_cut_from_the_page_at_the_offsets_of_its_lowercased_text() {
    assert_eq!(title_from_lowered("<TITLE>Ab</TITLE>", "<title>ab</title>"), Ok(Some(String::from("Ab"))));
    assert_eq!(title_from_lowered("<TITLE> </TITLE>", "<title> </title>"), Ok(None));
    assert_eq!(title_from_lowered("<TITLE>Ab</TITLE>", "<TITLE>Ab</TITLE>"), Ok(None));
    // the lowercased text is longer than the page: its offsets fall outside it
    assert_eq!(title_from_lowered("<t>", "<title>abc</title>"), Err(LowercaseShift::Shifted));
}

#[test]
fn an_attribute_is_cut_from_the_tag_at_the_offsets_of_its_lowercased_text() {
    assert_eq!(
        attr_content_from_lowered("<meta CONTENT=\"Xy\">", "<meta content=\"xy\">", "Content", "content"),
        Ok(Some(String::from("Xy")))
    );
    assert_eq!(
        attr_content_from_lowered("<meta CONTENT=\"Xy\">", "<meta content=\"xy\">", "other", "other"),
        Ok(None)
    );
}

#[test]
fn the_next_meta_tag_is_found_in_the_lowercased_page() {
    let page = "<p><META name=\"a\"><meta name='b'>";
    let lower = "<p><meta name=\"a\"><meta name='b'>";
    let double = key_value_bytes("name", "a", 34);
    let single = key_value_bytes("name", "a", 39);
    assert_eq!(double, b"name=\"a\"".to_vec());
    assert_eq!(next_meta_tag(page, lower, &double, &single, 0), Ok(Some((3, 17, true))));
    assert_eq!(next_meta_tag(page, lower, &double, &single, 17), Ok(Some((18, 32, false))));
    assert_eq!(next_meta_tag(page, lower, &double, &single, 32), Ok(None));
}
