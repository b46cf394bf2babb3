use news_service::language::{language_is_english, DetectedLanguage, EnglishLanguageDetector};

#[test]
fn english_is_told_apart() {
    assert!(language_is_english(Some(DetectedLanguage::English)));
    assert!(!language_is_english(Some(DetectedLanguage::French)));
    assert!(!language_is_english(None));
    let detector = EnglishLanguageDetector::new();
    assert!(detector.is_english_language(
        "Floods and rain kill at least ten people overnight as rescuers search for the missing"
    ));
    assert!(!detector.is_english_language(
        "Les inondations et la pluie ont fait au moins dix morts pendant la nuit dans la région"
    ));
}

#[test]
fn blank_text_is_never_english() {
    let detector = EnglishLanguageDetector::new();
    assert!(!detector.is_english_language(""));
    assert!(!detector.is_english_language(" \n\t\u{3000} "));
}
