//! Whether a text is English, as `lingua` detects among the languages the
//! service meets.

use vstd::prelude::*;
use lingua::Language;
use crate::html::is_white_space;

verus! {

#[verifier::external_type_specification]
#[verifier::external_body]
pub struct ExLanguageDetector(lingua::LanguageDetector);

/// The languages the detector tells apart.
#[derive(Debug, Clone, Copy, PartialEq, Eq, Structural)]
pub enum DetectedLanguage {
    English,
    French,
    German,
    Spanish,
    Swedish,
}

/// A detector of English among English, French, German, Spanish and Swedish.
pub struct EnglishLanguageDetector {
    detector: lingua::LanguageDetector,
}

/// `LanguageDetectorBuilder::from_languages(&[English, French, German, Spanish, Swedish]).build()`.
/// Nothing is claimed of the detector: it is used only through `detect_language`.
#[verifier::external_body]
fn build_detector() -> (d: lingua::LanguageDetector) {
    let languages = vec![
        Language::English,
        Language::French,
        Language::German,
        Language::Spanish,
        Language::Swedish,
    ];
    lingua::LanguageDetectorBuilder::from_languages(&languages).build()
}

/// `text` holds white space alone (or nothing).
pub open spec fn blank(text: Seq<char>) -> bool {
    forall|i: int| 0 <= i < text.len() ==> is_white_space(#[trigger] text[i])
}

/// `LanguageDetector::detect_language_of(text)`, the language mapped to its
/// variant. Claimed: a blank text gets no language (the crate trims the text,
/// finds no word, gives every language the confidence 0.0 and so answers
/// `None`). Nothing more is claimed of the answer: the crate sums its
/// probabilities in the order of a hash map, so near ties may fall either way.
#[verifier::external_body]
fn detect_language(detector: &lingua::LanguageDetector, text: &str) -> (r: Option<DetectedLanguage>)
    ensures
        blank(text@) ==> r is None,
{
    match detector.detect_language_of(text) {
        Some(Language::English) => Some(DetectedLanguage::English),
        Some(Language::French) => Some(DetectedLanguage::French),
        Some(Language::German) => Some(DetectedLanguage::German),
        Some(Language::Spanish) => Some(DetectedLanguage::Spanish),
        Some(Language::Swedish) => Some(DetectedLanguage::Swedish),
        _ => None,
    }
}

/// Whether a detection found English.
pub fn language_is_english(detected: Option<DetectedLanguage>) -> (r: bool)
    ensures
        r == (detected == Some(DetectedLanguage::English)),
{
    match detected {
        Some(DetectedLanguage::English) => true,
        _ => false,
    }
}

impl EnglishLanguageDetector {
    /// `d` is an answer that the detector can give on `text`.
    pub closed spec fn may_answer(&self, text: &str, d: Option<DetectedLanguage>) -> bool {
        call_ensures(detect_language, (&self.detector, text), d)
    }

    /// Law: the detector gives no language to a blank text.
    pub proof fn lemma_blank_has_no_answer(&self, text: &str, d: Option<DetectedLanguage>)
        requires
            self.may_answer(text, d),
            blank(text@),
        ensures
            d is None,
    {
    }

    /// A detector for the service's languages.
    pub fn new() -> (d: EnglishLanguageDetector) {
        EnglishLanguageDetector { detector: build_detector() }
    }

    /// Whether `text` is detected as English: true exactly when the answer
    /// `d` that the detector gave on `text` is English. A blank text never is.
    pub fn is_english_language(&self, text: &str) -> (r: bool)
        ensures
            blank(text@) ==> !r,
            exists|d: Option<DetectedLanguage>| #[trigger] self.may_answer(text, d) && r == (d == Some(DetectedLanguage::English)),
    {
        let detect = detect_language;
        let detected = detect(&self.detector, text);
        assert(self.may_answer(text, detected));
        language_is_english(detected)
    }
}

} // verus!
