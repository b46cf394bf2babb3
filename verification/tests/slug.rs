use news_service::slug::slugify;

#[test]
fn test_slugify() {
    assert_eq!(
        slugify("The Texas Group Waging a National Crusade Against Climate Action"),
        "the-texas-group-waging-a-national-crusade-against-climate-action"
    );
    assert_eq!(
        slugify("Whistleblower: Enviva claim of ‘being good for the planet… all nonsense’"),
        "whistleblower-enviva-claim-of-being-good-for-the-planet-all"
    );
}

#[test]
fn slugify_keeps_ten_words_and_trims_dashes() {
    assert_eq!(slugify("  Hello,  World!  "), "hello-world");
    assert_eq!(slugify("a b c d e f g h i j k l"), "a-b-c-d-e-f-g-h-i-j");
    assert_eq!(slugify(""), "");
    assert_eq!(slugify("Ærøskøbing Café"), "aeroskobing-cafe");
}

#[test]
fn slugify_is_idempotent_on_examples() {
    let once = slugify("Climate: the ‘big’ picture — 2024");
    assert_eq!(slugify(&once), once);
}
