use vocab_cards::translate::translated_synonyms_field;
use vocab_cards::translate::translation_request_url;

fn s(x: &str) -> String {
    x.to_string()
}

#[test]
fn blank_text_yields_no_translation_request() {
    assert!(translation_request_url("", "en", "ru", None).is_none());
    assert!(translation_request_url("   \t\n", "en", "ru", None).is_none());
}

#[test]
fn translation_url_uses_default_base_and_escapes_the_text() {
    let url = translation_request_url("taken aback", "en", "ru", None).unwrap();
    assert_eq!(url, "https://lingva.ml/api/v1/en/ru/taken%20aback");
}

#[test]
fn translation_url_strips_trailing_slashes_from_override() {
    let url = translation_request_url("hi", "en", "de", Some("https://example.test/api//")).unwrap();
    assert_eq!(url, "https://example.test/api/en/de/hi");
}

#[test]
fn empty_synonym_set_translates_to_empty_string() {
    let synonyms: Vec<String> = Vec::new();
    let translations: Vec<Option<String>> = Vec::new();
    assert_eq!(translated_synonyms_field(&synonyms, &translations), "");
}

#[test]
fn failed_synonym_translations_fall_back_in_order() {
    let synonyms = vec![s("astonished"), s("startled"), s("suddenly")];
    let translations = vec![Some(s("изумлённый")), None, Some(s("внезапно"))];
    let joined = translated_synonyms_field(&synonyms, &translations);
    assert_eq!(joined, "изумлённый, startled, внезапно");
    assert_eq!(joined.split(", ").count(), 3);
}
