use vocab_cards::vocab_service::assemble_vocabulary_card;
use vocab_cards::vocab_service::collect_synonyms;
use vocab_cards::vocab_service::dictionary_from_entries;
use vocab_cards::vocab_service::merge_card_fields;
use vocab_cards::vocab_service::merge_synonym_lists;
use vocab_cards::vocab_service::synonym_request_url;
use vocab_cards::vocab_service::Definition;
use vocab_cards::vocab_service::DictionaryData;
use vocab_cards::vocab_service::DictionaryEntry;
use vocab_cards::vocab_service::Meaning;
use vocab_cards::vocab_service::Phonetic;

fn s(x: &str) -> String {
    x.to_string()
}

fn def(text: &str, example: Option<&str>, synonyms: &[&str]) -> Definition {
    Definition {
        definition: s(text),
        example: example.map(s),
        synonyms: synonyms.iter().map(|x| s(x)).collect(),
    }
}

#[test]
fn collected_synonyms_are_sorted_deduplicated_and_nonempty() {
    let definitions = vec![
        def("d1", None, &["gamma", "alpha", ""]),
        def("d2", None, &["beta", "alpha"]),
    ];
    let base = vec![s("delta"), s("beta"), s("")];
    let merged = collect_synonyms(&definitions, base);
    assert_eq!(
        merged,
        vec![s("alpha"), s("beta"), s("delta"), s("gamma")]
    );
}

#[test]
fn merged_synonym_lists_union_without_duplicates() {
    let a = vec![s("take aback"), s("startle")];
    let b = vec![s("surprise"), s("startle"), s("")];
    let merged = merge_synonym_lists(&a, &b);
    assert_eq!(merged, vec![s("startle"), s("surprise"), s("take aback")]);
}

#[test]
fn dictionary_from_no_entries_fails() {
    let entries: Vec<DictionaryEntry> = Vec::new();
    assert!(dictionary_from_entries(&entries).is_none());
}

#[test]
fn dictionary_without_usable_sense_fails() {
    let entries = vec![DictionaryEntry {
        phonetic: Some(s("/x/")),
        phonetics: Vec::new(),
        meanings: vec![Meaning {
            part_of_speech: Some(s("noun")),
            definitions: Vec::new(),
            synonyms: vec![s("abandoned")],
        }],
    }];
    assert!(dictionary_from_entries(&entries).is_none());
}

#[test]
fn sense_with_only_empty_definition_text_is_unusable() {
    let entries = vec![DictionaryEntry {
        phonetic: Some(s("/x/")),
        phonetics: Vec::new(),
        meanings: vec![Meaning {
            part_of_speech: Some(s("noun")),
            definitions: vec![def("", Some("An example."), &["ignored"])],
            synonyms: vec![s("ignored")],
        }],
    }];
    assert!(dictionary_from_entries(&entries).is_none());
}

#[test]
fn sense_selection_skips_senses_without_definition_text() {
    let entries = vec![DictionaryEntry {
        phonetic: None,
        phonetics: Vec::new(),
        meanings: vec![
            Meaning {
                part_of_speech: Some(s("noun")),
                definitions: vec![def("", Some("Skipped example."), &["skipped"])],
                synonyms: Vec::new(),
            },
            Meaning {
                part_of_speech: Some(s("verb")),
                definitions: vec![def("to surprise", None, &["startle"])],
                synonyms: Vec::new(),
            },
        ],
    }];
    let data = dictionary_from_entries(&entries).unwrap();
    assert_eq!(data.part_of_speech, Some(s("verb")));
    assert_eq!(data.definition, Some(s("to surprise")));
    assert_eq!(data.example, None);
    assert_eq!(data.synonyms, vec![s("startle")]);
}

#[test]
fn synonym_request_url_limits_to_five_and_escapes_the_term() {
    assert_eq!(
        synonym_request_url("taken aback"),
        "https://api.datamuse.com/words?rel_syn=taken%20aback&max=5"
    );
}

#[test]
fn dictionary_resolution_picks_first_usable_sense_and_fallback_phonetic() {
    let entries = vec![DictionaryEntry {
        phonetic: None,
        phonetics: vec![
            Phonetic { text: None },
            Phonetic { text: Some(s("")) },
            Phonetic { text: Some(s("/əˈbæk/")) },
        ],
        meanings: vec![
            Meaning {
                part_of_speech: Some(s("noun")),
                definitions: Vec::new(),
                synonyms: vec![s("skipped")],
            },
            Meaning {
                part_of_speech: Some(s("adverb")),
                definitions: vec![
                    def("", Some("I was taken aback."), &["astonished"]),
                    def("by surprise", None, &["startled"]),
                ],
                synonyms: vec![s("suddenly")],
            },
        ],
    }];
    let data = dictionary_from_entries(&entries).unwrap();
    assert_eq!(data.pronunciation, Some(s("/əˈbæk/")));
    assert_eq!(data.part_of_speech, Some(s("adverb")));
    assert_eq!(data.definition, Some(s("by surprise")));
    assert_eq!(data.example, Some(s("I was taken aback.")));
    assert_eq!(
        data.synonyms,
        vec![s("astonished"), s("startled"), s("suddenly")]
    );
}

#[test]
fn failed_dictionary_fetch_merges_to_defaults() {
    let data = DictionaryData::default();
    let merged = merge_card_fields("aback", &data, &Vec::new());
    assert_eq!(merged.part_of_speech, "");
    assert_eq!(merged.pronunciation, "");
    assert_eq!(merged.definition, "No definition found for aback.");
    assert_eq!(merged.example, "This sentence uses the word aback.");
    assert_eq!(merged.highlight, "aback");
    assert!(merged.synonyms.is_empty());
}

#[test]
fn highlight_is_empty_when_example_lacks_the_term() {
    let data = DictionaryData {
        pronunciation: None,
        part_of_speech: None,
        definition: None,
        example: Some(s("A sentence about something else.")),
        synonyms: Vec::new(),
    };
    let merged = merge_card_fields("aback", &data, &Vec::new());
    assert_eq!(merged.example, "A sentence about something else.");
    assert_eq!(merged.highlight, "");
}

#[test]
fn assembled_card_carries_language_and_marker_tags() {
    let data = DictionaryData::default();
    let merged = merge_card_fields("aback", &data, &Vec::new());
    let translations: Vec<Option<String>> = Vec::new();
    let card = assemble_vocabulary_card(
        "aback",
        "en",
        "ru",
        merged,
        s("врасплох"),
        &translations,
        None,
    );
    assert_eq!(card.term, "aback");
    assert_eq!(card.translation_heading, "врасплох");
    assert_eq!(card.translation_synonyms, "");
    assert_eq!(card.translation_usage, "No definition found for aback.");
    assert_eq!(
        card.extra_tags,
        vec![s("en"), s("ru"), s("auto-generated")]
    );
}

#[test]
fn usage_translation_failure_falls_back_to_original_definition() {
    let data = DictionaryData {
        pronunciation: None,
        part_of_speech: None,
        definition: Some(s("by surprise")),
        example: None,
        synonyms: Vec::new(),
    };
    let merged = merge_card_fields("aback", &data, &Vec::new());
    let translations: Vec<Option<String>> = Vec::new();
    let card = assemble_vocabulary_card(
        "aback",
        "en",
        "ru",
        merged,
        s("врасплох"),
        &translations,
        None,
    );
    assert_eq!(card.translation_usage, "by surprise");
}
