use vocab_cards::card_template::CardTemplate;
use vocab_cards::card_template::ExampleSentence;
use vocab_cards::card_template::SimpleCard;
use vocab_cards::card_template::VocabularyCard;

#[test]
fn renders_example_sentence_with_highlight() {
    let example = ExampleSentence {
        sentence: "I was taken aback by her sudden outburst.".to_string(),
        highlight: "taken aback".to_string(),
    };

    let rendered = example.render();
    assert!(rendered.contains("taken aback"));
    assert!(rendered.contains("text-decoration:underline"));
}

#[test]
fn renders_vocabulary_card_fields() {
    let card = VocabularyCard {
        term: "aback".to_string(),
        pronunciation: "/əˈbæk/".to_string(),
        part_of_speech: "adverb".to_string(),
        example: ExampleSentence {
            sentence: "I was taken aback by her sudden outburst.".to_string(),
            highlight: "taken aback".to_string(),
        },
        translation_heading: "застигнутый врасплох".to_string(),
        translation_synonyms: "удивлённый".to_string(),
        translation_usage: "Используется при внезапном удивлении.".to_string(),
        extra_tags: vec!["english".to_string(), "emotion".to_string()],
    };

    let fields = card.render();
    assert!(fields.front.contains("aback"));
    assert!(fields.back.contains("застигнутый"));
    assert!(fields.tags.contains(&"adverb".to_string()));
    assert!(fields.tags.contains(&"english".to_string()));
}

#[test]
fn renders_simple_card() {
    let card = SimpleCard {
        front: "Front".to_string(),
        back: "Back".to_string(),
        tags: vec!["tag1".to_string(), "tag2".to_string()],
    };

    let fields = card.render();
    assert_eq!(fields.front, "Front");
    assert_eq!(fields.back, "Back");
    assert_eq!(fields.tags.len(), 2);
}

#[test]
fn highlight_wraps_only_the_first_occurrence() {
    let example = ExampleSentence {
        sentence: "aa bb aa".to_string(),
        highlight: "aa".to_string(),
    };
    let rendered = example.render();
    assert_eq!(
        rendered,
        "<span style=\"text-decoration:underline; color:red;\">aa</span> bb aa"
    );
}

#[test]
fn highlight_absent_leaves_sentence_unchanged() {
    let example = ExampleSentence {
        sentence: "no match here".to_string(),
        highlight: "zzz".to_string(),
    };
    assert_eq!(example.render(), "no match here");
}

#[test]
fn empty_highlight_leaves_sentence_unchanged() {
    let example = ExampleSentence {
        sentence: "plain sentence".to_string(),
        highlight: String::new(),
    };
    assert_eq!(example.render(), "plain sentence");
}

#[test]
fn vocabulary_front_wraps_highlight_exactly_once() {
    let card = VocabularyCard {
        term: "aback".to_string(),
        pronunciation: "/əˈbæk/".to_string(),
        part_of_speech: "adverb".to_string(),
        example: ExampleSentence {
            sentence: "I was taken aback by her sudden outburst.".to_string(),
            highlight: "taken aback".to_string(),
        },
        translation_heading: "x".to_string(),
        translation_synonyms: String::new(),
        translation_usage: String::new(),
        extra_tags: vec!["english".to_string(), "emotion".to_string()],
    };
    let fields = card.render();
    let spans = fields.front.matches("text-decoration:underline").count();
    assert_eq!(spans, 1);
    assert!(fields.front.contains("/əˈbæk/ · adverb"));
    assert!(fields
        .front
        .contains("<span style=\"text-decoration:underline; color:red;\">taken aback</span>"));
    assert!(fields.tags.contains(&"adverb".to_string()));
    assert!(fields.tags.contains(&"english".to_string()));
}

#[test]
fn empty_part_of_speech_is_not_tagged_and_empty_tags_are_dropped() {
    let card = VocabularyCard {
        term: "term".to_string(),
        pronunciation: String::new(),
        part_of_speech: String::new(),
        example: ExampleSentence {
            sentence: "s".to_string(),
            highlight: String::new(),
        },
        translation_heading: "h".to_string(),
        translation_synonyms: "s".to_string(),
        translation_usage: "u".to_string(),
        extra_tags: vec!["one".to_string(), String::new(), "two".to_string()],
    };
    let fields = card.render();
    assert_eq!(fields.tags, vec!["one".to_string(), "two".to_string()]);
    assert!(!fields.front.contains(" · "));
}
