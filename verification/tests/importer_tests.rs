use csv_to_anki::anki::{
    AnkiError, AnkiRequest, add_note_outcome, check_connection_outcome, create_deck_outcome,
    deck_names_outcome,
};
use csv_to_anki::parse::Word;
use csv_to_anki::vocab_importer::{ImportResult, JapaneseVocabImporter, tally_add_results};

#[test]
fn request_wraps_action_and_params_at_version_six() {
    let r = AnkiRequest::new("createDeck".to_string(), 42u32);
    assert_eq!(r.action, "createDeck");
    assert_eq!(r.version, 6);
    assert_eq!(r.params, 42);
}

#[test]
fn note_front_prefers_the_written_form() {
    let importer = JapaneseVocabImporter::new("Vocab".to_string());
    let w = Word::new("neko".to_string(), "cat".to_string(), "X".to_string());
    let note = importer.word_to_note(&w, "Animals");
    assert_eq!(note.fields.front, "X");
    assert_eq!(note.fields.back, "neko | cat");
    assert_eq!(note.deck_name, "Vocab::Animals");
    assert_eq!(note.model_name, "Basic");
    assert_eq!(
        note.tags,
        vec!["Animals".to_string(), "japanese".to_string(), "vocabularly".to_string()]
    );
    assert!(note.audio.is_none());
    assert!(note.picture.is_none());
}

#[test]
fn note_falls_back_to_the_term_when_the_written_form_is_blank() {
    let importer = JapaneseVocabImporter::new("Vocab".to_string());
    let w = Word::new("neko".to_string(), "cat".to_string(), "  ".to_string());
    let note = importer.word_to_note(&w, "Animals");
    assert_eq!(note.fields.front, "neko");
    assert_eq!(note.fields.back, "cat");
}

#[test]
fn note_for_an_unnamed_topic_targets_the_main_deck() {
    let importer = JapaneseVocabImporter::new("Vocab".to_string());
    let w = Word::new("neko".to_string(), "cat".to_string(), "".to_string());
    let note = importer.word_to_note(&w, "");
    assert_eq!(note.deck_name, "Vocab");
    assert_eq!(
        note.tags,
        vec!["japanese".to_string(), "vocabularly".to_string()]
    );
}

#[test]
fn importer_model_can_be_replaced() {
    let importer =
        JapaneseVocabImporter::new("Vocab".to_string())._with_model("Cloze".to_string());
    let w = Word::new("a".to_string(), "b".to_string(), "".to_string());
    assert_eq!(importer.word_to_note(&w, "").model_name, "Cloze");
}

#[test]
fn import_result_starts_empty_and_totals_its_buckets() {
    let mut r = ImportResult::new("Animals");
    assert_eq!(r.topic_name, "Animals");
    assert_eq!(r.total(), 0);
    r.added = 3;
    r.duplicates = 1;
    r.errors = 2;
    assert_eq!(r.total(), 6);
}

#[test]
fn tally_sorts_every_outcome_into_one_bucket() {
    let outcomes: Vec<Result<i64, String>> = vec![
        Ok(11),
        Err("Duplicate note".to_string()),
        Ok(12),
        Err("server unreachable".to_string()),
        Err("Duplicate note".to_string()),
    ];
    let t = tally_add_results("Animals", &outcomes);
    assert_eq!(t.topic_name, "Animals");
    assert_eq!(t.added, 2);
    assert_eq!(t.duplicates, 2);
    assert_eq!(t.errors, 1);
    assert_eq!(t.total(), 5);
}

#[test]
fn tally_of_no_outcomes_is_empty() {
    let t = tally_add_results("Food", &Vec::new());
    assert_eq!((t.added, t.duplicates, t.errors), (0, 0, 0));
}

#[test]
fn connection_outcome_mirrors_the_reported_error() {
    assert_eq!(check_connection_outcome(None), Ok(()));
    assert_eq!(
        check_connection_outcome(Some("collection locked".to_string())),
        Err(AnkiError::Connect { detail: "collection locked".to_string() })
    );
}

#[test]
fn deck_names_outcome_defaults_to_no_decks() {
    let names = vec!["Default".to_string(), "Vocab".to_string()];
    assert_eq!(deck_names_outcome(Some(names.clone()), None), Ok(names));
    assert_eq!(deck_names_outcome(None, None), Ok(Vec::new()));
    assert_eq!(
        deck_names_outcome(None, Some("boom".to_string())),
        Err(AnkiError::DeckNames { detail: "boom".to_string() })
    );
}

#[test]
fn create_deck_outcome_reads_a_missing_identifier_as_zero() {
    assert_eq!(create_deck_outcome(Some(7), None), Ok(7));
    assert_eq!(create_deck_outcome(None, None), Ok(0));
    assert_eq!(
        create_deck_outcome(None, Some("boom".to_string())),
        Err(AnkiError::CreateDeck { detail: "boom".to_string() })
    );
}

#[test]
fn add_note_outcome_tells_duplicates_from_other_failures() {
    assert_eq!(add_note_outcome(Some(99), None), Ok(99));
    assert_eq!(add_note_outcome(None, None), Ok(0));
    assert_eq!(
        add_note_outcome(None, Some("cannot create note because it is a duplicate".to_string())),
        Err(AnkiError::Duplicate)
    );
    assert_eq!(
        add_note_outcome(None, Some("model not found".to_string())),
        Err(AnkiError::AddNote { detail: "model not found".to_string() })
    );
}

#[test]
fn error_messages_carry_their_context() {
    assert_eq!(
        AnkiError::Connect { detail: "x".to_string() }.message(),
        "AnkiConnect error: x"
    );
    assert_eq!(
        AnkiError::DeckNames { detail: "x".to_string() }.message(),
        "Failed to get deck names: x"
    );
    assert_eq!(
        AnkiError::CreateDeck { detail: "x".to_string() }.message(),
        "Failed to create deck: x"
    );
    assert_eq!(AnkiError::Duplicate.message(), "Duplicate note");
    assert_eq!(
        AnkiError::AddNote { detail: "x".to_string() }.message(),
        "Failed to add note: x"
    );
}
