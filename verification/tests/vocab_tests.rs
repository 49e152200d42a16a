use csv_to_anki::parse::{Topic, Word, parse_topics_from_csv, parse_topics_nested_iter};
use csv_to_anki::partition::{CsvSliceParser, FromColumnSlice, ParseConfig};

fn store(text: &str) -> CsvSliceParser {
    CsvSliceParser::from_csv_text(text).expect("text should tokenize")
}

#[test]
fn word_getters_return_the_three_cells() {
    let w = Word::new("neko".to_string(), "cat".to_string(), "X".to_string());
    assert_eq!(w.japanese(), "neko");
    assert_eq!(w.english(), "cat");
    assert_eq!(w.kanji(), "X");
}

#[test]
fn word_decodes_from_a_row_at_an_offset() {
    let row = vec![
        "a".to_string(),
        "b".to_string(),
        "c".to_string(),
        "d".to_string(),
        "e".to_string(),
    ];
    let w = Word::from_record(&row, 2).unwrap();
    assert_eq!(w.japanese(), "c");
    assert_eq!(w.english(), "d");
    assert_eq!(w.kanji(), "e");
}

#[test]
fn word_decode_fails_on_the_first_absent_cell() {
    let row = vec!["a".to_string(), "b".to_string()];
    let err = Word::from_record(&row, 0).unwrap_err();
    assert_eq!(err.col, 2);
    let err = Word::from_record(&row, 5).unwrap_err();
    assert_eq!(err.col, 5);
}

#[test]
fn word_column_count_is_three() {
    assert_eq!(Word::column_count(), 3);
}

#[test]
fn topic_getters_return_name_and_words() {
    let words = vec![Word::new("a".to_string(), "b".to_string(), "c".to_string())];
    let t = Topic::new("Animals".to_string(), words.clone());
    assert_eq!(t.name(), "Animals");
    assert_eq!(t.words(), &words);
}

#[test]
fn topics_are_built_per_slice_with_their_header_names() {
    let text = "Animals,,,Food,,\nneko,cat,,pan,bread,\ninu,dog,,,,\n";
    let parser = store(text);
    let topics = parse_topics_from_csv(&parser);
    assert_eq!(topics.len(), 2);
    assert_eq!(topics[0].name(), "Animals");
    assert_eq!(topics[0].words().len(), 2);
    assert_eq!(topics[0].words()[1].japanese(), "inu");
    assert_eq!(topics[1].name(), "Food");
    assert_eq!(topics[1].words().len(), 1);
    assert_eq!(topics[1].words()[0].english(), "bread");
}

#[test]
fn topics_with_blank_names_are_dropped() {
    let text = ",,,Food,,\nneko,cat,,pan,bread,\n";
    let parser = store(text);
    let topics = parse_topics_from_csv(&parser);
    assert_eq!(topics.len(), 1);
    assert_eq!(topics[0].name(), "Food");
}

#[test]
fn topics_with_no_surviving_rows_are_dropped() {
    let text = "Animals,,,Food,,\nneko,cat,,,,\n";
    let parser = store(text);
    let topics = parse_topics_from_csv(&parser);
    assert_eq!(topics.len(), 1);
    assert_eq!(topics[0].name(), "Animals");
}

#[test]
fn topics_whose_rows_fail_to_decode_are_dropped() {
    let headers = vec![
        "Animals".to_string(),
        "".to_string(),
        "".to_string(),
        "Food".to_string(),
        "".to_string(),
        "".to_string(),
    ];
    // The row covers the first slice fully but only one cell of the
    // second, so the second topic's decode fails and it is dropped.
    let rows = vec![vec![
        "neko".to_string(),
        "cat".to_string(),
        "".to_string(),
        "pan".to_string(),
    ]];
    let parser = CsvSliceParser::from_records(headers, rows, ParseConfig::default());
    let topics = parse_topics_from_csv(&parser);
    assert_eq!(topics.len(), 1);
    assert_eq!(topics[0].name(), "Animals");
}

#[test]
fn nested_iter_names_every_slice_and_decodes_lazily() {
    let text = "Animals,,,Food,,\nneko,cat,,pan,bread,\n";
    let parser = store(text);
    let handles = parse_topics_nested_iter(&parser);
    assert_eq!(handles.len(), 2);
    assert_eq!(handles[0].name(), "Animals");
    assert_eq!(handles[1].name(), "Food");
    let mut it = handles[1].words().unwrap();
    let first = it.next().unwrap().unwrap();
    assert_eq!(first.japanese(), "pan");
    assert_eq!(it.next(), None);
}

#[test]
fn nested_iter_keeps_blank_names_unlike_the_eager_topics() {
    let text = ",,,Food,,\nneko,cat,,pan,bread,\n";
    let parser = store(text);
    let handles = parse_topics_nested_iter(&parser);
    assert_eq!(handles.len(), 2);
    assert_eq!(handles[0].name(), "");
}
