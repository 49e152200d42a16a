use csv_to_anki::parse::Word;
use csv_to_anki::partition::{
    CsvSliceParser, DecodeError, FromColumnSlice, ParseConfig, SliceError,
};

fn store(text: &str) -> CsvSliceParser {
    CsvSliceParser::from_csv_text(text).expect("text should tokenize")
}

fn store_with(text: &str, config: ParseConfig) -> CsvSliceParser {
    CsvSliceParser::from_csv_text_with_config(text, config).expect("text should tokenize")
}

fn words(parser: &CsvSliceParser, slice: usize) -> Vec<(String, String, String)> {
    parser
        .parse_slice::<Word>(slice)
        .expect("slice should parse")
        .into_iter()
        .map(|w| {
            (
                w.japanese().clone(),
                w.english().clone(),
                w.kanji().clone(),
            )
        })
        .collect()
}

#[test]
fn slice_count_is_floor_of_header_len_over_width() {
    let parser = store("a,b,c,d,e,f\n");
    assert_eq!(parser.slice_count::<Word>(), 2);
    let parser = store("a,b,c,d,e,f,g,h\n");
    assert_eq!(parser.slice_count::<Word>(), 2);
    let parser = store("a,b\n");
    assert_eq!(parser.slice_count::<Word>(), 0);
}

#[test]
fn slice_count_with_five_headers_and_width_three_is_one() {
    let parser = store("a,b,c,d,e\n");
    assert_eq!(parser.slice_count::<Word>(), 1);
}

#[test]
fn validate_slice_succeeds_on_every_valid_index() {
    let parser = store("a,b,c,d,e,f\n");
    assert_eq!(parser.validate_slice_index::<Word>(0), Ok((0, 3)));
    assert_eq!(parser.validate_slice_index::<Word>(1), Ok((3, 6)));
}

#[test]
fn validate_slice_reports_the_out_of_bounds_range() {
    let parser = store("a,b,c,d,e\n");
    assert_eq!(
        parser.validate_slice_index::<Word>(1),
        Err(SliceError::OutOfBounds { slice_index: 1, start: 3, end: 6, header_len: 5 })
    );
}

#[test]
fn slice_headers_round_trips_the_header_sub_range() {
    let parser = store("a,b,c,d,e,f\nx,y,z,u,v,w\n");
    assert_eq!(
        parser.slice_headers::<Word>(0),
        Some(vec!["a".to_string(), "b".to_string(), "c".to_string()])
    );
    assert_eq!(
        parser.slice_headers::<Word>(1),
        Some(vec!["d".to_string(), "e".to_string(), "f".to_string()])
    );
    assert_eq!(parser.slice_headers::<Word>(2), None);
}

#[test]
fn parse_slice_is_idempotent() {
    let text = "T1,,,T2,,\nw1,t1,k1,w2,t2,k2\nw3,t3,,,,\n";
    let parser = store(text);
    let first = parser.parse_slice::<Word>(0).unwrap();
    let second = parser.parse_slice::<Word>(0).unwrap();
    assert_eq!(first, second);
}

#[test]
fn repeating_groups_example_yields_both_slices() {
    let text = "A,B,C,D,,\n1,2,3,x,,\n4,5,6,,,\n";
    let parser = store(text);
    assert_eq!(parser.slice_count::<Word>(), 2);
    assert_eq!(
        words(&parser, 0),
        vec![
            ("1".to_string(), "2".to_string(), "3".to_string()),
            ("4".to_string(), "5".to_string(), "6".to_string()),
        ]
    );
    // The second row's slice is all blank and is filtered; the first row
    // survives and the decoder accepts its blank cells.
    assert_eq!(
        words(&parser, 1),
        vec![("x".to_string(), "".to_string(), "".to_string())]
    );
}

#[test]
fn blank_rows_are_kept_when_filtering_is_off() {
    let text = "A,B,C\n1,2,3\n,,\n4,5,6\n";
    let config = ParseConfig { skip_empty_rows: false, reserve_capacity: true, trim_fields: true };
    let parser = store_with(text, config);
    assert_eq!(
        words(&parser, 0),
        vec![
            ("1".to_string(), "2".to_string(), "3".to_string()),
            ("".to_string(), "".to_string(), "".to_string()),
            ("4".to_string(), "5".to_string(), "6".to_string()),
        ]
    );
}

#[test]
fn blank_rows_are_dropped_when_filtering_is_on() {
    let text = "A,B,C\n1,2,3\n,,\n4,5,6\n";
    let parser = store(text);
    assert_eq!(
        words(&parser, 0),
        vec![
            ("1".to_string(), "2".to_string(), "3".to_string()),
            ("4".to_string(), "5".to_string(), "6".to_string()),
        ]
    );
}

#[test]
fn whitespace_only_rows_count_as_blank() {
    let text = "A,B,C\n  , \t ,\n1,2,3\n";
    let config = ParseConfig { skip_empty_rows: true, reserve_capacity: true, trim_fields: false };
    let parser = store_with(text, config);
    assert_eq!(
        words(&parser, 0),
        vec![("1".to_string(), "2".to_string(), "3".to_string())]
    );
}

#[test]
fn lazy_mode_fully_consumed_equals_eager_mode() {
    let text = "A,B,C,D,,\n1,2,3,x,,\n4,5,6,,,\n";
    let parser = store(text);
    for slice in 0..parser.slice_count::<Word>() {
        let eager = parser.parse_slice::<Word>(slice).unwrap();
        let mut lazy = parser.parse_slice_iter::<Word>(slice).unwrap();
        let mut collected: Vec<Word> = Vec::new();
        while let Some(item) = lazy.next() {
            collected.push(item.expect("every kept row decodes here"));
        }
        assert_eq!(collected, eager);
    }
}

#[test]
fn lazy_mode_can_stop_early() {
    let text = "A,B,C\n1,2,3\n4,5,6\n7,8,9\n";
    let parser = store(text);
    let mut lazy = parser.parse_slice_iter::<Word>(0).unwrap();
    let first = lazy.next().unwrap().unwrap();
    assert_eq!(first.japanese(), "1");
    // Dropping the iterator here is legal; the remaining rows were never
    // decoded.
}

#[test]
fn lazy_mode_rejects_an_invalid_slice_up_front() {
    let parser = store("a,b\n");
    assert!(parser.parse_slice_iter::<Word>(0).is_err());
}

#[test]
fn lazy_mode_surfaces_a_decode_error_at_its_position() {
    let headers = vec!["a".to_string(), "b".to_string(), "c".to_string()];
    let rows = vec![
        vec!["1".to_string(), "2".to_string(), "3".to_string()],
        vec!["only".to_string()],
    ];
    let parser = CsvSliceParser::from_records(headers, rows, ParseConfig::default());
    let mut lazy = parser.parse_slice_iter::<Word>(0).unwrap();
    assert!(lazy.next().unwrap().is_ok());
    assert_eq!(lazy.next().unwrap(), Err(DecodeError { col: 1 }));
    assert_eq!(lazy.next(), None);
}

#[test]
fn eager_mode_stops_at_the_first_decode_error() {
    let headers = vec!["a".to_string(), "b".to_string(), "c".to_string()];
    let rows = vec![
        vec!["1".to_string(), "2".to_string(), "3".to_string()],
        vec!["only".to_string()],
        vec!["4".to_string(), "5".to_string(), "6".to_string()],
    ];
    let parser = CsvSliceParser::from_records(headers, rows, ParseConfig::default());
    assert_eq!(
        parser.parse_slice::<Word>(0),
        Err(SliceError::Decode(DecodeError { col: 1 }))
    );
}

#[test]
fn parse_all_slices_collects_every_slice_in_order() {
    let text = "A,B,C,D,,\n1,2,3,x,,\n4,5,6,,,\n";
    let parser = store(text);
    let all = parser.parse_all_slices::<Word>().unwrap();
    assert_eq!(all.len(), 2);
    assert_eq!(all[0].len(), 2);
    assert_eq!(all[1].len(), 1);
    assert_eq!(all[0][0].japanese(), "1");
    assert_eq!(all[1][0].japanese(), "x");
}

#[test]
fn parse_all_slices_fails_when_one_slice_fails() {
    let headers = vec![
        "a".to_string(),
        "b".to_string(),
        "c".to_string(),
        "d".to_string(),
        "e".to_string(),
        "f".to_string(),
    ];
    let rows = vec![vec!["1".to_string(), "2".to_string(), "3".to_string(), "4".to_string()]];
    let config = ParseConfig { skip_empty_rows: false, reserve_capacity: false, trim_fields: true };
    let parser = CsvSliceParser::from_records(headers, rows, config);
    assert_eq!(
        parser.parse_all_slices::<Word>(),
        Err(SliceError::Decode(DecodeError { col: 4 }))
    );
}

#[test]
fn load_trims_cells_by_default() {
    let parser = store(" A , B ,C \n 1 ,2, 3\n");
    assert_eq!(
        parser.headers(),
        &vec!["A".to_string(), "B".to_string(), "C".to_string()]
    );
    assert_eq!(
        words(&parser, 0),
        vec![("1".to_string(), "2".to_string(), "3".to_string())]
    );
}

#[test]
fn load_keeps_whitespace_when_trimming_is_off() {
    let config = ParseConfig { skip_empty_rows: true, reserve_capacity: true, trim_fields: false };
    let parser = store_with(" A ,B,C\n", config);
    assert_eq!(parser.headers()[0], " A ");
}

#[test]
fn load_rejects_text_it_cannot_tokenize() {
    // The second record has a different number of fields.
    assert!(CsvSliceParser::from_csv_text("a,b\n1,2,3\n").is_err());
    // An unclosed quote straddles the end of the input.
    assert!(CsvSliceParser::from_csv_text("a,b\n\"x,y\ntrailing").is_err());
}

#[test]
fn load_understands_quoted_fields() {
    let parser = store("a,b,c\n\"x, y\",\"line\nbreak\",\"quote\"\"d\"\n");
    assert_eq!(
        parser.records()[0],
        vec!["x, y".to_string(), "line\nbreak".to_string(), "quote\"d".to_string()]
    );
}

#[test]
fn load_of_empty_text_gives_an_empty_store() {
    let parser = store("");
    assert_eq!(parser.headers().len(), 0);
    assert_eq!(parser.record_count(), 0);
    assert_eq!(parser.slice_count::<Word>(), 0);
}

#[test]
fn from_records_keeps_rows_and_headers_as_given() {
    let headers = vec!["a".to_string(), "b".to_string(), "c".to_string()];
    let rows = vec![vec!["1".to_string(), "2".to_string(), "3".to_string()]];
    let parser = CsvSliceParser::from_records(headers.clone(), rows.clone(), ParseConfig::default());
    assert_eq!(parser.headers(), &headers);
    assert_eq!(parser.records(), &rows);
    assert_eq!(parser.record_count(), 1);
}

#[test]
fn short_rows_read_as_absent_cells() {
    // The row is shorter than the header: the missing cells count as
    // blank for filtering, and the decoder reports the first absent one.
    let headers = vec![
        "a".to_string(),
        "b".to_string(),
        "c".to_string(),
        "d".to_string(),
        "e".to_string(),
        "f".to_string(),
    ];
    let rows = vec![vec!["1".to_string(), "2".to_string(), "3".to_string()]];
    let parser = CsvSliceParser::from_records(headers, rows, ParseConfig::default());
    // Slice 1 covers columns 3..6; the row has none of them, so it is
    // filtered out and the slice parses to nothing.
    let empty = parser.parse_slice::<Word>(1).unwrap();
    assert!(empty.is_empty());
    // With filtering off the decoder sees the short row and fails at the
    // first absent column.
    let config = ParseConfig { skip_empty_rows: false, reserve_capacity: true, trim_fields: true };
    let parser = CsvSliceParser::from_records(
        vec!["a".to_string(), "b".to_string(), "c".to_string(), "d".to_string(), "e".to_string(), "f".to_string()],
        vec![vec!["1".to_string(), "2".to_string(), "3".to_string()]],
        config,
    );
    assert_eq!(
        parser.parse_slice::<Word>(1),
        Err(SliceError::Decode(DecodeError { col: 3 }))
    );
}

#[test]
fn record_and_header_accessors_expose_the_loaded_data() {
    let parser = store("a,b,c\n1,2,3\n4,5,6\n");
    assert_eq!(parser.record_count(), 2);
    assert_eq!(parser.records()[1][0], "4");
    assert_eq!(parser.headers()[2], "c");
}
