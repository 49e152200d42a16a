//! The vocabulary model over the partitioner: a word is one three-column
//! slice of a row (term, translation, written form), a topic is one slice
//! of the whole store, named by the slice's first header cell.

use vstd::prelude::*;
use crate::partition::{
    CsvSliceParser, DecodeError, FromColumnSlice, SliceError, SliceIter, all_rows_decode,
    decoded_rows, kept_rows, lemma_slice_range,
};
use crate::text::{blank_seq, is_blank};

verus! {

/// One vocabulary entry: the term, its translation, and its written form,
/// exactly the three cells of one column slice of one row.
#[derive(Debug, Clone, PartialEq)]
pub struct Word {
    japanese: String,
    english: String,
    kanji: String,
}

/// The abstract value of a `Word`: its three cells as character sequences.
pub struct WordModel {
    pub japanese: Seq<char>,
    pub english: Seq<char>,
    pub kanji: Seq<char>,
}

impl View for Word {
    type V = WordModel;

    closed spec fn view(&self) -> WordModel {
        WordModel { japanese: self.japanese@, english: self.english@, kanji: self.kanji@ }
    }
}

impl DeepView for Word {
    type V = WordModel;

    open spec fn deep_view(&self) -> WordModel {
        self.view()
    }
}

impl Word {
    /// Builds a word from its three fields.
    pub fn new(japanese: String, english: String, kanji: String) -> (w: Word)
        ensures
            w@.japanese == japanese@,
            w@.english == english@,
            w@.kanji == kanji@,
    {
        Word { japanese, english, kanji }
    }

    /// The term being learned.
    pub fn japanese(&self) -> (r: &String)
        ensures
            r@ == self@.japanese,
    {
        &self.japanese
    }

    /// The term's translation.
    pub fn english(&self) -> (r: &String)
        ensures
            r@ == self@.english,
    {
        &self.english
    }

    /// The term's written form; may be blank.
    pub fn kanji(&self) -> (r: &String)
        ensures
            r@ == self@.kanji,
    {
        &self.kanji
    }
}

impl FromColumnSlice for Word {
    /// A word spans three columns.
    open spec fn spec_width() -> nat {
        3
    }

    /// A row decodes at `start` exactly when all three cells are present;
    /// blank cells are accepted.
    open spec fn spec_decodes(row: Seq<Seq<char>>, start: int) -> bool {
        0 <= start && start + 3 <= row.len()
    }

    /// The three cells, in column order.
    open spec fn spec_decoded(row: Seq<Seq<char>>, start: int) -> WordModel {
        WordModel { japanese: row[start], english: row[start + 1], kanji: row[start + 2] }
    }

    fn column_count() -> (w: usize) {
        3
    }

    /// Fails on the first absent cell, reporting its column.
    fn from_record(row: &Vec<String>, start_col: usize) -> (r: Result<Self, DecodeError>)
        ensures
            (r matches Err(e) ==> e.col == if row@.len() > start_col {
                row@.len() as int
            } else {
                start_col as int
            }),
    {
        if row.len() < start_col + 3 {
            let col = if row.len() > start_col {
                row.len()
            } else {
                start_col
            };
            return Err(DecodeError { col });
        }
        let japanese = row[start_col].clone();
        let english = row[start_col + 1].clone();
        let kanji = row[start_col + 2].clone();
        proof {
            assert(row.deep_view()[start_col as int] == row@[start_col as int]@);
            assert(row.deep_view()[start_col + 1] == row@[start_col + 1]@);
            assert(row.deep_view()[start_col + 2] == row@[start_col + 2]@);
        }
        Ok(Word { japanese, english, kanji })
    }
}

/// One topic: the name taken from the slice's first header cell, and the
/// words decoded from the slice's surviving rows.
#[derive(Debug, Clone, PartialEq)]
pub struct Topic {
    name: String,
    words: Vec<Word>,
}

/// The abstract value of a `Topic`.
pub struct TopicModel {
    pub name: Seq<char>,
    pub words: Seq<WordModel>,
}

impl View for Topic {
    type V = TopicModel;

    closed spec fn view(&self) -> TopicModel {
        TopicModel { name: self.name@, words: self.words.deep_view() }
    }
}

impl DeepView for Topic {
    type V = TopicModel;

    open spec fn deep_view(&self) -> TopicModel {
        self.view()
    }
}

impl Topic {
    /// Builds a topic from a name and its words.
    pub fn new(name: String, words: Vec<Word>) -> (t: Topic)
        ensures
            t@.name == name@,
            t@.words == words.deep_view(),
    {
        Topic { name, words }
    }

    /// The topic's name.
    pub fn name(&self) -> (r: &String)
        ensures
            r@ == self@.name,
    {
        &self.name
    }

    /// The topic's words, in row order.
    pub fn words(&self) -> (r: &Vec<Word>)
        ensures
            r.deep_view() == self@.words,
    {
        &self.words
    }
}

/// Whether slice `i` of the store yields a topic: its name cell is not
/// blank, every surviving row decodes, and at least one row survives.
/// The name check comes first; row filtering follows it.
pub open spec fn spec_topic_kept(
    headers: Seq<Seq<char>>,
    rows: Seq<Seq<Seq<char>>>,
    skip: bool,
    i: int,
) -> bool {
    let start = 3 * i;
    let kept = kept_rows(rows, start, start + 3, skip);
    &&& !blank_seq(headers[start])
    &&& all_rows_decode::<Word>(kept, start)
    &&& kept.len() > 0
}

/// The topic slice `i` yields when it is kept.
pub open spec fn spec_topic_at(
    headers: Seq<Seq<char>>,
    rows: Seq<Seq<Seq<char>>>,
    skip: bool,
    i: int,
) -> TopicModel {
    let start = 3 * i;
    TopicModel {
        name: headers[start],
        words: decoded_rows::<Word>(kept_rows(rows, start, start + 3, skip), start),
    }
}

/// The topics of the first `n` slices, in slice order.
pub open spec fn spec_topics_upto(
    headers: Seq<Seq<char>>,
    rows: Seq<Seq<Seq<char>>>,
    skip: bool,
    n: int,
) -> Seq<TopicModel>
    decreases n,
{
    if n <= 0 {
        Seq::empty()
    } else {
        let prefix = spec_topics_upto(headers, rows, skip, n - 1);
        if spec_topic_kept(headers, rows, skip, n - 1) {
            prefix.push(spec_topic_at(headers, rows, skip, n - 1))
        } else {
            prefix
        }
    }
}

/// The topics of the whole store: one per valid slice whose name is not
/// blank, whose rows all decode, and which keeps at least one row.
pub open spec fn spec_topics(
    headers: Seq<Seq<char>>,
    rows: Seq<Seq<Seq<char>>>,
    skip: bool,
) -> Seq<TopicModel> {
    spec_topics_upto(headers, rows, skip, headers.len() as int / 3)
}

/// A topic handle that decodes its words lazily: the name is read from
/// the header up front, the words only as the iterator `words` returns is
/// pulled.
pub struct TopicWithWordIter<'a> {
    name: String,
    parser: &'a CsvSliceParser,
    slice_index: usize,
}

impl<'a> TopicWithWordIter<'a> {
    /// The topic's name.
    pub closed spec fn spec_name(&self) -> Seq<char> {
        self.name@
    }

    /// The store the handle reads from.
    pub closed spec fn spec_parser(&self) -> CsvSliceParser {
        *self.parser
    }

    /// The slice this handle covers.
    pub closed spec fn spec_slice_index(&self) -> usize {
        self.slice_index
    }

    /// The topic's name.
    pub fn name(&self) -> (r: &String)
        ensures
            r@ == self.spec_name(),
    {
        &self.name
    }

    /// Starts a lazy pass over this topic's words.
    pub fn words(&self) -> (r: Result<SliceIter<'a, Word>, SliceError>)
        ensures
            ({
                let p = self.spec_parser();
                let h = p.spec_headers().len() as int;
                let start = self.spec_slice_index() * 3;
                &&& (r is Ok <==> self.spec_slice_index() < h / 3)
                &&& (r matches Ok(it) ==> it.wf() && it.spec_start() == start && it.spec_skip()
                    == p.spec_config().skip_empty_rows && it.remaining() == kept_rows(
                    p.spec_records(),
                    start,
                    start + 3,
                    p.spec_config().skip_empty_rows,
                ))
            }),
    {
        self.parser.parse_slice_iter::<Word>(self.slice_index)
    }
}

/// One lazy topic handle per slice, in slice order, each named by its
/// slice's first header cell; names are not filtered here, and no row is
/// decoded until a handle's iterator is pulled.
pub fn parse_topics_nested_iter(parser: &CsvSliceParser) -> (r: Vec<TopicWithWordIter<'_>>)
    ensures
        r@.len() == parser.spec_headers().len() as int / 3,
        forall|k: int|
            0 <= k < r@.len() ==> (#[trigger] r@[k]).spec_slice_index() == k
                && r@[k].spec_parser() == *parser && r@[k].spec_name() == parser.spec_headers()[3
                * k],
{
    let count = parser.slice_count::<Word>();
    let mut out: Vec<TopicWithWordIter<'_>> = Vec::new();
    let mut i: usize = 0;
    while i < count
        invariant
            i <= count,
            count == parser.spec_headers().len() as int / 3,
            out@.len() == i,
            forall|k: int|
                0 <= k < i ==> (#[trigger] out@[k]).spec_slice_index() == k
                    && out@[k].spec_parser() == *parser && out@[k].spec_name()
                    == parser.spec_headers()[3 * k],
        decreases count - i,
    {
        let hl = parser.headers().len();
        proof {
            lemma_slice_range(i as int, 3, hl as int);
        }
        let name = parser.headers()[i * 3].clone();
        out.push(TopicWithWordIter { name, parser, slice_index: i });
        i = i + 1;
    }
    out
}

/// Walks every word slice of the store and materializes the topics:
/// slices with a blank name, a failing row, or no surviving rows are
/// dropped; the rest become topics in slice order.
pub fn parse_topics_from_csv(parser: &CsvSliceParser) -> (topics: Vec<Topic>)
    ensures
        topics.deep_view() == spec_topics(
            parser.spec_headers(),
            parser.spec_records(),
            parser.spec_config().skip_empty_rows,
        ),
{
    let count = parser.slice_count::<Word>();
    let ghost headers = parser.spec_headers();
    let ghost rows = parser.spec_records();
    let ghost skip = parser.spec_config().skip_empty_rows;
    let mut topics: Vec<Topic> = Vec::new();
    let mut i: usize = 0;
    while i < count
        invariant
            i <= count,
            count == headers.len() as int / 3,
            headers == parser.spec_headers(),
            rows == parser.spec_records(),
            skip == parser.spec_config().skip_empty_rows,
            topics.deep_view() == spec_topics_upto(headers, rows, skip, i as int),
        decreases count - i,
    {
        let hl = parser.headers().len();
        proof {
            lemma_slice_range(i as int, 3, hl as int);
        }
        let start = i * 3;
        let ghost gi = i as int;
        let ghost kept = kept_rows(rows, 3 * gi, 3 * gi + 3, skip);
        let ghost pre_dv = topics.deep_view();
        let name = parser.headers()[start].clone();
        proof {
            assert(name@ == headers[3 * gi]);
        }
        if !is_blank(name.as_str()) {
            match parser.parse_slice::<Word>(i) {
                Ok(words) => {
                    if words.len() > 0 {
                        proof {
                            assert(words.deep_view() == decoded_rows::<Word>(kept, 3 * gi));
                            assert(words.deep_view().len() == words@.len());
                            assert(decoded_rows::<Word>(kept, 3 * gi).len() == kept.len());
                            assert(kept.len() > 0);
                            assert(spec_topic_kept(headers, rows, skip, gi));
                        }
                        topics.push(Topic { name, words });
                        proof {
                            assert(topics.deep_view() =~= pre_dv.push(
                                spec_topic_at(headers, rows, skip, gi),
                            ));
                        }
                    } else {
                        proof {
                            assert(words.deep_view().len() == 0);
                            assert(kept.len() == 0);
                            assert(!spec_topic_kept(headers, rows, skip, gi));
                        }
                    }
                },
                Err(_) => {
                    proof {
                        assert(!all_rows_decode::<Word>(kept, 3 * gi));
                        assert(!spec_topic_kept(headers, rows, skip, gi));
                    }
                },
            }
        } else {
            proof {
                assert(blank_seq(headers[3 * gi]));
                assert(!spec_topic_kept(headers, rows, skip, gi));
            }
        }
        i = i + 1;
    }
    topics
}

} // verus!
