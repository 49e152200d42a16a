//! The column-slice partitioner: an immutable record store (header plus
//! rows) read as fixed-width column slices.  Slice `i` of width `W` covers
//! the column range `[i*W, i*W + W)`; it is valid exactly when the range
//! fits inside the header.  Rows of a slice can be decoded eagerly, lazily,
//! or for every slice at once, with blank rows optionally filtered out.

use vstd::prelude::*;
use vstd::arithmetic::div_mod::{
    lemma_fundamental_div_mod, lemma_div_is_ordered, lemma_div_multiples_vanish_fancy,
};
use vstd::arithmetic::mul::{lemma_mul_inequality, lemma_mul_is_commutative};
use crate::text::{blank_seq, is_blank, trim_seq};
use crate::text::trim_str;

verus! {

/// The decoder rejected a row; `col` is the column at which it gave up.
#[derive(Debug, Clone, Copy, PartialEq, Eq, Structural)]
pub struct DecodeError {
    pub col: usize,
}

/// Why a slice operation failed.
#[derive(Debug, Clone, Copy, PartialEq, Eq, Structural)]
pub enum SliceError {
    /// The requested column range `[start, end)` does not fit inside the
    /// header, which has `header_len` columns.
    OutOfBounds { slice_index: usize, start: usize, end: usize, header_len: usize },
    /// A row's slice could not be decoded; the store is unaffected.
    Decode(DecodeError),
}

/// The source text could not be tokenized as delimited records.
#[derive(Debug, Clone)]
pub struct FormatError {
    pub message: String,
}

/// How the parser handles edge cases and performance trade-offs.
#[derive(Debug, Clone, Copy, PartialEq, Eq, Structural)]
pub struct ParseConfig {
    /// Skip rows whose cells inside the slice are all blank.
    pub skip_empty_rows: bool,
    /// Pre-size result vectors; a performance hint, not a correctness knob.
    pub reserve_capacity: bool,
    /// Strip surrounding whitespace from every cell on load.
    pub trim_fields: bool,
}

impl Default for ParseConfig {
    /// All options on: skip blank rows, reserve capacity, trim cells.
    fn default() -> (c: Self)
        ensures
            c == (ParseConfig { skip_empty_rows: true, reserve_capacity: true, trim_fields: true }),
    {
        ParseConfig { skip_empty_rows: true, reserve_capacity: true, trim_fields: true }
    }
}

/// A record type that can be decoded from a fixed-width column slice of a
/// row.  The width is one constant per implementing type; the decoder reads
/// the cells `[start_col, start_col + width)` of a row and either produces
/// a record or rejects the row.
pub trait FromColumnSlice: Sized + DeepView {
    /// The number of columns this type occupies.
    spec fn spec_width() -> nat;

    /// Whether the decoder accepts this row at this starting column.
    spec fn spec_decodes(row: Seq<Seq<char>>, start: int) -> bool;

    /// The abstract record produced when the decoder accepts.
    spec fn spec_decoded(row: Seq<Seq<char>>, start: int) -> Self::V;

    /// The slice width as a runtime value; always positive.
    fn column_count() -> (w: usize)
        ensures
            w == Self::spec_width(),
            w >= 1,
    ;

    /// Decode one row's slice starting at `start_col`.
    fn from_record(row: &Vec<String>, start_col: usize) -> (r: Result<Self, DecodeError>)
        requires
            start_col + Self::spec_width() <= usize::MAX,
        ensures
            r is Ok <==> Self::spec_decodes(row.deep_view(), start_col as int),
            (r matches Ok(v) ==>
                v.deep_view() == Self::spec_decoded(row.deep_view(), start_col as int)),
    ;
}

/// Every cell of the row inside `[start, end)` is absent or blank.
pub open spec fn row_slice_blank(row: Seq<Seq<char>>, start: int, end: int) -> bool {
    forall|j: int| start <= j < end ==> (j >= row.len() || blank_seq(row[j]))
}

/// The rows that survive filtering: all of them when `skip` is off, the
/// non-blank ones (for this slice's column range) when it is on.
pub open spec fn kept_rows(rows: Seq<Seq<Seq<char>>>, start: int, end: int, skip: bool) -> Seq<
    Seq<Seq<char>>,
>
    decreases rows.len(),
{
    if rows.len() == 0 {
        Seq::empty()
    } else if skip && row_slice_blank(rows[0], start, end) {
        kept_rows(rows.skip(1), start, end, skip)
    } else {
        seq![rows[0]] + kept_rows(rows.skip(1), start, end, skip)
    }
}

/// Filtering distributes over concatenation of row sequences.
pub proof fn lemma_kept_rows_append(
    a: Seq<Seq<Seq<char>>>,
    b: Seq<Seq<Seq<char>>>,
    start: int,
    end: int,
    skip: bool,
)
    ensures
        kept_rows(a + b, start, end, skip) == kept_rows(a, start, end, skip) + kept_rows(
            b,
            start,
            end,
            skip,
        ),
    decreases a.len(),
{
    if a.len() == 0 {
        assert(a + b =~= b);
        assert(kept_rows(a, start, end, skip) + kept_rows(b, start, end, skip) =~= kept_rows(
            b,
            start,
            end,
            skip,
        ));
    } else {
        assert((a + b).skip(1) =~= a.skip(1) + b);
        assert((a + b)[0] == a[0]);
        lemma_kept_rows_append(a.skip(1), b, start, end, skip);
        if skip && row_slice_blank(a[0], start, end) {
        } else {
            assert(seq![a[0]] + (kept_rows(a.skip(1), start, end, skip) + kept_rows(
                b,
                start,
                end,
                skip,
            )) =~= (seq![a[0]] + kept_rows(a.skip(1), start, end, skip)) + kept_rows(
                b,
                start,
                end,
                skip,
            ));
        }
    }
}

/// Every row of the filtered sequence decodes.
pub open spec fn all_rows_decode<T: FromColumnSlice>(
    rows: Seq<Seq<Seq<char>>>,
    start: int,
) -> bool {
    forall|k: int| 0 <= k < rows.len() ==> T::spec_decodes(rows[k], start)
}

/// The abstract records of a sequence of rows, in row order.
pub open spec fn decoded_rows<T: FromColumnSlice>(rows: Seq<Seq<Seq<char>>>, start: int) -> Seq<
    T::V,
> {
    rows.map_values(|r: Seq<Seq<char>>| T::spec_decoded(r, start))
}

/// Extending the row prefix by one row extends the filtered sequence by
/// that row exactly when the row is kept.
proof fn lemma_kept_rows_take_step(
    rows: Seq<Seq<Seq<char>>>,
    i: int,
    start: int,
    end: int,
    skip: bool,
)
    requires
        0 <= i < rows.len(),
    ensures
        kept_rows(rows.take(i + 1), start, end, skip) == if skip && row_slice_blank(
            rows[i],
            start,
            end,
        ) {
            kept_rows(rows.take(i), start, end, skip)
        } else {
            kept_rows(rows.take(i), start, end, skip).push(rows[i])
        },
{
    let prefix = rows.take(i);
    let single = seq![rows[i]];
    assert(prefix + single =~= rows.take(i + 1));
    lemma_kept_rows_append(prefix, single, start, end, skip);
    let empty_rows = Seq::<Seq<Seq<char>>>::empty();
    assert(kept_rows(empty_rows, start, end, skip) == empty_rows);
    assert(single.skip(1) =~= empty_rows);
    if skip && row_slice_blank(rows[i], start, end) {
        assert(kept_rows(single, start, end, skip) =~= empty_rows);
        assert(kept_rows(prefix, start, end, skip) + kept_rows(single, start, end, skip)
            =~= kept_rows(prefix, start, end, skip));
    } else {
        assert(kept_rows(single, start, end, skip) == seq![single[0]] + kept_rows(
            single.skip(1),
            start,
            end,
            skip,
        ));
        assert(kept_rows(single, start, end, skip) =~= single);
        assert(kept_rows(prefix, start, end, skip) + single =~= kept_rows(
            prefix,
            start,
            end,
            skip,
        ).push(rows[i]));
    }
}

/// The out-of-bounds report a slice operation owes for an invalid index:
/// the requested index, the header length, and (whenever it is
/// representable) the requested column range.
pub open spec fn oob_error_for(e: SliceError, slice_index: int, h: int, w: int) -> bool {
    e matches SliceError::OutOfBounds { slice_index: si, start, end, header_len }
        && si == slice_index && header_len == h && (slice_index * w + w <= usize::MAX ==> start
        == slice_index * w && end == slice_index * w + w)
}

/// For a positive width, a slice index is below the slice count exactly
/// when its column range fits inside the header.
pub proof fn lemma_slice_range(i: int, w: int, h: int)
    requires
        0 <= i,
        1 <= w,
        0 <= h,
    ensures
        i < h / w <==> i * w + w <= h,
{
    if i < h / w {
        lemma_mul_inequality(i + 1, h / w, w);
        lemma_fundamental_div_mod(h, w);
        lemma_mul_is_commutative(h / w, w);
        assert((i + 1) * w == i * w + w) by (nonlinear_arith);
    }
    if i * w + w <= h {
        lemma_div_is_ordered(i * w + w, h, w);
        assert((i + 1) * w == i * w + w) by (nonlinear_arith);
        lemma_div_multiples_vanish_fancy(i + 1, 0, w);
        lemma_mul_is_commutative(i + 1, w);
        assert((i + 1) * w / w == i + 1);
    }
}

/// Law (filtering correctness): with filtering on, no row whose slice
/// cells are all blank or absent survives; with filtering off, every row
/// survives, blank or not, in its original place.
pub proof fn lemma_filtering_correctness(rows: Seq<Seq<Seq<char>>>, start: int, end: int)
    ensures
        forall|j: int|
            0 <= j < kept_rows(rows, start, end, true).len() ==> !row_slice_blank(
                #[trigger] kept_rows(rows, start, end, true)[j],
                start,
                end,
            ),
        kept_rows(rows, start, end, false) == rows,
    decreases rows.len(),
{
    if rows.len() == 0 {
        assert(kept_rows(rows, start, end, false) =~= rows);
    } else {
        lemma_filtering_correctness(rows.skip(1), start, end);
        assert(seq![rows[0]] + rows.skip(1) =~= rows);
        let k = kept_rows(rows, start, end, true);
        let krest = kept_rows(rows.skip(1), start, end, true);
        if !row_slice_blank(rows[0], start, end) {
            assert forall|j: int| 0 <= j < k.len() implies !row_slice_blank(
                k[j],
                start,
                end,
            ) by {
                if j == 0 {
                    assert(k[0] == rows[0]);
                } else {
                    assert(k[j] == krest[j - 1]);
                }
            }
        }
    }
}

/// Law (lazy/eager equivalence): after `j` pulls a lazy pass over a slice
/// has `kept.skip(j)` left, so its next pull decodes `kept.skip(j)[0]`;
/// that row is exactly `kept[j]`, whose decoding is exactly element `j` of
/// the eager result.  A fully consumed lazy pass therefore yields the
/// eager sequence, element for element and in the same order.
pub proof fn lemma_lazy_eager_equivalence<T: FromColumnSlice>(
    rows: Seq<Seq<Seq<char>>>,
    start: int,
    end: int,
    skip: bool,
    j: int,
)
    requires
        0 <= j < kept_rows(rows, start, end, skip).len(),
    ensures
        kept_rows(rows, start, end, skip).skip(j)[0] == kept_rows(rows, start, end, skip)[j],
        decoded_rows::<T>(kept_rows(rows, start, end, skip), start)[j] == T::spec_decoded(
            kept_rows(rows, start, end, skip)[j],
            start,
        ),
{
}

/// What the CSV tokenizer produces from this text: every record's fields,
/// record by record in input order, or nothing when the text cannot be
/// tokenized (malformed quoting, records of unequal length).
pub uninterp spec fn csv_table(text: Seq<char>) -> Option<Seq<Seq<Seq<char>>>>;

/// Relies on `csv::ReaderBuilder` / `csv::Reader` with headers disabled:
/// tokenizing delimited text into records of fields is a function of the
/// text alone, and the reader reports an error exactly on text it cannot
/// tokenize.  The error message is the reader's own and is not specified.
#[verifier::external_body]
fn parse_csv_text(text: &str) -> (r: Result<Vec<Vec<String>>, String>)
    ensures
        r is Ok <==> csv_table(text@) is Some,
        (r matches Ok(t) ==> (csv_table(text@) matches Some(m) && t.deep_view() == m)),
{
    let mut reader = csv::ReaderBuilder::new().has_headers(false).from_reader(text.as_bytes());
    let mut out: Vec<Vec<String>> = Vec::new();
    for record in reader.records() {
        match record {
            Ok(fields) => out.push(fields.iter().map(|f| f.to_string()).collect()),
            Err(e) => {
                return Err(e.to_string());
            },
        }
    }
    Ok(out)
}

/// One row with every cell trimmed.
pub open spec fn trimmed_row(row: Seq<Seq<char>>) -> Seq<Seq<char>> {
    row.map_values(|c: Seq<char>| trim_seq(c))
}

/// A whole table with every cell trimmed.
pub open spec fn trimmed_table(t: Seq<Seq<Seq<char>>>) -> Seq<Seq<Seq<char>>> {
    t.map_values(|r: Seq<Seq<char>>| trimmed_row(r))
}

/// The header a load derives from a tokenized table: its first record,
/// trimmed on request; an empty table gives an empty header.
pub open spec fn loaded_headers(t: Seq<Seq<Seq<char>>>, trim: bool) -> Seq<Seq<char>> {
    if t.len() == 0 {
        Seq::empty()
    } else if trim {
        trimmed_row(t[0])
    } else {
        t[0]
    }
}

/// The data rows a load derives from a tokenized table: everything after
/// the first record, trimmed on request.
pub open spec fn loaded_records(t: Seq<Seq<Seq<char>>>, trim: bool) -> Seq<Seq<Seq<char>>> {
    if t.len() == 0 {
        Seq::empty()
    } else if trim {
        trimmed_table(t.skip(1))
    } else {
        t.skip(1)
    }
}

/// A copy of the row with every cell trimmed.
fn trim_row_cells(row: &Vec<String>) -> (r: Vec<String>)
    ensures
        r.deep_view() == trimmed_row(row.deep_view()),
{
    let mut out: Vec<String> = Vec::with_capacity(row.len());
    let n = row.len();
    let mut i: usize = 0;
    while i < n
        invariant
            i <= n,
            n == row@.len(),
            out@.len() == i,
            forall|k: int| 0 <= k < i ==> #[trigger] out@[k]@ == trim_seq(row.deep_view()[k]),
        decreases n - i,
    {
        out.push(trim_str(row[i].as_str()));
        proof {
            assert(row.deep_view()[i as int] == row@[i as int]@);
        }
        i = i + 1;
    }
    proof {
        assert forall|k: int| 0 <= k < out.deep_view().len() implies out.deep_view()[k]
            == trimmed_row(row.deep_view())[k] by {
            assert(out.deep_view()[k] == out@[k]@);
        }
        assert(out.deep_view() =~= trimmed_row(row.deep_view()));
    }
    out
}

/// A copy of the table with every cell trimmed.
fn trim_table_cells(t: &Vec<Vec<String>>) -> (r: Vec<Vec<String>>)
    ensures
        r.deep_view() == trimmed_table(t.deep_view()),
{
    let mut out: Vec<Vec<String>> = Vec::with_capacity(t.len());
    let n = t.len();
    let mut i: usize = 0;
    while i < n
        invariant
            i <= n,
            n == t@.len(),
            out@.len() == i,
            forall|k: int| 0 <= k < i ==> #[trigger] out@[k].deep_view() == trimmed_row(
                t.deep_view()[k],
            ),
        decreases n - i,
    {
        out.push(trim_row_cells(&t[i]));
        proof {
            assert(t.deep_view()[i as int] == t@[i as int].deep_view());
        }
        i = i + 1;
    }
    proof {
        assert forall|k: int| 0 <= k < out.deep_view().len() implies out.deep_view()[k]
            == trimmed_table(t.deep_view())[k] by {
            assert(out.deep_view()[k] == out@[k].deep_view());
        }
        assert(out.deep_view() =~= trimmed_table(t.deep_view()));
    }
    out
}

/// The record store and partitioner: an immutable header row, an ordered
/// sequence of data rows, and the configuration fixed at load time.  Rows
/// are tolerated at any length; cells past a row's end read as absent.
pub struct CsvSliceParser {
    headers: Vec<String>,
    records: Vec<Vec<String>>,
    config: ParseConfig,
}

impl CsvSliceParser {
    /// The header's column names as character sequences.
    pub closed spec fn spec_headers(&self) -> Seq<Seq<char>> {
        self.headers.deep_view()
    }

    /// The data rows' cells as character sequences.
    pub closed spec fn spec_records(&self) -> Seq<Seq<Seq<char>>> {
        self.records.deep_view()
    }

    /// The configuration the store was built with.
    pub closed spec fn spec_config(&self) -> ParseConfig {
        self.config
    }

    /// Builds a store from in-memory rows; no further validation happens.
    pub fn from_records(
        headers: Vec<String>,
        records: Vec<Vec<String>>,
        config: ParseConfig,
    ) -> (p: Self)
        ensures
            p.spec_headers() == headers.deep_view(),
            p.spec_records() == records.deep_view(),
            p.spec_config() == config,
    {
        CsvSliceParser { headers, records, config }
    }

    /// Loads a store from delimited text with the default configuration:
    /// the first record becomes the header, the rest become rows, every
    /// cell is trimmed.
    pub fn from_csv_text(text: &str) -> (r: Result<Self, FormatError>)
        ensures
            r is Ok <==> csv_table(text@) is Some,
            (r matches Ok(p) ==> (csv_table(text@) matches Some(t) && p.spec_headers()
                == loaded_headers(t, true) && p.spec_records() == loaded_records(t, true)
                && p.spec_config() == (ParseConfig {
                skip_empty_rows: true,
                reserve_capacity: true,
                trim_fields: true,
            }))),
    {
        Self::from_csv_text_with_config(text, ParseConfig::default())
    }

    /// Loads a store from delimited text: the first record becomes the
    /// header, the rest become rows, and cells are trimmed when the
    /// configuration asks for it.  Fails exactly when the text cannot be
    /// tokenized.
    pub fn from_csv_text_with_config(text: &str, config: ParseConfig) -> (r: Result<
        Self,
        FormatError,
    >)
        ensures
            r is Ok <==> csv_table(text@) is Some,
            (r matches Ok(p) ==> (csv_table(text@) matches Some(t) && p.spec_headers()
                == loaded_headers(t, config.trim_fields) && p.spec_records() == loaded_records(
                t,
                config.trim_fields,
            ) && p.spec_config() == config)),
    {
        let mut table = match parse_csv_text(text) {
            Ok(t) => t,
            Err(message) => {
                return Err(FormatError { message });
            },
        };
        let ghost raw = table.deep_view();
        let (headers_raw, records_raw) = if table.len() == 0 {
            (Vec::new(), table)
        } else {
            let first = table.remove(0);
            (first, table)
        };
        proof {
            if raw.len() == 0 {
                assert(headers_raw.deep_view() =~= loaded_headers(raw, false));
                assert(records_raw.deep_view() =~= loaded_records(raw, false));
            } else {
                assert(headers_raw.deep_view() == raw[0]);
                assert(records_raw.deep_view() =~= raw.skip(1));
            }
        }
        if config.trim_fields {
            let headers = trim_row_cells(&headers_raw);
            let records = trim_table_cells(&records_raw);
            proof {
                if raw.len() == 0 {
                    assert(trimmed_row(headers_raw.deep_view()) =~= loaded_headers(raw, true));
                    assert(trimmed_table(records_raw.deep_view()) =~= loaded_records(raw, true));
                }
            }
            Ok(CsvSliceParser { headers, records, config })
        } else {
            Ok(CsvSliceParser { headers: headers_raw, records: records_raw, config })
        }
    }

    /// Read-only access to the header names.
    pub fn headers(&self) -> (r: &Vec<String>)
        ensures
            r.deep_view() == self.spec_headers(),
    {
        &self.headers
    }

    /// Read-only access to the full row collection.
    pub fn records(&self) -> (r: &Vec<Vec<String>>)
        ensures
            r.deep_view() == self.spec_records(),
    {
        &self.records
    }

    /// How many complete slices of `T`'s width fit in the header: the
    /// header length divided by the width, rounded down.
    pub fn slice_count<T: FromColumnSlice>(&self) -> (r: usize)
        ensures
            r == self.spec_headers().len() as int / T::spec_width() as int,
    {
        let w = T::column_count();
        self.headers.len() / w
    }

    /// The number of data rows in the store.
    pub fn record_count(&self) -> (r: usize)
        ensures
            r == self.spec_records().len(),
    {
        self.records.len()
    }

    /// Maps a slice index to its column range `[i*W, i*W + W)`, or reports
    /// exactly how the range exceeds the header.
    pub fn validate_slice_index<T: FromColumnSlice>(&self, slice_index: usize) -> (r: Result<
        (usize, usize),
        SliceError,
    >)
        ensures
            ({
                let h = self.spec_headers().len() as int;
                let w = T::spec_width() as int;
                &&& (r is Ok <==> slice_index < h / w)
                &&& (r matches Ok(p) ==> p.0 == slice_index * w && p.1 == slice_index * w + w
                    && p.1 <= h)
                &&& (r matches Err(e) ==> oob_error_for(e, slice_index as int, h, w))
            }),
    {
        let w = T::column_count();
        let h = self.headers.len();
        proof {
            lemma_slice_range(slice_index as int, w as int, h as int);
        }
        if slice_index < h / w {
            let start = slice_index * w;
            let end = start + w;
            Ok((start, end))
        } else {
            let start = match slice_index.checked_mul(w) {
                Some(s) => s,
                None => usize::MAX,
            };
            let end = start.saturating_add(w);
            Err(SliceError::OutOfBounds { slice_index, start, end, header_len: h })
        }
    }

    /// True iff every cell of the record inside `[start_col, end_col)` is
    /// absent or blank; the row filter's test.
    pub fn has_empty_fields(&self, start_col: usize, end_col: usize, record: &Vec<String>) -> (b:
        bool)
        ensures
            b == row_slice_blank(record.deep_view(), start_col as int, end_col as int),
    {
        row_blank_in_range(start_col, end_col, record)
    }

    /// Decodes every surviving row of one slice, in row order, stopping at
    /// the first row the decoder rejects.
    /// Everything the eager parse promises about its result; also the
    /// ground for the idempotence law below.
    pub open spec fn parse_slice_post<T: FromColumnSlice>(
        &self,
        slice_index: usize,
        r: Result<Vec<T>, SliceError>,
    ) -> bool {
        let h = self.spec_headers().len() as int;
        let w = T::spec_width() as int;
        let start = slice_index * w;
        let kept = kept_rows(
            self.spec_records(),
            start,
            start + w,
            self.spec_config().skip_empty_rows,
        );
        &&& (slice_index < h / w ==> (r is Ok <==> all_rows_decode::<T>(kept, start)))
        &&& (r matches Ok(v) ==> slice_index < h / w && v.deep_view() == decoded_rows::<T>(
            kept,
            start,
        ))
        &&& (slice_index >= h / w ==> (r matches Err(e) && oob_error_for(
            e,
            slice_index as int,
            h,
            w,
        )))
        &&& (slice_index < h / w ==> (r matches Err(e) ==> e matches SliceError::Decode(_)))
    }

    pub fn parse_slice<T: FromColumnSlice>(&self, slice_index: usize) -> (r: Result<
        Vec<T>,
        SliceError,
    >)
        ensures
            self.parse_slice_post::<T>(slice_index, r),
    {
        let (start, end) = match self.validate_slice_index::<T>(slice_index) {
            Ok(p) => p,
            Err(e) => {
                return Err(e);
            },
        };
        let mut results: Vec<T> = if self.config.reserve_capacity {
            Vec::with_capacity(self.records.len())
        } else {
            Vec::new()
        };
        let n = self.records.len();
        let skip = self.config.skip_empty_rows;
        let mut idx: usize = 0;
        while idx < n
            invariant
                idx <= n,
                n == self.spec_records().len(),
                start as int == slice_index as int * T::spec_width() as int,
                end as int == start as int + T::spec_width() as int,
                end <= self.spec_headers().len(),
                slice_index < self.spec_headers().len() as int / T::spec_width() as int,
                skip == self.spec_config().skip_empty_rows,
                all_rows_decode::<T>(
                    kept_rows(
                        self.spec_records().take(idx as int),
                        start as int,
                        end as int,
                        skip,
                    ),
                    start as int,
                ),
                results.deep_view() == decoded_rows::<T>(
                    kept_rows(
                        self.spec_records().take(idx as int),
                        start as int,
                        end as int,
                        skip,
                    ),
                    start as int,
                ),
            decreases n - idx,
        {
            let record = &self.records[idx];
            proof {
                assert(record.deep_view() == self.spec_records()[idx as int]);
            }
            let blank = self.has_empty_fields(start, end, record);
            let ghost rows = self.spec_records();
            let ghost kept_before = kept_rows(rows.take(idx as int), start as int, end as int, skip);
            if skip && blank {
                proof {
                    lemma_kept_rows_take_step(rows, idx as int, start as int, end as int, skip);
                }
            } else {
                let ghost pre_dv = results.deep_view();
                match T::from_record(record, start) {
                    Ok(v) => {
                        let ghost vv = v.deep_view();
                        results.push(v);
                        proof {
                            lemma_kept_rows_take_step(
                                rows,
                                idx as int,
                                start as int,
                                end as int,
                                skip,
                            );
                            let kept_after = kept_before.push(rows[idx as int]);
                            assert(results.deep_view() =~= pre_dv.push(vv));
                            assert(vv == T::spec_decoded(rows[idx as int], start as int));
                            assert(decoded_rows::<T>(kept_after, start as int) =~= decoded_rows::<
                                T,
                            >(kept_before, start as int).push(
                                T::spec_decoded(rows[idx as int], start as int),
                            ));
                            assert forall|k: int|
                                0 <= k < kept_after.len() implies T::spec_decodes(
                                #[trigger] kept_after[k],
                                start as int,
                            ) by {
                                if k < kept_before.len() {
                                    assert(kept_after[k] == kept_before[k]);
                                }
                            }
                        }
                    },
                    Err(e) => {
                        proof {
                            let rest = rows.skip(idx as int);
                            assert(rows.take(idx as int) + rest =~= rows);
                            lemma_kept_rows_append(
                                rows.take(idx as int),
                                rest,
                                start as int,
                                end as int,
                                skip,
                            );
                            assert(rest[0] == rows[idx as int]);
                            assert(rest.len() > 0);
                            assert(!(skip && row_slice_blank(rest[0], start as int, end as int)));
                            assert(kept_rows(rest, start as int, end as int, skip) == seq![
                                rest[0],
                            ] + kept_rows(rest.skip(1), start as int, end as int, skip));
                            let kfull = kept_rows(rows, start as int, end as int, skip);
                            assert(kfull == kept_before + kept_rows(
                                rest,
                                start as int,
                                end as int,
                                skip,
                            ));
                            assert(kfull[kept_before.len() as int] == rows[idx as int]);
                            assert(!T::spec_decodes(rows[idx as int], start as int));
                            assert(!all_rows_decode::<T>(kfull, start as int));
                        }
                        return Err(SliceError::Decode(e));
                    },
                }
            }
            idx = idx + 1;
        }
        proof {
            assert(self.spec_records().take(n as int) =~= self.spec_records());
        }
        Ok(results)
    }

    /// Starts a lazy pass over one slice: bounds are validated up front,
    /// rows are filtered and decoded only as the iterator is pulled.
    pub fn parse_slice_iter<'a, T: FromColumnSlice>(&'a self, slice_index: usize) -> (r: Result<
        SliceIter<'a, T>,
        SliceError,
    >)
        ensures
            ({
                let h = self.spec_headers().len() as int;
                let w = T::spec_width() as int;
                let start = slice_index * w;
                &&& (r is Ok <==> slice_index < h / w)
                &&& (r matches Ok(it) ==> it.wf() && it.spec_start() == start && it.spec_skip()
                    == self.spec_config().skip_empty_rows && it.remaining() == kept_rows(
                    self.spec_records(),
                    start,
                    start + w,
                    self.spec_config().skip_empty_rows,
                ))
                &&& (r matches Err(e) ==> oob_error_for(e, slice_index as int, h, w))
            }),
    {
        match self.validate_slice_index::<T>(slice_index) {
            Err(e) => Err(e),
            Ok((start, end)) => {
                let it = SliceIter {
                    records: &self.records,
                    pos: 0,
                    start_col: start,
                    end_col: end,
                    skip_empty: self.config.skip_empty_rows,
                    decoder: core::marker::PhantomData,
                };
                proof {
                    assert(self.records.deep_view().skip(0) =~= self.spec_records());
                }
                Ok(it)
            },
        }
    }

    /// Eagerly parses every valid slice, in increasing slice order,
    /// stopping at the first slice whose parse fails.
    pub fn parse_all_slices<T: FromColumnSlice>(&self) -> (r: Result<Vec<Vec<T>>, SliceError>)
        ensures
            ({
                let h = self.spec_headers().len() as int;
                let w = T::spec_width() as int;
                let count = h / w;
                let skip = self.spec_config().skip_empty_rows;
                &&& (r is Ok <==> forall|i: int|
                    0 <= i < count ==> all_rows_decode::<T>(
                        #[trigger] kept_rows(self.spec_records(), i * w, i * w + w, skip),
                        i * w,
                    ))
                &&& (r matches Ok(vss) ==> vss.deep_view().len() == count && forall|i: int|
                    0 <= i < count ==> #[trigger] vss.deep_view()[i] == decoded_rows::<T>(
                        kept_rows(self.spec_records(), i * w, i * w + w, skip),
                        i * w,
                    ))
                &&& (r matches Err(e) ==> e matches SliceError::Decode(_))
                &&& (r is Err ==> exists|i: int|
                    0 <= i < count && !all_rows_decode::<T>(
                        #[trigger] kept_rows(self.spec_records(), i * w, i * w + w, skip),
                        i * w,
                    ) && forall|k: int|
                        0 <= k < i ==> all_rows_decode::<T>(
                            #[trigger] kept_rows(self.spec_records(), k * w, k * w + w, skip),
                            k * w,
                        ))
            }),
    {
        let count = self.slice_count::<T>();
        let ghost w = T::spec_width() as int;
        let ghost skip = self.spec_config().skip_empty_rows;
        let mut all_slices: Vec<Vec<T>> = Vec::with_capacity(count);
        let mut i: usize = 0;
        while i < count
            invariant
                i <= count,
                count == self.spec_headers().len() as int / w,
                w == T::spec_width() as int,
                skip == self.spec_config().skip_empty_rows,
                all_slices.deep_view().len() == i,
                forall|k: int|
                    0 <= k < i ==> #[trigger] all_slices.deep_view()[k] == decoded_rows::<T>(
                        kept_rows(self.spec_records(), k * w, k * w + w, skip),
                        k * w,
                    ),
                forall|k: int|
                    0 <= k < i ==> all_rows_decode::<T>(
                        #[trigger] kept_rows(self.spec_records(), k * w, k * w + w, skip),
                        k * w,
                    ),
            decreases count - i,
        {
            let ghost pre_dv = all_slices.deep_view();
            match self.parse_slice::<T>(i) {
                Ok(v) => {
                    let ghost vv = v.deep_view();
                    all_slices.push(v);
                    proof {
                        assert(all_slices.deep_view() =~= pre_dv.push(vv));
                    }
                },
                Err(e) => {
                    return Err(e);
                },
            }
            i = i + 1;
        }
        Ok(all_slices)
    }

    /// The header names of slice `i`, or `None` when the slice is out of
    /// bounds: the non-failing probe beside `validate_slice_index`.
    pub fn slice_headers<T: FromColumnSlice>(&self, slice_index: usize) -> (r: Option<Vec<String>>)
        ensures
            ({
                let h = self.spec_headers().len() as int;
                let w = T::spec_width() as int;
                &&& (r is Some <==> slice_index < h / w)
                &&& (r matches Some(v) ==> v.deep_view() == self.spec_headers().subrange(
                    slice_index * w,
                    slice_index * w + w,
                ))
            }),
    {
        match self.validate_slice_index::<T>(slice_index) {
            Err(_) => None,
            Ok((start, end)) => {
                let mut names: Vec<String> = Vec::new();
                let mut col = start;
                while col < end
                    invariant
                        start <= col <= end,
                        end <= self.spec_headers().len(),
                        self.spec_headers().len() == self.headers@.len(),
                        names@.len() == col - start,
                        forall|k: int| 0 <= k < names@.len() ==> #[trigger] names@[k]@
                            == self.spec_headers()[start + k],
                    decreases end - col,
                {
                    names.push(self.headers[col].clone());
                    proof {
                        assert(self.spec_headers()[col as int] == self.headers@[col as int]@);
                    }
                    col = col + 1;
                }
                proof {
                    assert forall|k: int| 0 <= k < names.deep_view().len() implies names.deep_view()[k]
                        == self.spec_headers().subrange(start as int, end as int)[k] by {
                        assert(names.deep_view()[k] == names@[k]@);
                    }
                    assert(names.deep_view() =~= self.spec_headers().subrange(
                        start as int,
                        end as int,
                    ));
                }
                Some(names)
            },
        }
    }
}

/// Law (idempotence): the eager parse is determined by the store and the
/// slice index alone: any two outcomes its contract admits for the same
/// unmodified store agree on success, and two successful results hold the
/// same records.  Parsing the same slice twice thus yields equal results.
pub proof fn lemma_parse_slice_idempotent<T: FromColumnSlice>(
    p: &CsvSliceParser,
    slice_index: usize,
    r1: Result<Vec<T>, SliceError>,
    r2: Result<Vec<T>, SliceError>,
)
    requires
        p.parse_slice_post::<T>(slice_index, r1),
        p.parse_slice_post::<T>(slice_index, r2),
    ensures
        r1 is Ok <==> r2 is Ok,
        (r1 matches Ok(v1) ==> (r2 matches Ok(v2) && v1.deep_view() == v2.deep_view())),
{
}

/// The lazy counterpart of `parse_slice`: rows are filtered and decoded
/// one pull at a time, so consuming the sequence partially never decodes
/// the rows left unconsumed.  Fully consumed, it yields the same ordered
/// results as the eager mode.
pub struct SliceIter<'a, T: FromColumnSlice> {
    records: &'a Vec<Vec<String>>,
    pos: usize,
    start_col: usize,
    end_col: usize,
    skip_empty: bool,
    decoder: core::marker::PhantomData<T>,
}

impl<'a, T: FromColumnSlice> SliceIter<'a, T> {
    /// The iterator's position and column range are coherent.
    pub closed spec fn wf(&self) -> bool {
        &&& self.pos <= self.records.deep_view().len()
        &&& self.end_col == self.start_col + T::spec_width()
    }

    /// The starting column of the slice being decoded.
    pub closed spec fn spec_start(&self) -> int {
        self.start_col as int
    }

    /// Whether blank rows are being skipped.
    pub closed spec fn spec_skip(&self) -> bool {
        self.skip_empty
    }

    /// The rows not yet consumed that the filter keeps: the rows this
    /// iterator will still decode, in order.
    pub closed spec fn remaining(&self) -> Seq<Seq<Seq<char>>> {
        kept_rows(
            self.records.deep_view().skip(self.pos as int),
            self.start_col as int,
            self.end_col as int,
            self.skip_empty,
        )
    }

    /// Produces the next surviving row's decode outcome, or `None` once no
    /// surviving row is left.  Rows after the one returned stay untouched.
    pub fn next(&mut self) -> (r: Option<Result<T, DecodeError>>)
        requires
            old(self).wf(),
        ensures
            final(self).wf(),
            final(self).spec_start() == old(self).spec_start(),
            final(self).spec_skip() == old(self).spec_skip(),
            old(self).remaining().len() == 0 ==> r is None && final(self).remaining()
                == old(self).remaining(),
            old(self).remaining().len() > 0 ==> {
                &&& final(self).remaining() == old(self).remaining().skip(1)
                &&& r is Some
                &&& (r matches Some(inner) ==> (inner is Ok <==> T::spec_decodes(
                    old(self).remaining()[0],
                    old(self).spec_start(),
                )))
                &&& (r matches Some(inner) ==> (inner matches Ok(v) ==> v.deep_view()
                    == T::spec_decoded(old(self).remaining()[0], old(self).spec_start())))
            },
    {
        let n = self.records.len();
        while self.pos < n
            invariant
                self.wf(),
                n == self.records.deep_view().len(),
                self.records == old(self).records,
                self.start_col == old(self).start_col,
                self.end_col == old(self).end_col,
                self.skip_empty == old(self).skip_empty,
                self.remaining() == old(self).remaining(),
            decreases n - self.pos,
        {
            let record = &self.records[self.pos];
            proof {
                assert(record.deep_view() == self.records.deep_view()[self.pos as int]);
            }
            let blank = if self.skip_empty {
                row_blank_in_range(self.start_col, self.end_col, record)
            } else {
                false
            };
            let ghost suffix = self.records.deep_view().skip(self.pos as int);
            proof {
                assert(suffix.len() > 0);
                assert(suffix[0] == self.records.deep_view()[self.pos as int]);
                assert(suffix.skip(1) =~= self.records.deep_view().skip(self.pos + 1));
            }
            if blank {
                self.pos = self.pos + 1;
            } else {
                let result = T::from_record(record, self.start_col);
                self.pos = self.pos + 1;
                proof {
                    assert(old(self).remaining() == seq![suffix[0]] + self.remaining());
                    assert(old(self).remaining()[0] == suffix[0]);
                    assert((seq![suffix[0]] + self.remaining()).skip(1) =~= self.remaining());
                }
                return Some(result);
            }
        }
        proof {
            assert(self.records.deep_view().skip(self.pos as int) =~= Seq::<
                Seq<Seq<char>>,
            >::empty());
        }
        None
    }
}

/// Every cell of the record inside `[start_col, end_col)` is absent or
/// blank; the row filter's test as a free function.
fn row_blank_in_range(start_col: usize, end_col: usize, record: &Vec<String>) -> (b: bool)
    ensures
        b == row_slice_blank(record.deep_view(), start_col as int, end_col as int),
{
    let mut j = start_col;
    while j < end_col
        invariant
            start_col <= j,
            forall|k: int| start_col <= k < j ==> (k >= record.deep_view().len() || blank_seq(
                #[trigger] record.deep_view()[k],
            )),
        decreases end_col - j,
    {
        if j < record.len() {
            if !is_blank(record[j].as_str()) {
                proof {
                    assert(record.deep_view()[j as int] == record@[j as int].deep_view());
                    assert(!row_slice_blank(record.deep_view(), start_col as int, end_col as int));
                }
                return false;
            }
        }
        j = j + 1;
    }
    true
}

} // verus!
