//! The tabular text format: one `label,value` row per line.
//!
//! A document is a sequence of rows.  On reading, lines that are blank
//! after trimming are skipped and the first offending row aborts the whole
//! decode; on writing, every row is terminated by a line break.  The format
//! has no escaping for a comma inside a label: that is a known limitation
//! of the format, not repaired here.

use vstd::prelude::*;

use crate::amount::{
    amount_value, render_cents, Amount, MAX_CENTS, is_digit, lemma_plain_char,
    lemma_render_chars, lemma_render_parse,
};
use crate::text::{
    find_char, is_space, lemma_find, lemma_find_is, lemma_trim_clean, lemma_trim_is_clean,
    spec_find, spec_trim, trim_str,
};

verus! {

/// Why a row failed to parse.
#[derive(Clone, Copy, Debug, PartialEq, Eq, Structural)]
pub enum ParseError {
    /// No number value was given.
    MissingValue,
    /// Value given is not a valid decimal number.
    ValueNotNumber,
    /// Too many cells in the row.
    TooManyCells,
}

/// The message shown for each parse error.
pub open spec fn spec_parse_error_message(e: ParseError) -> Seq<char> {
    match e {
        ParseError::MissingValue => "Missing value"@,
        ParseError::ValueNotNumber => "Value is not a number"@,
        ParseError::TooManyCells => "Too many cells in row"@,
    }
}

impl ParseError {
    /// A human-readable description of the error.
    pub fn message(&self) -> (r: &'static str)
        ensures
            r@ == spec_parse_error_message(*self),
    {
        match self {
            ParseError::MissingValue => "Missing value",
            ParseError::ValueNotNumber => "Value is not a number",
            ParseError::TooManyCells => "Too many cells in row",
        }
    }
}

/// The mathematical model of one row: its label text and its value in
/// hundredths.
pub ghost struct RowModel {
    pub label: Seq<char>,
    pub cents: int,
}

/// One row of the document: a descriptive label and a decimal value.
#[derive(Clone, Debug, PartialEq)]
pub struct CsvRow {
    /// Descriptive label of the entry.
    pub label: String,
    /// Number value of the entry.
    pub value: Amount,
}

impl View for CsvRow {
    type V = RowModel;

    open spec fn view(&self) -> RowModel {
        RowModel { label: self.label@, cents: self.value.spec_cents() }
    }
}

impl Default for CsvRow {
    /// An empty label with a zero value.
    fn default() -> (r: Self)
        ensures
            r@.label == Seq::<char>::empty(),
            r@.cents == 0,
    {
        CsvRow { label: String::new(), value: Amount::zero() }
    }
}

/// What decoding one non-blank line yields: the trimmed first cell as the
/// label; an error when the value cell is absent or blank (missing), is no
/// numeral, or is followed by a third cell.
pub open spec fn spec_decode_row(line: Seq<char>) -> Result<RowModel, ParseError> {
    let i = spec_find(line, ',');
    if i == -1 {
        Err(ParseError::MissingValue)
    } else {
        let label = spec_trim(line.take(i));
        let rest = line.skip(i + 1);
        let j = spec_find(rest, ',');
        let vtext = spec_trim(
            if j == -1 {
                rest
            } else {
                rest.take(j)
            },
        );
        if vtext.len() == 0 {
            Err(ParseError::MissingValue)
        } else {
            match amount_value(vtext) {
                None => Err(ParseError::ValueNotNumber),
                Some(v) => if j != -1 {
                    Err(ParseError::TooManyCells)
                } else {
                    Ok(RowModel { label, cents: v })
                },
            }
        }
    }
}

/// How one row serializes: label, separator, rendered value.
pub open spec fn spec_encode_row(r: RowModel) -> Seq<char> {
    r.label + seq![','] + render_cents(r.cents)
}

/// What decoding a whole document yields: every line that is non-blank
/// after trimming becomes a row, in order; the first bad line aborts the
/// decode with its error.
pub open spec fn spec_decode_doc(text: Seq<char>) -> Result<Seq<RowModel>, ParseError>
    decreases text.len(),
{
    let i = spec_find(text, '\n');
    if 0 <= i < text.len() {
        let line = text.take(i);
        let rest = text.skip(i + 1);
        if spec_trim(line).len() == 0 {
            spec_decode_doc(rest)
        } else {
            match spec_decode_row(line) {
                Err(e) => Err(e),
                Ok(r) => match spec_decode_doc(rest) {
                    Err(e) => Err(e),
                    Ok(rs) => Ok(seq![r] + rs),
                },
            }
        }
    } else {
        if spec_trim(text).len() == 0 {
            Ok(Seq::empty())
        } else {
            match spec_decode_row(text) {
                Err(e) => Err(e),
                Ok(r) => Ok(seq![r]),
            }
        }
    }
}

/// How a document serializes: each row on its own line, in order, every
/// line terminated.
pub open spec fn spec_encode_doc(rows: Seq<RowModel>) -> Seq<char>
    decreases rows.len(),
{
    if rows.len() == 0 {
        Seq::empty()
    } else {
        spec_encode_row(rows[0]) + seq!['\n'] + spec_encode_doc(rows.drop_first())
    }
}

/// The sum of all row values, in hundredths.
pub open spec fn spec_sum(rows: Seq<RowModel>) -> int
    decreases rows.len(),
{
    if rows.len() == 0 {
        0
    } else {
        spec_sum(rows.drop_last()) + rows.last().cents
    }
}

impl CsvRow {
    /// Serializes this row; exact per [`spec_encode_row`].
    pub fn encode(&self) -> (r: String)
        ensures
            r@ == spec_encode_row(self@),
    {
        let mut out = self.label.clone();
        crate::text::push_char(&mut out, ',');
        let v = self.value.to_text();
        out.append(v.as_str());
        proof {
            assert(out@ =~= spec_encode_row(self@));
        }
        out
    }

    /// Parses one non-blank line; exact per [`spec_decode_row`].
    pub fn decode(line: &str) -> (r: Result<CsvRow, ParseError>)
        ensures
            match r {
                Ok(row) => spec_decode_row(line@) == Ok::<RowModel, ParseError>(row@),
                Err(e) => spec_decode_row(line@) == Err::<RowModel, ParseError>(e),
            },
    {
        let n = line.unicode_len();
        let i = match find_char(line, ',') {
            None => {
                return Err(ParseError::MissingValue);
            },
            Some(i) => i,
        };
        proof {
            lemma_find(line@, ',');
        }
        let label_cell = line.substring_char(0, i);
        let label = trim_str(label_cell).to_owned();
        proof {
            assert(label_cell@ =~= line@.take(i as int));
        }
        let rest = line.substring_char(i + 1, n);
        proof {
            assert(rest@ =~= line@.skip(i + 1));
        }
        let (vcell, extra) = match find_char(rest, ',') {
            None => (rest, false),
            Some(j) => {
                proof {
                    lemma_find(rest@, ',');
                }
                (rest.substring_char(0, j), true)
            },
        };
        proof {
            if spec_find(rest@, ',') != -1 {
                assert(vcell@ =~= rest@.take(spec_find(rest@, ',')));
            }
        }
        let vtext = trim_str(vcell);
        if vtext.unicode_len() == 0 {
            return Err(ParseError::MissingValue);
        }
        match Amount::parse_text(vtext) {
            None => Err(ParseError::ValueNotNumber),
            Some(a) => {
                if extra {
                    Err(ParseError::TooManyCells)
                } else {
                    Ok(CsvRow { label, value: a })
                }
            },
        }
    }
}

/// The whole document: its rows, in display and storage order.
#[derive(Clone, Debug, PartialEq)]
pub struct Csv {
    pub rows: Vec<CsvRow>,
}

/// The models of a sequence of rows, in order.
pub open spec fn rows_view(rows: Seq<CsvRow>) -> Seq<RowModel> {
    Seq::new(rows.len(), |i: int| rows[i]@)
}

impl View for Csv {
    type V = Seq<RowModel>;

    open spec fn view(&self) -> Seq<RowModel> {
        rows_view(self.rows@)
    }
}

impl Default for Csv {
    /// A document with no rows.
    fn default() -> (r: Self)
        ensures
            r@ == Seq::<RowModel>::empty(),
    {
        let c = Csv { rows: Vec::new() };
        proof {
            assert(c@ =~= Seq::<RowModel>::empty());
        }
        c
    }
}

/// Serializes the rows from index `i` on.
fn encode_rows_from(rows: &Vec<CsvRow>, i: usize) -> (r: String)
    requires
        i <= rows@.len(),
    ensures
        r@ == spec_encode_doc(rows_view(rows@).skip(i as int)),
    decreases rows@.len() - i,
{
    let ghost tail = rows_view(rows@).skip(i as int);
    if i == rows.len() {
        proof {
            assert(tail =~= Seq::<RowModel>::empty());
        }
        String::new()
    } else {
        let mut out = rows[i].encode();
        crate::text::push_char(&mut out, '\n');
        let rest = encode_rows_from(rows, i + 1);
        out.append(rest.as_str());
        proof {
            assert(tail.drop_first() =~= rows_view(rows@).skip(i + 1));
            assert(tail[0] == rows@[i as int]@);
            assert(out@ =~= spec_encode_doc(tail));
        }
        out
    }
}

/// Parses the document text; exact per [`spec_decode_doc`].
fn decode_rows(text: &str) -> (r: Result<Vec<CsvRow>, ParseError>)
    ensures
        match r {
            Ok(rows) => spec_decode_doc(text@) == Ok::<_, ParseError>(rows_view(rows@)),
            Err(e) => spec_decode_doc(text@) == Err::<Seq<RowModel>, _>(e),
        },
    decreases text@.len(),
{
    let n = text.unicode_len();
    match find_char(text, '\n') {
        Some(i) => {
            proof {
                lemma_find(text@, '\n');
            }
            let line = text.substring_char(0, i);
            let rest = text.substring_char(i + 1, n);
            proof {
                assert(line@ =~= text@.take(i as int));
                assert(rest@ =~= text@.skip(i + 1));
            }
            let head = if trim_str(line).unicode_len() == 0 {
                None
            } else {
                match CsvRow::decode(line) {
                    Err(e) => {
                        return Err(e);
                    },
                    Ok(row) => Some(row),
                }
            };
            let mut tail = match decode_rows(rest) {
                Err(e) => {
                    return Err(e);
                },
                Ok(rows) => rows,
            };
            match head {
                None => Ok(tail),
                Some(row) => {
                    let ghost tail_view = rows_view(tail@);
                    let mut out: Vec<CsvRow> = Vec::new();
                    out.push(row);
                    out.append(&mut tail);
                    proof {
                        assert(rows_view(out@) =~= seq![row@] + tail_view);
                    }
                    Ok(out)
                },
            }
        },
        None => {
            proof {
                lemma_find(text@, '\n');
            }
            if trim_str(text).unicode_len() == 0 {
                let empty: Vec<CsvRow> = Vec::new();
                proof {
                    assert(rows_view(empty@) =~= Seq::<RowModel>::empty());
                }
                Ok(empty)
            } else {
                match CsvRow::decode(text) {
                    Err(e) => Err(e),
                    Ok(row) => {
                        let mut out: Vec<CsvRow> = Vec::new();
                        out.push(row);
                        proof {
                            assert(rows_view(out@) =~= seq![row@]);
                        }
                        Ok(out)
                    },
                }
            }
        },
    }
}

impl Csv {
    /// Serializes the whole document; exact per [`spec_encode_doc`].
    pub fn encode(&self) -> (r: String)
        ensures
            r@ == spec_encode_doc(self@),
    {
        let r = encode_rows_from(&self.rows, 0);
        proof {
            assert(rows_view(self.rows@).skip(0) =~= self@);
        }
        r
    }

    /// Parses a whole document; exact per [`spec_decode_doc`].
    pub fn decode(file: &str) -> (r: Result<Self, ParseError>)
        ensures
            match r {
                Ok(csv) => spec_decode_doc(file@) == Ok::<_, ParseError>(csv@),
                Err(e) => spec_decode_doc(file@) == Err::<Seq<RowModel>, _>(e),
            },
    {
        match decode_rows(file) {
            Err(e) => Err(e),
            Ok(rows) => {
                let csv = Csv { rows };
                Ok(csv)
            },
        }
    }

    /// The exact total of all values, in hundredths.
    pub fn sum(&self) -> (r: i128)
        ensures
            r == spec_sum(self@),
    {
        let mut total: i128 = 0;
        let mut i: usize = 0;
        let n = self.rows.len();
        while i < n
            invariant
                0 <= i <= n == self.rows@.len(),
                total == spec_sum(self@.take(i as int)),
                -(i as int) * (MAX_CENTS as int) <= total <= (i as int) * (MAX_CENTS as int),
            decreases n - i,
        {
            let c = self.rows[i].value.cents();
            proof {
                assert(self@.take(i + 1).drop_last() =~= self@.take(i as int));
                assert(self@.take(i + 1).last() == self@[i as int]);
            }
            total = total + (c as i128);
            i += 1;
        }
        proof {
            assert(self@.take(n as int) =~= self@);
        }
        total
    }

    /// The number of rows.
    pub fn count(&self) -> (r: usize)
        ensures
            r == self@.len(),
    {
        self.rows.len()
    }
}

/// A row survives the trip through the text format unchanged when its label
/// holds no cell separator and no line break, carries no surrounding
/// whitespace, and its value is in range.  (A label with a comma is split;
/// surrounding whitespace is trimmed away on reading: such rows are the
/// known lossy cases of the format.)
pub open spec fn row_clean(r: RowModel) -> bool {
    &&& spec_find(r.label, ',') == -1
    &&& spec_find(r.label, '\n') == -1
    &&& spec_trim(r.label) == r.label
    &&& -MAX_CENTS <= r.cents <= MAX_CENTS
}

/// The encoded line of a clean row: every character before the separator is
/// the label, no character is a line break, and the line is its own trim.
proof fn lemma_encode_row_line(r: RowModel)
    requires
        row_clean(r),
    ensures
        ({
            let line = spec_encode_row(r);
            &&& line.len() > 0
            &&& forall|k: int| 0 <= k < line.len() ==> line[k] != '\n'
            &&& spec_trim(line) == line
        }),
{
    let line = spec_encode_row(r);
    let v = render_cents(r.cents);
    lemma_render_chars(r.cents);
    lemma_find(r.label, ',');
    lemma_find(r.label, '\n');
    assert(forall|k: int|
        0 <= k < line.len() ==> line[k] == (if k < r.label.len() {
            r.label[k]
        } else if k == r.label.len() {
            ','
        } else {
            v[k - r.label.len() - 1]
        }));
    assert forall|k: int| 0 <= k < line.len() implies line[k] != '\n' by {
        if k > r.label.len() {
            lemma_plain_char(v[k - r.label.len() - 1]);
        }
    }
    if r.label.len() > 0 {
        lemma_trim_is_clean(r.label);
        assert(!is_space(line[0]));
    } else {
        assert(line[0] == ',');
    }
    assert(line.last() == v.last());
    lemma_plain_char(v.last());
    lemma_trim_clean(line);
}

/// Decoding the encoding of one clean row gives the row back.
pub proof fn lemma_row_round_trip(r: RowModel)
    requires
        row_clean(r),
    ensures
        spec_decode_row(spec_encode_row(r)) == Ok::<RowModel, ParseError>(r),
{
    let line = spec_encode_row(r);
    let v = render_cents(r.cents);
    lemma_render_chars(r.cents);
    lemma_find(r.label, ',');
    assert(forall|k: int|
        0 <= k < line.len() ==> line[k] == (if k < r.label.len() {
            r.label[k]
        } else if k == r.label.len() {
            ','
        } else {
            v[k - r.label.len() - 1]
        }));
    // The first separator sits right after the label.
    assert(line[r.label.len() as int] == ',');
    lemma_find_is(line, ',', r.label.len() as int);
    let i = r.label.len() as int;
    assert(line.take(i) =~= r.label);
    let rest = line.skip(i + 1);
    assert(rest =~= v);
    // The rendered value holds no second separator.
    assert(spec_find(rest, ',') == -1) by {
        lemma_find(rest, ',');
        if spec_find(rest, ',') != -1 {
            lemma_plain_char(v[spec_find(rest, ',')]);
        }
    }
    // The rendered value carries no whitespace to trim.
    assert(spec_trim(v) == v) by {
        lemma_plain_char(v[0]);
        lemma_plain_char(v.last());
        lemma_trim_clean(v);
    }
    lemma_render_parse(r.cents);
}

/// Decoding the encoding of a document of clean rows gives the rows back:
/// the codec loses nothing on that domain.
pub proof fn lemma_doc_round_trip(rows: Seq<RowModel>)
    requires
        forall|k: int| 0 <= k < rows.len() ==> row_clean(#[trigger] rows[k]),
    ensures
        spec_decode_doc(spec_encode_doc(rows)) == Ok::<Seq<RowModel>, ParseError>(rows),
    decreases rows.len(),
{
    if rows.len() == 0 {
        let text = spec_encode_doc(rows);
        assert(text.len() == 0);
        assert(spec_find(text, '\n') == -1);
        assert(spec_trim(text).len() == 0);
        assert(rows =~= Seq::<RowModel>::empty());
    } else {
        let r0 = rows[0];
        let line = spec_encode_row(r0);
        let tail = spec_encode_doc(rows.drop_first());
        let text = spec_encode_doc(rows);
        assert(text == line + seq!['\n'] + tail);
        lemma_encode_row_line(r0);
        assert(forall|k: int|
            0 <= k < text.len() ==> text[k] == (if k < line.len() {
                line[k]
            } else if k == line.len() {
                '\n'
            } else {
                tail[k - line.len() - 1]
            }));
        // The first line break sits right after the first encoded row.
        assert(text[line.len() as int] == '\n');
        lemma_find_is(text, '\n', line.len() as int);
        let i = line.len() as int;
        assert(text.take(i) =~= line);
        assert(text.skip(i + 1) =~= tail);
        // The first line is not blank and decodes to the first row.
        assert(spec_trim(line).len() != 0);
        lemma_row_round_trip(r0);
        // The remaining lines decode to the remaining rows.
        lemma_doc_round_trip(rows.drop_first());
        assert(seq![r0] + rows.drop_first() =~= rows);
    }
}

} // verus!
