use vstd::prelude::*;

use crate::number::{is_float_literal, is_float_token};
use crate::text::{chars_of, split_on, split_prefix, strings_of};

verus! {

/// A line without its trailing carriage return, if it has one.
pub open spec fn strip_cr(line: Seq<char>) -> Seq<char> {
    if line.len() > 0 && line.last() == '\r' {
        line.drop_last()
    } else {
        line
    }
}

/// The rows that these lines give: each non-blank line, split at commas.
pub open spec fn rows_of_lines(lines: Seq<Seq<char>>) -> Seq<Seq<Seq<char>>>
    decreases lines.len(),
{
    if lines.len() == 0 {
        Seq::empty()
    } else {
        let prev = rows_of_lines(lines.drop_last());
        let line = strip_cr(lines.last());
        if line.len() == 0 {
            prev
        } else {
            prev.push(split_on(line, ','))
        }
    }
}

/// The rows of a CSV text, each a sequence of tokens.
pub open spec fn rows_of(text: Seq<char>) -> Seq<Seq<Seq<char>>> {
    rows_of_lines(split_on(text, '\n'))
}

/// Every row has as many tokens as the first.
pub open spec fn is_rectangular(rows: Seq<Seq<Seq<char>>>) -> bool {
    forall|i: int| 0 <= i < rows.len() ==> (#[trigger] rows[i]).len() == rows[0].len()
}

/// Every token is the text form of a number.
pub open spec fn all_numeric(rows: Seq<Seq<Seq<char>>>) -> bool {
    forall|i: int, j: int|
        0 <= i < rows.len() && 0 <= j < rows[i].len() ==> is_float_literal(#[trigger] rows[i][j])
}

/// Token `(row, column)` comes before `(i, j)` when the table is read row by row.
pub open spec fn precedes(i: int, j: int, row: int, column: int) -> bool {
    i < row || (i == row && j < column)
}

/// Why a text is not a feature table of the expected width.
pub enum TableError {
    /// The text holds no non-blank line.
    NoRows,
    /// Row `row` (counted from zero) has `found` tokens where the first has `expected`.
    Ragged { row: usize, found: usize, expected: usize },
    /// The rows have `found` tokens each where `expected` features are known.
    WidthMismatch { found: usize, expected: usize },
    /// The token at `(row, column)`, counted from zero, is not a number.
    InvalidNumber { row: usize, column: usize, token: String },
}

/// A rectangular, non-empty table of numeric tokens, one row per sample.
pub struct FeatureTable {
    rows: Vec<Vec<String>>,
}

impl View for FeatureTable {
    type V = Seq<Seq<Seq<char>>>;

    closed spec fn view(&self) -> Seq<Seq<Seq<char>>> {
        self.rows.deep_view()
    }
}

impl FeatureTable {
    pub open spec fn wf(&self) -> bool {
        &&& self@.len() > 0
        &&& is_rectangular(self@)
        &&& all_numeric(self@)
    }

    pub fn row_count(&self) -> (r: usize)
        ensures
            r == self@.len(),
    {
        self.rows.len()
    }

    pub fn column_count(&self) -> (r: usize)
        requires
            self.wf(),
        ensures
            r == self@[0].len(),
    {
        self.rows[0].len()
    }

    /// The token in row `row` and column `column`.
    pub fn token(&self, row: usize, column: usize) -> (r: &str)
        requires
            row < self@.len(),
            column < self@[row as int].len(),
        ensures
            r@ == self@[row as int][column as int],
    {
        self.rows[row][column].as_str()
    }
}

/// Splits a CSV text into rows of tokens.
fn split_rows(text: &str) -> (r: Vec<Vec<String>>)
    ensures
        r.deep_view() == rows_of(text@),
{
    let cs = chars_of(text);
    let lines = split_prefix(&cs, cs.len(), '\n');
    assert(cs@.take(cs@.len() as int) =~= cs@);
    let mut rows: Vec<Vec<String>> = Vec::new();
    let mut k: usize = 0;
    while k < lines.len()
        invariant
            k <= lines@.len(),
            lines.deep_view() == split_on(text@, '\n'),
            rows.deep_view() == rows_of_lines(lines.deep_view().take(k as int)),
        decreases lines@.len() - k,
    {
        let line = &lines[k];
        assert(lines.deep_view()[k as int] =~= line@);
        assert(lines.deep_view().take(k as int + 1).drop_last() =~= lines.deep_view().take(
            k as int,
        ));
        let n = line.len();
        let end: usize = if n > 0 && line[n - 1] == '\r' {
            n - 1
        } else {
            n
        };
        assert(line@.take(end as int) =~= strip_cr(line@));
        if end > 0 {
            let parts = split_prefix(line, end, ',');
            let fields = strings_of(&parts);
            let ghost old_rows = rows.deep_view();
            rows.push(fields);
            assert(rows.deep_view() =~= old_rows.push(split_on(strip_cr(line@), ',')));
        }
        k = k + 1;
    }
    assert(lines.deep_view().take(lines@.len() as int) =~= lines.deep_view());
    rows
}

/// The text is a non-empty, rectangular table of numbers, `width` columns wide.
pub open spec fn table_accepts(text: Seq<char>, width: nat) -> bool {
    let rows = rows_of(text);
    &&& rows.len() > 0
    &&& is_rectangular(rows)
    &&& rows[0].len() == width
    &&& all_numeric(rows)
}

/// `e` names the first problem that keeps the text from being a table `width` columns wide:
/// no rows; else the first row whose length differs from the first row's; else a width
/// other than `width`; else the first token, row by row, that is not a number.
pub open spec fn explains(text: Seq<char>, width: nat, e: TableError) -> bool {
    let rows = rows_of(text);
    match e {
        TableError::NoRows => rows.len() == 0,
        TableError::Ragged { row, found, expected } => {
            &&& rows.len() > 0
            &&& 0 < row < rows.len()
            &&& expected == rows[0].len()
            &&& found == rows[row as int].len()
            &&& found != expected
            &&& forall|i: int| 0 <= i < row ==> (#[trigger] rows[i]).len() == expected
        },
        TableError::WidthMismatch { found, expected } => {
            &&& rows.len() > 0
            &&& is_rectangular(rows)
            &&& found == rows[0].len()
            &&& expected == width
            &&& found != expected
        },
        TableError::InvalidNumber { row, column, token } => {
            &&& rows.len() > 0
            &&& is_rectangular(rows)
            &&& rows[0].len() == width
            &&& row < rows.len()
            &&& column < width
            &&& token@ == rows[row as int][column as int]
            &&& !is_float_literal(token@)
            &&& forall|i: int, j: int|
                0 <= i && 0 <= j < width && precedes(i, j, row as int, column as int)
                    ==> is_float_literal(#[trigger] rows[i][j])
        },
    }
}

/// Reads a CSV text as a table of `width` numeric columns.
pub fn parse_table(text: &str, width: usize) -> (r: Result<FeatureTable, TableError>)
    ensures
        r is Ok <==> table_accepts(text@, width as nat),
        match r {
            Ok(t) => t@ == rows_of(text@) && t.wf() && t@[0].len() == width,
            Err(e) => explains(text@, width as nat, e),
        },
{
    let rows = split_rows(text);
    let ghost spec_rows = rows_of(text@);
    assert(spec_rows.len() == rows@.len());
    if rows.len() == 0 {
        return Err(TableError::NoRows);
    }
    let expected = rows[0].len();
    let mut i: usize = 1;
    while i < rows.len()
        invariant
            1 <= i <= rows@.len(),
            rows.deep_view() == spec_rows,
            spec_rows == rows_of(text@),
            spec_rows.len() == rows@.len(),
            expected == spec_rows[0].len(),
            forall|k: int| 0 <= k < i ==> (#[trigger] spec_rows[k]).len() == expected,
        decreases rows@.len() - i,
    {
        assert(spec_rows[i as int].len() == rows[i as int]@.len());
        if rows[i].len() != expected {
            return Err(TableError::Ragged { row: i, found: rows[i].len(), expected });
        }
        i = i + 1;
    }
    if expected != width {
        return Err(TableError::WidthMismatch { found: expected, expected: width });
    }
    let mut i: usize = 0;
    while i < rows.len()
        invariant
            i <= rows@.len(),
            rows.deep_view() == spec_rows,
            spec_rows == rows_of(text@),
            spec_rows.len() == rows@.len(),
            expected == width == spec_rows[0].len(),
            is_rectangular(spec_rows),
            forall|a: int, b: int|
                0 <= a < i && 0 <= b < width ==> is_float_literal(#[trigger] spec_rows[a][b]),
        decreases rows@.len() - i,
    {
        let row = &rows[i];
        assert(spec_rows[i as int] =~= row.deep_view());
        let mut j: usize = 0;
        while j < row.len()
            invariant
                i < rows@.len(),
                j <= row@.len() == width,
                rows.deep_view() == spec_rows,
                spec_rows == rows_of(text@),
                spec_rows.len() == rows@.len(),
                is_rectangular(spec_rows),
                expected == width == spec_rows[0].len(),
                row == rows[i as int],
                spec_rows[i as int] == row.deep_view(),
                forall|a: int, b: int|
                    0 <= b < width && precedes(a, b, i as int, j as int) && 0 <= a < i + 1
                        ==> is_float_literal(#[trigger] spec_rows[a][b]),
                forall|a: int, b: int|
                    0 <= a < i && 0 <= b < width ==> is_float_literal(#[trigger] spec_rows[a][b]),
            decreases row@.len() - j,
        {
            let token = &row[j];
            assert(spec_rows[i as int][j as int] == token@);
            if !is_float_token(token.as_str()) {
                return Err(
                    TableError::InvalidNumber { row: i, column: j, token: token.clone() },
                );
            }
            j = j + 1;
        }
        i = i + 1;
    }
    let t = FeatureTable { rows };
    assert(all_numeric(spec_rows)) by {
        assert forall|a: int, b: int|
            0 <= a < spec_rows.len() && 0 <= b < spec_rows[a].len() implies is_float_literal(
            #[trigger] spec_rows[a][b],
        ) by {
            assert(spec_rows[a].len() == width);
        }
    }
    Ok(t)
}

} // verus!

verus! {

/// Rows of different lengths are never accepted as a table, whatever width is expected.
pub proof fn lemma_ragged_text_rejected(text: Seq<char>, width: nat)
    requires
        !is_rectangular(rows_of(text)),
    ensures
        !table_accepts(text, width),
{
}

/// A token that is not a number keeps the whole text from being accepted as a table:
/// there is no partial result that leaves that row out.
pub proof fn lemma_non_numeric_text_rejected(text: Seq<char>, width: nat, row: int, column: int)
    requires
        0 <= row < rows_of(text).len(),
        0 <= column < rows_of(text)[row].len(),
        !is_float_literal(rows_of(text)[row][column]),
    ensures
        !table_accepts(text, width),
{
}

} // verus!
