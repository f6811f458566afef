use vstd::prelude::*;

use crate::table::{explains, parse_table, rows_of, table_accepts, FeatureTable, TableError};
use crate::text::{chars_of, lemma_split_nonempty, split_on, string_of};

verus! {

/// The result of one prediction request.
pub enum PredictionResult {
    /// The model's outputs, as decimal values joined by commas.
    Success(String),
    Failure(PredictionFailed),
}

pub struct PredictionFailed {
    pub message: String,
}

pub open spec fn digit_char(d: nat) -> char {
    seq!['0', '1', '2', '3', '4', '5', '6', '7', '8', '9'][(d % 10) as int]
}

/// The decimal digits of `n`, most significant first, with no leading zeros.
pub open spec fn decimal(n: nat) -> Seq<char>
    decreases n,
{
    if n < 10 {
        seq![digit_char(n)]
    } else {
        decimal(n / 10).push(digit_char(n % 10))
    }
}

pub open spec fn empty_input_message() -> Seq<char> {
    "Invalid input: CSV content is empty"@
}

/// The message of a failed prediction whose cause is described by `detail`.
pub open spec fn failure_message(detail: Seq<char>) -> Seq<char> {
    "Prediction failed: "@ + detail
}

/// What a table error says, with rows and columns counted from one.
pub open spec fn describe(e: TableError) -> Seq<char> {
    match e {
        TableError::NoRows => "no rows of values"@,
        TableError::Ragged { row, found, expected } => "row "@ + decimal((row + 1) as nat) + " has "@
            + decimal(found as nat) + " values, expected "@ + decimal(expected as nat),
        TableError::WidthMismatch { found, expected } => "rows have "@ + decimal(found as nat)
            + " values, expected "@ + decimal(expected as nat),
        TableError::InvalidNumber { row, column, token } => "invalid number '"@ + token@
            + "' at row "@ + decimal((row + 1) as nat) + ", column "@ + decimal((column + 1) as nat),
    }
}

/// The values joined by commas: `a,b,c`; nothing for no values.
pub open spec fn joined(values: Seq<Seq<char>>) -> Seq<char>
    decreases values.len(),
{
    if values.len() == 0 {
        Seq::empty()
    } else if values.len() == 1 {
        values[0]
    } else {
        joined(values.drop_last()) + seq![','] + values.last()
    }
}

/// No character of `s` is `d`.
pub open spec fn free_of(s: Seq<char>, d: char) -> bool {
    forall|i: int| 0 <= i < s.len() ==> s[i] != d
}

/// Characters without the delimiter, appended to a text, all join its last piece.
proof fn lemma_split_append_free(s: Seq<char>, b: Seq<char>, d: char)
    requires
        free_of(b, d),
    ensures
        split_on(s + b, d) == split_on(s, d).update(
            split_on(s, d).len() - 1,
            split_on(s, d).last() + b,
        ),
    decreases b.len(),
{
    let q = split_on(s, d);
    lemma_split_nonempty(s, d);
    if b.len() == 0 {
        assert(s + b =~= s);
        assert(q.update(q.len() - 1, q.last() + b) =~= q);
    } else {
        let c = b.last();
        lemma_split_append_free(s, b.drop_last(), d);
        assert((s + b).drop_last() =~= s + b.drop_last());
        assert((s + b).last() == c);
        assert(c != d);
        let p = split_on(s + b.drop_last(), d);
        assert(p == q.update(q.len() - 1, q.last() + b.drop_last()));
        assert(split_on(s + b, d) == p.update(p.len() - 1, p.last().push(c)));
        assert(p.len() == q.len());
        assert(p.last() == q.last() + b.drop_last());
        assert((q.last() + b.drop_last()).push(c) =~= q.last() + b);
        assert(split_on(s + b, d) =~= q.update(q.len() - 1, q.last() + b));
    }
}

/// Splitting the text of a successful prediction at its commas gives back the
/// rendered output values, one field per value, when no value holds a comma.
pub proof fn lemma_joined_splits_back(values: Seq<Seq<char>>)
    requires
        values.len() >= 1,
        forall|i: int| 0 <= i < values.len() ==> free_of(#[trigger] values[i], ','),
    ensures
        split_on(joined(values), ',') == values,
        split_on(joined(values), ',').len() == values.len(),
    decreases values.len(),
{
    if values.len() == 1 {
        let e = Seq::<char>::empty();
        lemma_split_append_free(e, values[0], ',');
        assert(e + values[0] =~= values[0]);
        assert(split_on(e, ',') =~= seq![e]);
        assert(split_on(values[0], ',') =~= values);
    } else {
        let prefix = values.drop_last();
        assert forall|i: int| 0 <= i < prefix.len() implies free_of(#[trigger] prefix[i], ',') by {
            assert(prefix[i] == values[i]);
        }
        lemma_joined_splits_back(prefix);
        let j = joined(prefix);
        let jc = j.push(',');
        assert(jc.drop_last() =~= j);
        assert(split_on(jc, ',') == split_on(j, ',').push(Seq::empty()));
        lemma_split_append_free(jc, values.last(), ',');
        assert(j + seq![','] + values.last() =~= jc + values.last());
        assert(Seq::<char>::empty() + values.last() =~= values.last());
        assert(split_on(joined(values), ',') =~= values);
    }
}

fn digit_of(d: u128) -> (c: char)
    requires
        d < 10,
    ensures
        c == digit_char(d as nat),
{
    let digits = ['0', '1', '2', '3', '4', '5', '6', '7', '8', '9'];
    assert(digits@ =~= seq!['0', '1', '2', '3', '4', '5', '6', '7', '8', '9']);
    digits[d as usize]
}

fn push_decimal(out: &mut Vec<char>, n: u128)
    ensures
        final(out)@ == old(out)@ + decimal(n as nat),
    decreases n,
{
    if n >= 10 {
        push_decimal(out, n / 10);
    }
    out.push(digit_of(n % 10));
    assert(out@ =~= old(out)@ + decimal(n as nat));
}

fn push_str(out: &mut Vec<char>, s: &str)
    ensures
        final(out)@ == old(out)@ + s@,
{
    let mut cs = chars_of(s);
    out.append(&mut cs);
}

/// The decimal form of `n`.
pub fn decimal_text(n: u128) -> (r: String)
    ensures
        r@ == decimal(n as nat),
{
    let mut out: Vec<char> = Vec::new();
    push_decimal(&mut out, n);
    assert(out@ =~= decimal(n as nat));
    string_of(&out)
}

impl TableError {
    /// A sentence that says what is wrong with the table.
    pub fn describe(&self) -> (r: String)
        ensures
            r@ == describe(*self),
    {
        let mut out: Vec<char> = Vec::new();
        match self {
            TableError::NoRows => {
                push_str(&mut out, "no rows of values");
            },
            TableError::Ragged { row, found, expected } => {
                push_str(&mut out, "row ");
                push_decimal(&mut out, *row as u128 + 1);
                push_str(&mut out, " has ");
                push_decimal(&mut out, *found as u128);
                push_str(&mut out, " values, expected ");
                push_decimal(&mut out, *expected as u128);
            },
            TableError::WidthMismatch { found, expected } => {
                push_str(&mut out, "rows have ");
                push_decimal(&mut out, *found as u128);
                push_str(&mut out, " values, expected ");
                push_decimal(&mut out, *expected as u128);
            },
            TableError::InvalidNumber { row, column, token } => {
                push_str(&mut out, "invalid number '");
                push_str(&mut out, token.as_str());
                push_str(&mut out, "' at row ");
                push_decimal(&mut out, *row as u128 + 1);
                push_str(&mut out, ", column ");
                push_decimal(&mut out, *column as u128 + 1);
            },
        }
        assert(out@ =~= describe(*self));
        string_of(&out)
    }
}

/// The values joined by commas.
pub fn join_values(values: &Vec<String>) -> (r: String)
    ensures
        r@ == joined(values.deep_view()),
{
    let mut out: Vec<char> = Vec::new();
    let mut i: usize = 0;
    while i < values.len()
        invariant
            i <= values@.len(),
            out@ == joined(values.deep_view().take(i as int)),
        decreases values@.len() - i,
    {
        let ghost prefix = values.deep_view().take(i as int + 1);
        assert(prefix.drop_last() =~= values.deep_view().take(i as int));
        assert(prefix.last() == values@[i as int]@);
        if i > 0 {
            out.push(',');
        }
        push_str(&mut out, values[i].as_str());
        assert(out@ =~= joined(prefix));
        i = i + 1;
    }
    assert(values.deep_view().take(values@.len() as int) =~= values.deep_view());
    string_of(&out)
}

fn failure(detail: &str) -> (r: PredictionResult)
    ensures
        r matches PredictionResult::Failure(f) && f.message@ == failure_message(detail@),
{
    let mut out = chars_of("Prediction failed: ");
    push_str(&mut out, detail);
    PredictionResult::Failure(PredictionFailed { message: string_of(&out) })
}

/// Checks a request before any prediction work: the text must be non-empty and a
/// rectangular table of numbers with `feature_count` columns. On success the table is
/// handed on; otherwise the failure that ends the request.
pub fn validate_request(csv_content: &str, feature_count: usize) -> (r: Result<
    FeatureTable,
    PredictionResult,
>)
    ensures
        r is Ok <==> csv_content@.len() > 0 && table_accepts(csv_content@, feature_count as nat),
        match r {
            Ok(t) => t@ == rows_of(csv_content@) && t.wf() && t@[0].len() == feature_count,
            Err(PredictionResult::Success(_)) => false,
            Err(PredictionResult::Failure(f)) => if csv_content@.len() == 0 {
                f.message@ == empty_input_message()
            } else {
                exists|e: TableError|
                    explains(csv_content@, feature_count as nat, e) && f.message@
                        == failure_message(#[trigger] describe(e))
            },
        },
{
    if csv_content.is_empty() {
        let message = string_of(&chars_of("Invalid input: CSV content is empty"));
        return Err(PredictionResult::Failure(PredictionFailed { message }));
    }
    match parse_table(csv_content, feature_count) {
        Ok(t) => Ok(t),
        Err(e) => {
            let detail = e.describe();
            Err(failure(detail.as_str()))
        },
    }
}

/// Ends a request with the outcome of the prediction work: the output values as
/// text, joined by commas, or the description of what failed.
pub fn complete(outputs: Result<Vec<String>, String>) -> (r: PredictionResult)
    ensures
        match outputs {
            Ok(values) => r matches PredictionResult::Success(s) && s@ == joined(
                values.deep_view(),
            ),
            Err(detail) => r matches PredictionResult::Failure(f) && f.message@
                == failure_message(detail@),
        },
{
    match outputs {
        Ok(values) => PredictionResult::Success(join_values(&values)),
        Err(detail) => failure(detail.as_str()),
    }
}

} // verus!
