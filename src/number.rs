use vstd::prelude::*;

verus! {

pub open spec fn is_digit(c: char) -> bool {
    '0' <= c && c <= '9'
}

pub open spec fn is_exp_mark(c: char) -> bool {
    c == 'e' || c == 'E'
}

pub open spec fn is_sign(c: char) -> bool {
    c == '+' || c == '-'
}

/// `s` without its leading sign, if it has one.
pub open spec fn unsigned_part(s: Seq<char>) -> Seq<char> {
    if s.len() > 0 && is_sign(s[0]) {
        s.drop_first()
    } else {
        s
    }
}

pub open spec fn all_digits(s: Seq<char>) -> bool {
    forall|i: int| 0 <= i < s.len() ==> is_digit(#[trigger] s[i])
}

/// Digits with at most one decimal point, and at least one digit:
/// `1`, `1.`, `1.5` and `.5` are mantissas; `.` and `1.2.3` are not.
pub open spec fn is_mantissa(s: Seq<char>) -> bool {
    &&& forall|i: int| 0 <= i < s.len() ==> is_digit(#[trigger] s[i]) || s[i] == '.'
    &&& forall|i: int, j: int| 0 <= i < j < s.len() && #[trigger] s[i] == '.' ==> #[trigger] s[j] != '.'
    &&& exists|i: int| 0 <= i < s.len() && is_digit(#[trigger] s[i])
}

/// Position of the first exponent mark of `s`, or its length if it has none.
pub open spec fn exp_index(s: Seq<char>) -> int
    decreases s.len(),
{
    if s.len() == 0 {
        0
    } else if is_exp_mark(s[0]) {
        0
    } else {
        1 + exp_index(s.drop_first())
    }
}

/// A mantissa, optionally followed by `e` or `E`, an optional sign and at least one digit.
pub open spec fn is_decimal(s: Seq<char>) -> bool {
    let p = exp_index(s);
    &&& is_mantissa(s.take(p))
    &&& p == s.len() || {
        let e = unsigned_part(s.skip(p + 1));
        e.len() > 0 && all_digits(e)
    }
}

/// `s` spells the word whose lower- and upper-case letters are given, in any mix of cases.
pub open spec fn is_word(s: Seq<char>, lower: Seq<char>, upper: Seq<char>) -> bool {
    &&& s.len() == lower.len()
    &&& forall|i: int| 0 <= i < s.len() ==> #[trigger] s[i] == lower[i] || s[i] == upper[i]
}

pub open spec fn is_special_value(s: Seq<char>) -> bool {
    ||| is_word(s, seq!['i', 'n', 'f'], seq!['I', 'N', 'F'])
    ||| is_word(
        s,
        seq!['i', 'n', 'f', 'i', 'n', 'i', 't', 'y'],
        seq!['I', 'N', 'F', 'I', 'N', 'I', 'T', 'Y'],
    )
    ||| is_word(s, seq!['n', 'a', 'n'], seq!['N', 'A', 'N'])
}

/// The text form of a floating-point number, as the standard library reads it:
/// an optional sign, then `inf`, `infinity` or `nan` in any case, or a decimal.
/// No surrounding whitespace is allowed.
pub open spec fn is_float_literal(s: Seq<char>) -> bool {
    let u = unsigned_part(s);
    is_special_value(u) || is_decimal(u)
}

fn is_digit_char(c: char) -> (r: bool)
    ensures
        r == is_digit(c),
{
    '0' <= c && c <= '9'
}

/// The characters of `cs` from `lo` up to `hi`.
fn slice_of(cs: &Vec<char>, lo: usize, hi: usize) -> (r: Vec<char>)
    requires
        lo <= hi <= cs@.len(),
    ensures
        r@ == cs@.subrange(lo as int, hi as int),
{
    let mut out: Vec<char> = Vec::new();
    let mut i: usize = lo;
    while i < hi
        invariant
            lo <= i <= hi <= cs@.len(),
            out@ == cs@.subrange(lo as int, i as int),
        decreases hi - i,
    {
        out.push(cs[i]);
        assert(out@ =~= cs@.subrange(lo as int, i as int + 1));
        i = i + 1;
    }
    out
}

fn unsigned_part_of(cs: &Vec<char>) -> (r: Vec<char>)
    ensures
        r@ == unsigned_part(cs@),
{
    if cs.len() > 0 && (cs[0] == '+' || cs[0] == '-') {
        let r = slice_of(cs, 1, cs.len());
        assert(r@ =~= cs@.drop_first());
        r
    } else {
        slice_of(cs, 0, cs.len())
    }
}

fn all_digits_of(cs: &Vec<char>) -> (r: bool)
    ensures
        r == all_digits(cs@),
{
    let mut i: usize = 0;
    while i < cs.len()
        invariant
            i <= cs@.len(),
            forall|k: int| 0 <= k < i ==> is_digit(#[trigger] cs@[k]),
        decreases cs@.len() - i,
    {
        if !is_digit_char(cs[i]) {
            return false;
        }
        i = i + 1;
    }
    true
}

fn is_mantissa_of(cs: &Vec<char>) -> (r: bool)
    ensures
        r == is_mantissa(cs@),
{
    let mut seen_dot = false;
    let mut seen_digit = false;
    let mut i: usize = 0;
    while i < cs.len()
        invariant
            i <= cs@.len(),
            forall|k: int| 0 <= k < i ==> is_digit(#[trigger] cs@[k]) || cs@[k] == '.',
            forall|k: int, l: int| 0 <= k < l < i && #[trigger] cs@[k] == '.' ==> #[trigger] cs@[l] != '.',
            seen_dot <==> exists|k: int| 0 <= k < i && #[trigger] cs@[k] == '.',
            seen_digit <==> exists|k: int| 0 <= k < i && is_digit(#[trigger] cs@[k]),
        decreases cs@.len() - i,
    {
        let c = cs[i];
        if c == '.' {
            if seen_dot {
                proof {
                    let k = choose|k: int| 0 <= k < i && #[trigger] cs@[k] == '.';
                    assert(0 <= k < i as int && cs@[k] == '.' && cs@[i as int] == '.');
                }
                return false;
            }
            seen_dot = true;
        } else if is_digit_char(c) {
            seen_digit = true;
        } else {
            return false;
        }
        i = i + 1;
    }
    seen_digit
}

proof fn lemma_exp_index(s: Seq<char>, i: int)
    requires
        0 <= i <= s.len(),
        forall|k: int| 0 <= k < i ==> !is_exp_mark(#[trigger] s[k]),
        i == s.len() || is_exp_mark(s[i]),
    ensures
        exp_index(s) == i,
    decreases i,
{
    if i > 0 {
        let t = s.drop_first();
        assert forall|k: int| 0 <= k < i - 1 implies !is_exp_mark(#[trigger] t[k]) by {
            assert(t[k] == s[k + 1]);
        }
        lemma_exp_index(t, i - 1);
    }
}

fn exp_index_of(cs: &Vec<char>) -> (r: usize)
    ensures
        r == exp_index(cs@),
        r <= cs@.len(),
{
    let mut i: usize = 0;
    while i < cs.len() && !(cs[i] == 'e' || cs[i] == 'E')
        invariant
            i <= cs@.len(),
            forall|k: int| 0 <= k < i ==> !is_exp_mark(#[trigger] cs@[k]),
        decreases cs@.len() - i,
    {
        i = i + 1;
    }
    proof {
        lemma_exp_index(cs@, i as int);
    }
    i
}

fn is_decimal_of(cs: &Vec<char>) -> (r: bool)
    ensures
        r == is_decimal(cs@),
{
    let p = exp_index_of(cs);
    let mantissa = slice_of(cs, 0, p);
    assert(mantissa@ =~= cs@.take(p as int));
    if !is_mantissa_of(&mantissa) {
        return false;
    }
    if p == cs.len() {
        return true;
    }
    let rest = slice_of(cs, p + 1, cs.len());
    assert(rest@ =~= cs@.skip(p as int + 1));
    let e = unsigned_part_of(&rest);
    e.len() > 0 && all_digits_of(&e)
}

fn is_word_of(cs: &Vec<char>, lower: &Vec<char>, upper: &Vec<char>) -> (r: bool)
    requires
        lower@.len() == upper@.len(),
    ensures
        r == is_word(cs@, lower@, upper@),
{
    if cs.len() != lower.len() {
        return false;
    }
    let mut i: usize = 0;
    while i < cs.len()
        invariant
            i <= cs@.len() == lower@.len() == upper@.len(),
            forall|k: int| 0 <= k < i ==> #[trigger] cs@[k] == lower@[k] || cs@[k] == upper@[k],
        decreases cs@.len() - i,
    {
        if cs[i] != lower[i] && cs[i] != upper[i] {
            return false;
        }
        i = i + 1;
    }
    true
}

fn is_special_value_of(cs: &Vec<char>) -> (r: bool)
    ensures
        r == is_special_value(cs@),
{
    let inf_lower = vec!['i', 'n', 'f'];
    let inf_upper = vec!['I', 'N', 'F'];
    let infinity_lower = vec!['i', 'n', 'f', 'i', 'n', 'i', 't', 'y'];
    let infinity_upper = vec!['I', 'N', 'F', 'I', 'N', 'I', 'T', 'Y'];
    let nan_lower = vec!['n', 'a', 'n'];
    let nan_upper = vec!['N', 'A', 'N'];
    assert(inf_lower@ =~= seq!['i', 'n', 'f']);
    assert(inf_upper@ =~= seq!['I', 'N', 'F']);
    assert(infinity_lower@ =~= seq!['i', 'n', 'f', 'i', 'n', 'i', 't', 'y']);
    assert(infinity_upper@ =~= seq!['I', 'N', 'F', 'I', 'N', 'I', 'T', 'Y']);
    assert(nan_lower@ =~= seq!['n', 'a', 'n']);
    assert(nan_upper@ =~= seq!['N', 'A', 'N']);
    is_word_of(cs, &inf_lower, &inf_upper) || is_word_of(cs, &infinity_lower, &infinity_upper)
        || is_word_of(cs, &nan_lower, &nan_upper)
}

/// Whether `token` is the text form of a floating-point number (see `is_float_literal`).
pub fn is_float_token(token: &str) -> (r: bool)
    ensures
        r == is_float_literal(token@),
{
    let cs = crate::text::chars_of(token);
    let u = unsigned_part_of(&cs);
    is_special_value_of(&u) || is_decimal_of(&u)
}

} // verus!
