use vstd::prelude::*;
use vstd::std_specs::iter::IteratorSpec;

verus! {

/// The pieces of `s` between occurrences of `d`, in order, as `str::split` gives them:
/// there is always at least one piece, and `k` delimiters give `k + 1` pieces.
pub open spec fn split_on(s: Seq<char>, d: char) -> Seq<Seq<char>>
    decreases s.len(),
{
    if s.len() == 0 {
        seq![Seq::empty()]
    } else {
        let prev = split_on(s.drop_last(), d);
        if s.last() == d {
            prev.push(Seq::empty())
        } else {
            prev.update(prev.len() - 1, prev.last().push(s.last()))
        }
    }
}

/// Splitting always gives at least one piece.
pub proof fn lemma_split_nonempty(s: Seq<char>, d: char)
    ensures
        split_on(s, d).len() >= 1,
    decreases s.len(),
{
    if s.len() > 0 {
        lemma_split_nonempty(s.drop_last(), d);
    }
}

/// The characters of `s`, in order.
pub(crate) fn chars_of(s: &str) -> (r: Vec<char>)
    ensures
        r@ == s@,
{
    broadcast use vstd::string::axiom_spec_iter, vstd::string::next_postcondition;

    let mut it = s.chars();
    let mut out: Vec<char> = Vec::new();
    loop
        invariant
            it.obeys_prophetic_iter_laws(),
            it.decrease() is Some,
            out@ + it.remaining() == s@,
        ensures
            out@ == s@,
        decreases it.decrease()->0,
    {
        match it.next() {
            Some(c) => {
                let ghost before = out@;
                out.push(c);
                assert(before + seq![c] + it.remaining() =~= before + (seq![c] + it.remaining()));
            },
            None => {
                assert(out@ =~= s@);
                break ;
            },
        }
    }
    out
}

/// Relies on `String: FromIterator<&char>`: a string holding exactly these characters.
#[verifier::external_body]
pub(crate) fn string_of(cs: &Vec<char>) -> (r: String)
    ensures
        r@ == cs@,
{
    cs.iter().collect()
}

/// Splits the first `len` characters of `cs` at each `d`.
pub(crate) fn split_prefix(cs: &Vec<char>, len: usize, d: char) -> (r: Vec<Vec<char>>)
    requires
        len <= cs@.len(),
    ensures
        r.deep_view() == split_on(cs@.take(len as int), d),
{
    let mut done: Vec<Vec<char>> = Vec::new();
    let mut cur: Vec<char> = Vec::new();
    let mut i: usize = 0;
    while i < len
        invariant
            i <= len <= cs@.len(),
            done.deep_view().push(cur@) == split_on(cs@.take(i as int), d),
        decreases len - i,
    {
        let c = cs[i];
        let ghost prev = split_on(cs@.take(i as int), d);
        assert(cs@.take(i as int + 1).drop_last() =~= cs@.take(i as int));
        proof {
            lemma_split_nonempty(cs@.take(i as int), d);
        }
        if c == d {
            let ghost old_done = done.deep_view();
            assert(cur.deep_view() =~= cur@);
            done.push(cur);
            assert(done.deep_view() =~= old_done.push(prev.last()));
            cur = Vec::new();
            assert(done.deep_view().push(cur@) =~= prev.push(Seq::empty()));
        } else {
            cur.push(c);
            assert(done.deep_view().push(cur@) =~= prev.update(
                prev.len() - 1,
                prev.last().push(c),
            ));
        }
        i = i + 1;
    }
    let ghost old_done = done.deep_view();
    assert(cur.deep_view() =~= cur@);
    done.push(cur);
    assert(done.deep_view() =~= old_done.push(cur@));
    done
}

/// Each character sequence turned into a `String`, in order.
pub(crate) fn strings_of(parts: &Vec<Vec<char>>) -> (r: Vec<String>)
    ensures
        r.deep_view() == parts.deep_view(),
{
    let mut out: Vec<String> = Vec::new();
    let mut i: usize = 0;
    while i < parts.len()
        invariant
            i <= parts@.len(),
            out.deep_view() == parts.deep_view().take(i as int),
        decreases parts@.len() - i,
    {
        let s = string_of(&parts[i]);
        assert(parts@[i as int].deep_view() =~= parts@[i as int]@);
        let ghost old_out = out.deep_view();
        out.push(s);
        assert(out.deep_view() =~= old_out.push(parts@[i as int]@));
        assert(out.deep_view() =~= parts.deep_view().take(i as int + 1));
        i = i + 1;
    }
    assert(parts.deep_view().take(parts@.len() as int) =~= parts.deep_view());
    out
}

} // verus!
