//! Character-level text operations used by the editor and the code runner.
use vstd::prelude::*;
use vstd::string::*;

verus! {

/// `s` with each occurrence of the character `from` replaced by the characters `to`
/// (what `str::replace` with a `char` pattern gives).
pub open spec fn replace_char_spec(s: Seq<char>, from: char, to: Seq<char>) -> Seq<char>
    decreases s.len(),
{
    if s.len() == 0 {
        Seq::empty()
    } else {
        replace_char_spec(s.drop_last(), from, to) + if s.last() == from {
            to
        } else {
            seq![s.last()]
        }
    }
}

/// `s` with the leftmost non-overlapping occurrences of the non-empty pattern `pat`
/// replaced by `to`, scanning from the front (what `str::replace` with a `&str`
/// pattern gives).
pub open spec fn replace_str_spec(s: Seq<char>, pat: Seq<char>, to: Seq<char>) -> Seq<char>
    decreases s.len(),
{
    if s.len() == 0 {
        Seq::empty()
    } else if pat.len() > 0 && pat.len() <= s.len() && s.take(pat.len() as int) == pat {
        to + replace_str_spec(s.skip(pat.len() as int), pat, to)
    } else {
        seq![s[0]] + replace_str_spec(s.drop_first(), pat, to)
    }
}

/// The number of line feeds in `s`.
pub open spec fn newline_count(s: Seq<char>) -> nat
    decreases s.len(),
{
    if s.len() == 0 {
        0
    } else {
        newline_count(s.drop_last()) + if s.last() == '\n' {
            1nat
        } else {
            0nat
        }
    }
}

/// The number of items that `str::lines` yields for `s`: one per line feed, plus one
/// for a last line that has no line feed.
pub open spec fn line_count(s: Seq<char>) -> nat {
    newline_count(s) + if s.len() > 0 && s.last() != '\n' {
        1nat
    } else {
        0nat
    }
}

/// The first `n` characters of `s`, or all of `s` where it is shorter.
pub open spec fn take_at_most(s: Seq<char>, n: int) -> Seq<char> {
    if n < s.len() {
        s.take(n)
    } else {
        s
    }
}

/// `s` without its first `n` characters, or empty where it is shorter.
pub open spec fn skip_at_most(s: Seq<char>, n: int) -> Seq<char> {
    if n < s.len() {
        s.skip(n)
    } else {
        Seq::empty()
    }
}

/// Appends one character to a string (`String::push`).
#[verifier::external_body]
pub(crate) fn push_char(s: &mut String, c: char)
    ensures
        final(s)@ == old(s)@.push(c),
{
    s.push(c);
}

/// The characters of `s`, one per element.
pub fn chars_of(s: &str) -> (r: Vec<char>)
    ensures
        r@ == s@,
{
    let mut out: Vec<char> = Vec::new();
    for c in it: s.chars()
        invariant
            it.seq() == s@,
            out@ == s@.take(it.index() as int),
    {
        assert(s@.take(it.index() + 1) == s@.take(it.index() as int).push(c));
        out.push(c);
    }
    out
}

/// A string made of the characters `cs[from..to]`.
pub fn string_from_chars(cs: &Vec<char>, from: usize, to: usize) -> (r: String)
    requires
        from <= to <= cs@.len(),
    ensures
        r@ == cs@.subrange(from as int, to as int),
{
    let mut out = String::new();
    let mut i = from;
    while i < to
        invariant
            from <= i <= to <= cs@.len(),
            out@ == cs@.subrange(from as int, i as int),
        decreases to - i,
    {
        push_char(&mut out, cs[i]);
        assert(cs@.subrange(from as int, i + 1) == cs@.subrange(from as int, i as int).push(cs@[i as int]));
        i = i + 1;
    }
    out
}

/// `s` with each `from` character replaced by `to`.
pub fn replace_char(s: &str, from: char, to: &str) -> (r: String)
    ensures
        r@ == replace_char_spec(s@, from, to@),
{
    let mut out = String::new();
    for c in it: s.chars()
        invariant
            it.seq() == s@,
            out@ == replace_char_spec(s@.take(it.index() as int), from, to@),
    {
        let ghost i = it.index();
        assert(s@.take(i + 1).drop_last() == s@.take(i));
        if c == from {
            out.append(to);
        } else {
            push_char(&mut out, c);
        }
    }
    assert(s@.take(s@.len() as int) == s@);
    out
}

/// Whether `pat` occurs in `cs` starting at index `at`.
fn occurs_at(cs: &Vec<char>, pat: &Vec<char>, at: usize) -> (r: bool)
    requires
        at <= cs@.len(),
    ensures
        r == (pat@.len() <= cs@.len() - at && cs@.skip(at as int).take(pat@.len() as int)
            == pat@),
{
    if pat.len() > cs.len() - at {
        return false;
    }
    let mut j: usize = 0;
    while j < pat.len()
        invariant
            at <= cs@.len(),
            pat@.len() <= cs@.len() - at,
            j <= pat@.len(),
            forall|k: int| 0 <= k < j ==> cs@[at + k] == pat@[k],
        decreases pat@.len() - j,
    {
        assert(at + j < cs.len());
        if cs[at + j] != pat[j] {
            assert(cs@.skip(at as int).take(pat@.len() as int)[j as int] != pat@[j as int]);
            return false;
        }
        j = j + 1;
    }
    assert(cs@.skip(at as int).take(pat@.len() as int) =~= pat@);
    true
}

/// `s` with the leftmost non-overlapping occurrences of `pat` replaced by `to`.
pub fn replace_str(s: &str, pat: &str, to: &str) -> (r: String)
    requires
        pat@.len() > 0,
    ensures
        r@ == replace_str_spec(s@, pat@, to@),
{
    let cs = chars_of(s);
    let ps = chars_of(pat);
    let mut out = String::new();
    let mut i: usize = 0;
    assert(s@.skip(0) == s@);
    while i < cs.len()
        invariant
            cs@ == s@,
            ps@ == pat@,
            pat@.len() > 0,
            i <= cs@.len(),
            out@ + replace_str_spec(s@.skip(i as int), pat@, to@) == replace_str_spec(s@, pat@, to@),
        decreases cs@.len() - i,
    {
        let ghost rest = s@.skip(i as int);
        if occurs_at(&cs, &ps, i) {
            assert(rest.skip(pat@.len() as int) == s@.skip(i + pat@.len()));
            out.append(to);
            i = i + ps.len();
        } else {
            assert(rest.drop_first() == s@.skip(i + 1));
            assert(rest[0] == cs@[i as int]);
            push_char(&mut out, cs[i]);
            i = i + 1;
        }
    }
    assert(s@.skip(i as int).len() == 0);
    out
}

/// There are never more line feeds than characters.
pub proof fn lemma_newline_count_bound(s: Seq<char>)
    ensures
        newline_count(s) <= s.len(),
    decreases s.len(),
{
    if s.len() > 0 {
        lemma_newline_count_bound(s.drop_last());
    }
}

/// Line feeds add up over a concatenation.
pub proof fn lemma_newline_count_concat(a: Seq<char>, b: Seq<char>)
    ensures
        newline_count(a + b) == newline_count(a) + newline_count(b),
    decreases b.len(),
{
    if b.len() == 0 {
        assert(a + b =~= a);
    } else {
        lemma_newline_count_concat(a, b.drop_last());
        assert((a + b).drop_last() =~= a + b.drop_last());
    }
}

/// Text without a line feed character counts none.
pub proof fn lemma_no_newline_chars(s: Seq<char>)
    requires
        forall|i: int| 0 <= i < s.len() ==> s[i] != '\n',
    ensures
        newline_count(s) == 0,
    decreases s.len(),
{
    if s.len() > 0 {
        lemma_no_newline_chars(s.drop_last());
    }
}

/// Replacing characters works from the front as well: the first character's
/// replacement comes first.
pub proof fn lemma_replace_char_front(c: char, s: Seq<char>, from: char, to: Seq<char>)
    ensures
        replace_char_spec(seq![c] + s, from, to) == (if c == from {
            to
        } else {
            seq![c]
        }) + replace_char_spec(s, from, to),
    decreases s.len(),
{
    if s.len() == 0 {
        assert(seq![c] + s =~= seq![c]);
        assert(seq![c].drop_last() =~= Seq::<char>::empty());
        let f = if c == from {
            to
        } else {
            seq![c]
        };
        assert(replace_char_spec(seq![c].drop_last(), from, to) =~= Seq::<char>::empty());
        assert(replace_char_spec(s, from, to) =~= Seq::<char>::empty());
        assert(replace_char_spec(seq![c], from, to) =~= f);
        assert(f + Seq::<char>::empty() =~= f);
    } else {
        lemma_replace_char_front(c, s.drop_last(), from, to);
        assert((seq![c] + s).drop_last() =~= seq![c] + s.drop_last());
        assert((seq![c] + s).last() == s.last());
        let f = if c == from {
            to
        } else {
            seq![c]
        };
        let g = if s.last() == from {
            to
        } else {
            seq![s.last()]
        };
        assert(f + replace_char_spec(s.drop_last(), from, to) + g =~= f + (replace_char_spec(
            s.drop_last(),
            from,
            to,
        ) + g));
    }
}

/// The number of items `str::lines` yields for `s`.
pub fn count_lines(s: &str) -> (r: usize)
    ensures
        r == line_count(s@),
{
    let cs = chars_of(s);
    let mut n: usize = 0;
    let mut i: usize = 0;
    while i < cs.len()
        invariant
            cs@ == s@,
            i <= cs@.len(),
            n == newline_count(s@.take(i as int)),
            n <= i,
        decreases cs@.len() - i,
    {
        assert(s@.take(i + 1).drop_last() == s@.take(i as int));
        if cs[i] == '\n' {
            n = n + 1;
        }
        i = i + 1;
    }
    assert(s@.take(cs@.len() as int) == s@);
    proof {
        if s@.len() > 0 {
            lemma_newline_count_bound(s@.drop_last());
        }
    }
    if cs.len() > 0 && cs[cs.len() - 1] != '\n' {
        n + 1
    } else {
        n
    }
}

} // verus!
