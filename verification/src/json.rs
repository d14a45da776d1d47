//! JSON string literals, as serde_json writes them.
use vstd::prelude::*;

verus! {

/// serde_json's error type, carried through unopened.
#[verifier::external_type_specification]
#[verifier::external_body]
pub struct ExJsonError(serde_json::Error);

/// The lower-case hexadecimal digit for `n` (0 to 15).
pub open spec fn hex_digit(n: int) -> char {
    seq!['0', '1', '2', '3', '4', '5', '6', '7', '8', '9', 'a', 'b', 'c', 'd', 'e', 'f'][n]
}

/// How serde_json writes one character inside a JSON string: the quote and the
/// backslash get a backslash, the control characters below U+0020 get their short
/// escape or a `\u00XX` escape, every other character stands for itself.
pub open spec fn json_escape_char(c: char) -> Seq<char> {
    if c == '"' {
        seq!['\\', '"']
    } else if c == '\\' {
        seq!['\\', '\\']
    } else if c == '\x08' {
        seq!['\\', 'b']
    } else if c == '\t' {
        seq!['\\', 't']
    } else if c == '\n' {
        seq!['\\', 'n']
    } else if c == '\x0c' {
        seq!['\\', 'f']
    } else if c == '\r' {
        seq!['\\', 'r']
    } else if (c as int) < 0x20 {
        seq!['\\', 'u', '0', '0', hex_digit((c as int) / 16), hex_digit((c as int) % 16)]
    } else {
        seq![c]
    }
}

/// The escaped characters of `s`, one escape after another.
pub open spec fn json_escaped(s: Seq<char>) -> Seq<char>
    decreases s.len(),
{
    if s.len() == 0 {
        Seq::empty()
    } else {
        json_escaped(s.drop_last()) + json_escape_char(s.last())
    }
}

/// The JSON string literal that serde_json writes for `s`.
pub open spec fn json_string(s: Seq<char>) -> Seq<char> {
    seq!['"'] + json_escaped(s) + seq!['"']
}

/// The digit's value: the inverse of `hex_digit` on the sixteen digits.
spec fn hex_value(c: char) -> int {
    if c == '0' { 0 } else if c == '1' { 1 } else if c == '2' { 2 } else if c == '3' { 3 }
    else if c == '4' { 4 } else if c == '5' { 5 } else if c == '6' { 6 } else if c == '7' { 7 }
    else if c == '8' { 8 } else if c == '9' { 9 } else if c == 'a' { 10 } else if c == 'b' { 11 }
    else if c == 'c' { 12 } else if c == 'd' { 13 } else if c == 'e' { 14 } else { 15 }
}

proof fn lemma_hex_value(n: int)
    requires
        0 <= n < 16,
    ensures
        hex_value(hex_digit(n)) == n,
{
    let d = seq!['0', '1', '2', '3', '4', '5', '6', '7', '8', '9', 'a', 'b', 'c', 'd', 'e', 'f'];
    assert(hex_digit(n) == d[n]);
}

/// The shape of one escape: a character other than a backslash stands for itself; a
/// backslash is followed by one code letter, or by `u` and four more characters. No
/// escape starts with a quote.
proof fn lemma_escape_shape(c: char)
    ensures
        json_escape_char(c).len() >= 1,
        json_escape_char(c)[0] != '"',
        json_escape_char(c)[0] != '\\' ==> json_escape_char(c) == seq![c],
        json_escape_char(c)[0] == '\\' ==> json_escape_char(c).len() >= 2 && (
        json_escape_char(c)[1] == 'u' <==> json_escape_char(c).len() == 6) && (json_escape_char(
            c,
        )[1] != 'u' ==> json_escape_char(c).len() == 2),
{
}

/// Two characters with the same escape are the same character.
proof fn lemma_escape_injective(c: char, d: char)
    requires
        json_escape_char(c) == json_escape_char(d),
    ensures
        c == d,
{
    let e = json_escape_char(c);
    lemma_escape_shape(c);
    lemma_escape_shape(d);
    if e[0] != '\\' {
        assert(e[0] == c && e[0] == d);
    } else if e.len() == 2 {
        assert(e[1] == json_escape_char(d)[1]);
    } else {
        let ci = c as int;
        let di = d as int;
        assert(ci < 0x20 && di < 0x20);
        lemma_hex_value(ci / 16);
        lemma_hex_value(ci % 16);
        lemma_hex_value(di / 16);
        lemma_hex_value(di % 16);
        assert(e[4] == hex_digit(ci / 16) && e[4] == hex_digit(di / 16));
        assert(e[5] == hex_digit(ci % 16) && e[5] == hex_digit(di % 16));
        assert(ci == 16 * (ci / 16) + ci % 16);
        assert(di == 16 * (di / 16) + di % 16);
        assert(ci == di);
        vstd::utf8::char_u32_cast(c, c as u32);
        vstd::utf8::char_u32_cast(d, d as u32);
        assert(c as u32 == d as u32);
    }
}

/// An escape followed by anything is read back unambiguously: the escaped character and
/// what follows it are determined.
proof fn lemma_escape_prefix(c: char, d: char, r1: Seq<char>, r2: Seq<char>)
    requires
        json_escape_char(c) + r1 == json_escape_char(d) + r2,
    ensures
        c == d,
        r1 == r2,
{
    let e = json_escape_char(c);
    let f = json_escape_char(d);
    let t = e + r1;
    lemma_escape_shape(c);
    lemma_escape_shape(d);
    assert(t[0] == e[0] && t[0] == f[0]);
    if e[0] == '\\' {
        assert(t[1] == e[1] && t[1] == f[1]);
    }
    assert(e.len() == f.len());
    assert(e =~= t.subrange(0, e.len() as int));
    assert(f =~= t.subrange(0, e.len() as int));
    lemma_escape_injective(c, d);
    assert(r1 =~= t.subrange(e.len() as int, t.len() as int));
    assert(r2 =~= t.subrange(e.len() as int, t.len() as int));
}

/// Escaping a text that starts with `c` starts with the escape of `c`.
proof fn lemma_escaped_front(c: char, s: Seq<char>)
    ensures
        json_escaped(seq![c] + s) == json_escape_char(c) + json_escaped(s),
    decreases s.len(),
{
    let t = seq![c] + s;
    if s.len() == 0 {
        assert(t.drop_last() =~= Seq::<char>::empty());
        assert(t.last() == c);
        assert(json_escaped(t) == json_escaped(t.drop_last()) + json_escape_char(t.last()));
        assert(Seq::<char>::empty() + json_escape_char(c) =~= json_escape_char(c));
        assert(json_escape_char(c) + json_escaped(s) =~= json_escape_char(c));
    } else {
        lemma_escaped_front(c, s.drop_last());
        assert(t.drop_last() =~= seq![c] + s.drop_last());
        assert(t.last() == s.last());
        assert(json_escaped(t) == json_escaped(t.drop_last()) + json_escape_char(t.last()));
        assert(json_escape_char(c) + json_escaped(s.drop_last()) + json_escape_char(s.last())
            =~= json_escape_char(c) + (json_escaped(s.drop_last()) + json_escape_char(s.last())));
    }
}

/// Escaped text never starts with a quote, and the escaped text before a closing quote
/// determines the text.
proof fn lemma_escaped_prefix(a: Seq<char>, b: Seq<char>, x: Seq<char>, y: Seq<char>)
    requires
        json_escaped(a) + x == json_escaped(b) + y,
        x.len() > 0 && x[0] == '"',
        y.len() > 0 && y[0] == '"',
    ensures
        a == b,
        x == y,
    decreases a.len(),
{
    if a.len() == 0 {
        assert(json_escaped(a) + x =~= x);
        if b.len() > 0 {
            let b0 = b[0];
            let b1 = b.drop_first();
            assert(b =~= seq![b0] + b1);
            lemma_escaped_front(b0, b1);
            lemma_escape_shape(b0);
            assert((json_escape_char(b0) + (json_escaped(b1) + y))[0] == json_escape_char(b0)[0]);
            assert(json_escaped(b) + y =~= json_escape_char(b0) + (json_escaped(b1) + y));
        }
        assert(json_escaped(b) + y =~= y);
    } else if b.len() == 0 {
        let a0 = a[0];
        let a1 = a.drop_first();
        assert(a =~= seq![a0] + a1);
        lemma_escaped_front(a0, a1);
        lemma_escape_shape(a0);
        assert((json_escape_char(a0) + (json_escaped(a1) + x))[0] == json_escape_char(a0)[0]);
        assert(json_escaped(a) + x =~= json_escape_char(a0) + (json_escaped(a1) + x));
        assert(json_escaped(b) + y =~= y);
    } else {
        let a0 = a[0];
        let a1 = a.drop_first();
        let b0 = b[0];
        let b1 = b.drop_first();
        assert(a =~= seq![a0] + a1);
        assert(b =~= seq![b0] + b1);
        lemma_escaped_front(a0, a1);
        lemma_escaped_front(b0, b1);
        assert(json_escaped(a) + x =~= json_escape_char(a0) + (json_escaped(a1) + x));
        assert(json_escaped(b) + y =~= json_escape_char(b0) + (json_escaped(b1) + y));
        lemma_escape_prefix(a0, b0, json_escaped(a1) + x, json_escaped(b1) + y);
        lemma_escaped_prefix(a1, b1, x, y);
    }
}

/// A JSON string literal is read back unambiguously from the front of any text: where
/// two texts start with string literals and are equal, the strings are equal and so is
/// what follows them.
pub proof fn lemma_json_string_prefix(a: Seq<char>, b: Seq<char>, x: Seq<char>, y: Seq<char>)
    requires
        json_string(a) + x == json_string(b) + y,
    ensures
        a == b,
        x == y,
{
    let t = json_string(a) + x;
    assert(t.drop_first() =~= json_escaped(a) + (seq!['"'] + x));
    assert((json_string(b) + y).drop_first() =~= json_escaped(b) + (seq!['"'] + y));
    lemma_escaped_prefix(a, b, seq!['"'] + x, seq!['"'] + y);
    assert(x =~= (seq!['"'] + x).drop_first());
    assert(y =~= (seq!['"'] + y).drop_first());
}

/// Calls `serde_json::to_string` on a string slice. The claim, read from serde_json's
/// serializer (`format_escaped_str` and its `ESCAPE` table), is that it succeeds and
/// writes the quoted and escaped literal that `json_string` describes: serializing a
/// `str` has no failing case.
#[verifier::external_body]
fn serde_json_to_string(s: &str) -> (r: Result<String, serde_json::Error>)
    ensures
        r is Ok,
        r matches Ok(t) ==> t@ == json_string(s@),
{
    serde_json::to_string(s)
}

/// The JSON string literal for `s`.
pub fn quote(s: &str) -> (r: String)
    ensures
        r@ == json_string(s@),
{
    match serde_json_to_string(s) {
        Ok(t) => t,
        Err(_) => String::new(),
    }
}

} // verus!

verus! {

/// The JSON object text with the one member `key` whose value is the string `s`, as
/// serde_json writes it.
pub open spec fn object_with_string_member(key: Seq<char>, s: Seq<char>) -> Seq<char> {
    "{"@ + json_string(key) + ":"@ + json_string(s) + "}"@
}

/// What serde_json makes of `text` when it parses it as a `serde_json::Value` and
/// writes that value back in its compact form; `None` where `text` is not JSON.
pub uninterp spec fn reserialized_json(text: Seq<char>) -> Option<Seq<char>>;

/// What serde_json finds of the member `key` of the JSON text `text`: `None` where
/// `text` is not JSON; `Some(None)` where its value has no member `key` (or is not an
/// object); `Some(Some(None))` where the member is not a string; `Some(Some(Some(s)))`
/// where it is the string `s`.
pub uninterp spec fn json_member_string(text: Seq<char>, key: Seq<char>) -> Option<
    Option<Option<Seq<char>>>,
>;

/// The string that the JSON text `text` stands for, where it is a JSON string literal.
pub uninterp spec fn json_string_value(text: Seq<char>) -> Option<Seq<char>>;

pub open spec fn opt_view(o: Option<String>) -> Option<Seq<char>> {
    match o {
        Some(s) => Some(s@),
        None => None,
    }
}

pub open spec fn member_view(o: Option<Option<Option<String>>>) -> Option<Option<Option<Seq<char>>>> {
    match o {
        Some(Some(Some(s))) => Some(Some(Some(s@))),
        Some(Some(None)) => Some(Some(None)),
        Some(None) => Some(None),
        None => None,
    }
}

/// Parses `text` with `serde_json::from_str` as a `serde_json::Value` and writes the
/// value back with `serde_json::to_string`. Claimed besides: an object text with one
/// string member, as serde_json writes it, is JSON.
#[verifier::external_body]
pub(crate) fn reserialize(text: &str) -> (r: Option<String>)
    ensures
        opt_view(r) == reserialized_json(text@),
        forall|k: Seq<char>, s: Seq<char>|
            #[trigger] object_with_string_member(k, s) == text@ ==> r is Some,
{
    match serde_json::from_str::<serde_json::Value>(text) {
        Ok(v) => serde_json::to_string(&v).ok(),
        Err(_) => None,
    }
}

/// Parses `text` with `serde_json::from_str` as a `serde_json::Value`, looks the member
/// `key` up with `Value::get` and reads it with `Value::as_str`. Claimed besides, as
/// serde_json's parser and writer show: the parse succeeds exactly where the
/// reserialization does; an object text with one string member, as serde_json writes
/// it, reads back that member; and the reserialization of such an object is again an
/// object whose only member is that one.
#[verifier::external_body]
pub(crate) fn member_string(text: &str, key: &str) -> (r: Option<Option<Option<String>>>)
    ensures
        member_view(r) == json_member_string(text@, key@),
        r is Some <==> reserialized_json(text@) is Some,
        forall|s: Seq<char>|
            #[trigger] object_with_string_member(key@, s) == text@ ==> member_view(r) == Some(
                Some(Some(s)),
            ),
        forall|k: Seq<char>, s: Seq<char>|
            #[trigger] reserialized_json(object_with_string_member(k, s)) == Some(text@)
                ==> member_view(r) == if k == key@ {
                Some(Some(Some(s)))
            } else {
                Some(None)
            },
{
    match serde_json::from_str::<serde_json::Value>(text) {
        Ok(v) => Some(
            match v.get(key) {
                Some(m) => Some(m.as_str().map(String::from)),
                None => None,
            },
        ),
        Err(_) => None,
    }
}

/// Parses `text` with `serde_json::from_str` as a `String`. Claimed besides: the
/// literal serde_json writes for a string reads back as that string.
#[verifier::external_body]
pub(crate) fn string_value(text: &str) -> (r: Option<String>)
    ensures
        opt_view(r) == json_string_value(text@),
        forall|s: Seq<char>| #[trigger] json_string(s) == text@ ==> opt_view(r) == Some(s),
{
    serde_json::from_str::<String>(text).ok()
}

} // verus!
