//! The JSON messages that the members of a room exchange through the relay, and the
//! body of a run request.
use crate::json::{
    json_escape_char, json_escaped, json_string, lemma_json_string_prefix,
    object_with_string_member, quote,
};
use crate::response::{Res, ResView, SpecificResponse, SpecificResponseView};
use crate::text::{lemma_newline_count_concat, lemma_no_newline_chars, newline_count};
use vstd::prelude::*;
use vstd::string::*;

verus! {

/// `{"code":<content>}`, the message that shares an edit.
pub open spec fn code_message_spec(content: Seq<char>) -> Seq<char> {
    object_with_string_member("code"@, content)
}

/// `{"start_running":true}`, the message that tells a room a run has started.
pub open spec fn start_running_message_spec() -> Seq<char> {
    "{\"start_running\":true}"@
}

/// The object for one run stream pair, with its members in serde_json's key order.
pub open spec fn specific_json(r: SpecificResponseView) -> Seq<char> {
    "{\"compile\":"@ + json_string(r.compile) + ",\"run\":"@ + json_string(r.run) + "}"@
}

/// `{"execution_response":{"errors":...,"outputs":...}}`, the message that shares a
/// run result.
pub open spec fn execution_response_message_spec(res: ResView) -> Seq<char> {
    "{\"execution_response\":{\"errors\":"@ + specific_json(res.errors) + ",\"outputs\":"@
        + specific_json(res.outputs) + "}}"@
}

/// The body of the request that runs `code`: a JSON object whose member "code" holds
/// the code unchanged.
pub open spec fn code_request_body_spec(code: Seq<char>) -> Seq<char> {
    object_with_string_member("code"@, code)
}

/// serde_json writes no line feed inside a string literal.
proof fn lemma_escape_one_line(c: char)
    ensures
        newline_count(json_escape_char(c)) == 0,
{
    let e = json_escape_char(c);
    assert forall|i: int| 0 <= i < e.len() implies e[i] != '\n' by {
        if (c as int) < 0x20 && c != '\x08' && c != '\t' && c != '\n' && c != '\x0c' && c != '\r' {
            assert(0 <= (c as int) / 16 < 16);
            assert(0 <= (c as int) % 16 < 16);
        }
    }
    lemma_no_newline_chars(e);
}

/// A JSON string literal is one line, whatever the string holds.
pub proof fn lemma_json_string_one_line(s: Seq<char>)
    ensures
        newline_count(json_string(s)) == 0,
{
    lemma_escaped_one_line(s);
    lemma_no_newline_chars(seq!['"']);
    lemma_newline_count_concat(seq!['"'], json_escaped(s));
    lemma_newline_count_concat(seq!['"'] + json_escaped(s), seq!['"']);
}

proof fn lemma_escaped_one_line(s: Seq<char>)
    ensures
        newline_count(json_escaped(s)) == 0,
    decreases s.len(),
{
    if s.len() > 0 {
        lemma_escaped_one_line(s.drop_last());
        lemma_escape_one_line(s.last());
        lemma_newline_count_concat(json_escaped(s.drop_last()), json_escape_char(s.last()));
    }
}

/// A run request's body is always a single line, whatever the code holds: its line
/// feeds travel escaped.
pub proof fn lemma_code_request_body_one_line(code: Seq<char>)
    ensures
        newline_count(code_request_body_spec(code)) == 0,
{
    reveal_strlit("{");
    reveal_strlit(":");
    reveal_strlit("}");
    reveal_strlit("code");
    lemma_no_newline_chars("{"@);
    lemma_no_newline_chars(":"@);
    lemma_no_newline_chars("}"@);
    lemma_json_string_one_line("code"@);
    lemma_json_string_one_line(code);
    let a = "{"@;
    let b = json_string("code"@);
    let c = ":"@;
    let d = json_string(code);
    lemma_newline_count_concat(a, b);
    lemma_newline_count_concat(a + b, c);
    lemma_newline_count_concat(a + b + c, d);
    lemma_newline_count_concat(a + b + c + d, "}"@);
}

/// Equal texts with a common start are equal after it.
proof fn lemma_cancel_prefix(p: Seq<char>, x: Seq<char>, y: Seq<char>)
    requires
        p + x == p + y,
    ensures
        x == y,
{
    assert(x =~= (p + x).subrange(p.len() as int, (p + x).len() as int));
    assert(y =~= (p + y).subrange(p.len() as int, (p + y).len() as int));
}

/// A stream pair's object followed by anything is read back unambiguously.
proof fn lemma_specific_json_prefix(
    s1: SpecificResponseView,
    s2: SpecificResponseView,
    t1: Seq<char>,
    t2: Seq<char>,
)
    requires
        specific_json(s1) + t1 == specific_json(s2) + t2,
    ensures
        s1 == s2,
        t1 == t2,
{
    let h = "{\"compile\":"@;
    let b = ",\"run\":"@;
    let z = "}"@;
    assert(specific_json(s1) + t1 =~= h + (json_string(s1.compile) + (b + (json_string(s1.run) + (z
        + t1)))));
    assert(specific_json(s2) + t2 =~= h + (json_string(s2.compile) + (b + (json_string(s2.run) + (z
        + t2)))));
    lemma_cancel_prefix(
        h,
        json_string(s1.compile) + (b + (json_string(s1.run) + (z + t1))),
        json_string(s2.compile) + (b + (json_string(s2.run) + (z + t2))),
    );
    lemma_json_string_prefix(
        s1.compile,
        s2.compile,
        b + (json_string(s1.run) + (z + t1)),
        b + (json_string(s2.run) + (z + t2)),
    );
    lemma_cancel_prefix(b, json_string(s1.run) + (z + t1), json_string(s2.run) + (z + t2));
    lemma_json_string_prefix(s1.run, s2.run, z + t1, z + t2);
    lemma_cancel_prefix(z, t1, t2);
}

/// The shared-result message loses nothing of the result: two results with the same
/// message are the same result, each of the four streams in its own place.
pub proof fn lemma_execution_response_message_injective(r1: ResView, r2: ResView)
    requires
        execution_response_message_spec(r1) == execution_response_message_spec(r2),
    ensures
        r1 == r2,
{
    let h = "{\"execution_response\":{\"errors\":"@;
    let o = ",\"outputs\":"@;
    let e = "}}"@;
    assert(execution_response_message_spec(r1) =~= h + (specific_json(r1.errors) + (o + (
    specific_json(r1.outputs) + e))));
    assert(execution_response_message_spec(r2) =~= h + (specific_json(r2.errors) + (o + (
    specific_json(r2.outputs) + e))));
    lemma_cancel_prefix(
        h,
        specific_json(r1.errors) + (o + (specific_json(r1.outputs) + e)),
        specific_json(r2.errors) + (o + (specific_json(r2.outputs) + e)),
    );
    lemma_specific_json_prefix(
        r1.errors,
        r2.errors,
        o + (specific_json(r1.outputs) + e),
        o + (specific_json(r2.outputs) + e),
    );
    lemma_cancel_prefix(o, specific_json(r1.outputs) + e, specific_json(r2.outputs) + e);
    lemma_specific_json_prefix(r1.outputs, r2.outputs, e, e);
}

/// Each stream of a shared result stands under its own keys: the "compile" and "run"
/// members of the "errors" object hold the error streams, those of the "outputs"
/// object the output streams, each as its JSON string literal.
pub proof fn lemma_execution_response_members(res: ResView)
    ensures
        exists|p: Seq<char>, q: Seq<char>|
            execution_response_message_spec(res) == p + "\"errors\":{\"compile\":"@ + json_string(
                res.errors.compile,
            ) + ",\"run\":"@ + json_string(res.errors.run) + q,
        exists|p: Seq<char>, q: Seq<char>|
            execution_response_message_spec(res) == p + "\"outputs\":{\"compile\":"@ + json_string(
                res.outputs.compile,
            ) + ",\"run\":"@ + json_string(res.outputs.run) + q,
{
    reveal_strlit("{\"execution_response\":{\"errors\":");
    reveal_strlit("{\"compile\":");
    reveal_strlit(",\"run\":");
    reveal_strlit("}");
    reveal_strlit(",\"outputs\":");
    reveal_strlit("}}");
    reveal_strlit("\"errors\":{\"compile\":");
    reveal_strlit("\"outputs\":{\"compile\":");
    let m = execution_response_message_spec(res);
    let p1 = seq!['{', '"', 'e', 'x', 'e', 'c', 'u', 't', 'i', 'o', 'n', '_', 'r', 'e', 's', 'p', 'o', 'n', 's', 'e', '"', ':', '{'];
    let q1 = "}"@ + ",\"outputs\":"@ + specific_json(res.outputs) + "}}"@;
    assert(m =~= p1 + "\"errors\":{\"compile\":"@ + json_string(res.errors.compile) + ",\"run\":"@
        + json_string(res.errors.run) + q1);
    let p2 = "{\"execution_response\":{\"errors\":"@ + specific_json(res.errors) + seq![','];
    let q2 = "}"@ + "}}"@;
    assert(m =~= p2 + "\"outputs\":{\"compile\":"@ + json_string(res.outputs.compile) + ",\"run\":"@
        + json_string(res.outputs.run) + q2);
}

/// The edit message loses nothing of the edit: two edits with the same message are the
/// same text.
pub proof fn lemma_code_message_injective(c1: Seq<char>, c2: Seq<char>)
    requires
        code_message_spec(c1) == code_message_spec(c2),
    ensures
        c1 == c2,
{
    let p = "{"@ + json_string("code"@) + ":"@;
    assert(code_message_spec(c1) =~= p + (json_string(c1) + "}"@));
    assert(code_message_spec(c2) =~= p + (json_string(c2) + "}"@));
    lemma_cancel_prefix(p, json_string(c1) + "}"@, json_string(c2) + "}"@);
    lemma_json_string_prefix(c1, c2, "}"@, "}"@);
}

/// The run request carries the code unchanged: two codes with the same request body are
/// the same text.
pub proof fn lemma_code_request_body_injective(c1: Seq<char>, c2: Seq<char>)
    requires
        code_request_body_spec(c1) == code_request_body_spec(c2),
    ensures
        c1 == c2,
{
    lemma_code_message_injective(c1, c2);
}

/// The text of the object with the one string member `key` holding `value`.
pub fn object_with_member(key: &str, value: &str) -> (r: String)
    ensures
        r@ == object_with_string_member(key@, value@),
{
    let mut r = String::from_str("{");
    let k = quote(key);
    r.append(k.as_str());
    r.append(":");
    let v = quote(value);
    r.append(v.as_str());
    r.append("}");
    r
}

pub fn code_message(content: &str) -> (r: String)
    ensures
        r@ == code_message_spec(content@),
{
    object_with_member("code", content)
}

pub fn start_running_message() -> (r: String)
    ensures
        r@ == start_running_message_spec(),
{
    String::from_str("{\"start_running\":true}")
}

fn specific_to_json(s: &SpecificResponse) -> (r: String)
    ensures
        r@ == specific_json(s@),
{
    let mut r = String::from_str("{\"compile\":");
    let q = quote(s.compile.as_str());
    r.append(q.as_str());
    r.append(",\"run\":");
    let q = quote(s.run.as_str());
    r.append(q.as_str());
    r.append("}");
    r
}

pub fn execution_response_message(res: &Res) -> (r: String)
    ensures
        r@ == execution_response_message_spec(res@),
{
    let mut r = String::from_str("{\"execution_response\":{\"errors\":");
    let e = specific_to_json(&res.errors);
    r.append(e.as_str());
    r.append(",\"outputs\":");
    let o = specific_to_json(&res.outputs);
    r.append(o.as_str());
    r.append("}}");
    r
}

pub fn code_request_body(code: &str) -> (r: String)
    ensures
        r@ == code_request_body_spec(code@),
{
    object_with_member("code", code)
}

} // verus!
