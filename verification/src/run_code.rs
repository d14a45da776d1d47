//! Running a room's code: the shell commands that save, compile, run and remove it,
//! and the result that is sent back.
use crate::response::{Res, ResView, SpecificResponse, SpecificResponseView};
use crate::text::{lemma_replace_char_front, replace_char, replace_char_spec};
use vstd::prelude::*;
use vstd::string::*;

verus! {

/// The body of a run request: the source text to compile and run.
pub struct Code {
    pub code: String,
}

/// The exit status `timeout` gives a program that it stopped.
pub const TIMED_OUT_STATUS: i32 = 124;

/// `s` as one shell word in single quotes: each `'` of `s` closes the quotes, stands
/// escaped, and opens them again.
pub open spec fn sh_single_quoted(s: Seq<char>) -> Seq<char> {
    "'"@ + replace_char_spec(s, '\'', "'\\''"@) + "'"@
}

/// The value the POSIX shell gives a word made only of single-quoted parts and
/// backslash-escaped characters (`quoted` says whether the text starts inside single
/// quotes); `None` for any other text, one holding a character the shell would
/// interpret, or an unclosed quote.
pub open spec fn sh_word_value(t: Seq<char>, quoted: bool) -> Option<Seq<char>>
    decreases t.len(),
{
    if t.len() == 0 {
        if quoted {
            None
        } else {
            Some(Seq::empty())
        }
    } else if quoted {
        if t[0] == '\'' {
            sh_word_value(t.drop_first(), false)
        } else {
            match sh_word_value(t.drop_first(), true) {
                Some(v) => Some(seq![t[0]] + v),
                None => None,
            }
        }
    } else if t[0] == '\'' {
        sh_word_value(t.drop_first(), true)
    } else if t[0] == '\\' && t.len() >= 2 {
        match sh_word_value(t.skip(2), false) {
            Some(v) => Some(seq![t[1]] + v),
            None => None,
        }
    } else {
        None
    }
}

proof fn lemma_escaped_reads_back(s: Seq<char>, tail: Seq<char>)
    ensures
        sh_word_value(replace_char_spec(s, '\'', "'\\''"@) + tail, true) == match sh_word_value(
            tail,
            true,
        ) {
            Some(v) => Some(s + v),
            None => None,
        },
    decreases s.len(),
{
    let q = "'\\''"@;
    if s.len() == 0 {
        assert(replace_char_spec(s, '\'', q) =~= Seq::<char>::empty());
        assert(Seq::<char>::empty() + tail =~= tail);
        assert(s + Seq::<char>::empty() =~= Seq::<char>::empty());
        match sh_word_value(tail, true) {
            Some(v) => {
                assert(s + v =~= v);
            },
            None => {},
        }
    } else {
        let c = s[0];
        let rest = s.drop_first();
        assert(s =~= seq![c] + rest);
        lemma_replace_char_front(c, rest, '\'', q);
        lemma_escaped_reads_back(rest, tail);
        let x = replace_char_spec(rest, '\'', q) + tail;
        if c == '\'' {
            reveal_strlit("'\\''");
            let t = q + x;
            assert(replace_char_spec(s, '\'', q) + tail =~= t);
            let t1 = t.drop_first();
            assert(t1 =~= seq!['\\', '\'', '\''] + x);
            let t2 = t1.skip(2);
            assert(t2 =~= seq!['\''] + x);
            assert(t2.drop_first() =~= x);
            assert(sh_word_value(t2, false) == sh_word_value(x, true));
            assert(sh_word_value(t1, false) == match sh_word_value(t2, false) {
                Some(v) => Some(seq!['\''] + v),
                None => None,
            });
            assert(sh_word_value(t, true) == sh_word_value(t1, false));
        } else {
            let t = seq![c] + x;
            assert(replace_char_spec(s, '\'', q) + tail =~= t);
            assert(t.drop_first() =~= x);
        }
        match sh_word_value(tail, true) {
            Some(v) => {
                assert(seq![c] + (rest + v) =~= s + v);
            },
            None => {},
        }
    }
}

/// The shell reads the quoted code back as exactly the code: no character of it is
/// expanded, substituted or run.
pub proof fn lemma_quoted_code_reads_back(code: Seq<char>)
    ensures
        sh_word_value(sh_single_quoted(code), false) == Some(code),
{
    reveal_strlit("'");
    let q = "'\\''"@;
    let e = replace_char_spec(code, '\'', q);
    let t = sh_single_quoted(code);
    assert("'"@ =~= seq!['\'']);
    assert(t[0] == '\'');
    assert(t.drop_first() =~= e + seq!['\'']);
    lemma_escaped_reads_back(code, seq!['\'']);
    assert(seq!['\''].drop_first() =~= Seq::<char>::empty());
    assert(sh_word_value(Seq::<char>::empty(), false) == Some(Seq::<char>::empty()));
    assert(sh_word_value(seq!['\''], true) == Some(Seq::<char>::empty()));
    assert(code + Seq::<char>::empty() =~= code);
    assert(sh_word_value(t, false) == sh_word_value(t.drop_first(), true));
}

/// `printf '%s\n' <quoted code> > <key>.in`: the file `<key>.in` gets the code and a
/// line feed, the code passed to `printf` as one single-quoted word.
pub open spec fn save_source_command_spec(key: Seq<char>, code: Seq<char>) -> Seq<char> {
    "printf '%s\\n' "@ + sh_single_quoted(code) + " > "@ + key + ".in"@
}

/// A character that a room key may hold: an ASCII letter or digit, or `-`.
pub open spec fn is_key_char(c: char) -> bool {
    ('a' as int <= c as int <= 'z' as int) || ('A' as int <= c as int <= 'Z' as int) || (
    '0' as int <= c as int <= '9' as int) || c == '-'
}

/// A room key such as the ids that rooms get: letters, digits and hyphens.
pub open spec fn is_room_key(k: Seq<char>) -> bool {
    &&& k.len() > 0
    &&& forall|i: int| 0 <= i < k.len() ==> is_key_char(#[trigger] k[i])
}

/// The files a run for `key` writes, reads and removes: the source and the program.
pub open spec fn run_files(key: Seq<char>) -> Set<Seq<char>> {
    set![key + ".in"@, key]
}

/// Runs for two different room keys share no file, so they can go on at once.
pub proof fn lemma_runs_share_no_file(k1: Seq<char>, k2: Seq<char>)
    requires
        is_room_key(k1),
        is_room_key(k2),
        k1 != k2,
    ensures
        run_files(k1).disjoint(run_files(k2)),
{
    reveal_strlit(".in");
    let s = ".in"@;
    if k1 + s == k2 + s {
        assert(k1 =~= (k1 + s).subrange(0, k1.len() as int));
        assert(k2 =~= (k2 + s).subrange(0, k2.len() as int));
    }
    if k1 + s == k2 {
        assert(k2[k1.len() as int] == (k1 + s)[k1.len() as int]);
        assert(!is_key_char(k2[k1.len() as int]));
    }
    if k1 == k2 + s {
        assert(k1[k2.len() as int] == (k2 + s)[k2.len() as int]);
        assert(!is_key_char(k1[k2.len() as int]));
    }
    assert(k1 + s != k2 + s);
    assert(k1 + s != k2);
    assert(k1 != k2 + s);
    assert forall|x: Seq<char>| run_files(k1).contains(x) implies !run_files(k2).contains(x) by {}
    assert(run_files(k1).disjoint(run_files(k2)));
}

/// `rustc <key>.in`
pub open spec fn compile_command_spec(key: Seq<char>) -> Seq<char> {
    "rustc "@ + key + ".in"@
}

/// `timeout 10 ./<key>`: the program runs for at most ten seconds.
pub open spec fn run_command_spec(key: Seq<char>) -> Seq<char> {
    "timeout 10 ./"@ + key
}

/// `rm <key>.in; rm <key>`
pub open spec fn cleanup_command_spec(key: Seq<char>) -> Seq<char> {
    "rm "@ + key + ".in; rm "@ + key
}

/// Whether the run's exit status says that `timeout` stopped it (a missing status
/// counts as 0).
pub open spec fn timed_out(status: Option<i32>) -> bool {
    match status {
        Some(s) => s == TIMED_OUT_STATUS,
        None => false,
    }
}

/// The run result for the four captured streams: the run's error stream gets the
/// line `Timed out` where the time limit stopped the program.
pub open spec fn execution_result_spec(
    compile_stdout: Seq<char>,
    compile_stderr: Seq<char>,
    run_stdout: Seq<char>,
    run_stderr: Seq<char>,
    run_status: Option<i32>,
) -> ResView {
    ResView {
        errors: SpecificResponseView {
            compile: compile_stderr,
            run: if timed_out(run_status) {
                run_stderr + "\nTimed out"@
            } else {
                run_stderr
            },
        },
        outputs: SpecificResponseView { compile: compile_stdout, run: run_stdout },
    }
}

/// Only the status 124 marks a run as stopped by the time limit: the run's error
/// stream gets the line `Timed out` exactly then, and is passed on unchanged for every
/// other status and for a missing one; the other three streams are always passed on
/// unchanged.
pub proof fn lemma_only_status_124_times_out(
    compile_stdout: Seq<char>,
    compile_stderr: Seq<char>,
    run_stdout: Seq<char>,
    run_stderr: Seq<char>,
    run_status: Option<i32>,
)
    ensures
        ({
            let r = execution_result_spec(
                compile_stdout,
                compile_stderr,
                run_stdout,
                run_stderr,
                run_status,
            );
            &&& r.errors.compile == compile_stderr
            &&& r.outputs.compile == compile_stdout
            &&& r.outputs.run == run_stdout
            &&& run_status == Some(124i32) ==> r.errors.run == run_stderr + "\nTimed out"@
            &&& run_status != Some(124i32) ==> r.errors.run == run_stderr
        }),
{
}

impl Code {
    pub fn new(code: String) -> (r: Code)
        ensures
            r.code == code,
    {
        Code { code }
    }
}

pub fn save_source_command(key: &str, code: &Code) -> (r: String)
    ensures
        r@ == save_source_command_spec(key@, code.code@),
{
    let escaped = replace_char(code.code.as_str(), '\'', "'\\''");
    let mut r = String::from_str("printf '%s\\n' ");
    r.append("'");
    r.append(escaped.as_str());
    r.append("'");
    r.append(" > ");
    r.append(key);
    r.append(".in");
    r
}

pub fn compile_command(key: &str) -> (r: String)
    ensures
        r@ == compile_command_spec(key@),
{
    let mut r = String::from_str("rustc ");
    r.append(key);
    r.append(".in");
    r
}

pub fn run_command(key: &str) -> (r: String)
    ensures
        r@ == run_command_spec(key@),
{
    let mut r = String::from_str("timeout 10 ./");
    r.append(key);
    r
}

pub fn cleanup_command(key: &str) -> (r: String)
    ensures
        r@ == cleanup_command_spec(key@),
{
    let mut r = String::from_str("rm ");
    r.append(key);
    r.append(".in; rm ");
    r.append(key);
    r
}

pub fn execution_result(
    compile_stdout: String,
    compile_stderr: String,
    run_stdout: String,
    run_stderr: String,
    run_status: Option<i32>,
) -> (r: Res)
    ensures
        r@ == execution_result_spec(
            compile_stdout@,
            compile_stderr@,
            run_stdout@,
            run_stderr@,
            run_status,
        ),
{
    let status = match run_status {
        Some(s) => s,
        None => 0,
    };
    let mut run_errors = run_stderr;
    if status == TIMED_OUT_STATUS {
        run_errors.append("\nTimed out");
    }
    Res {
        errors: SpecificResponse { compile: compile_stderr, run: run_errors },
        outputs: SpecificResponse { compile: compile_stdout, run: run_stdout },
    }
}

} // verus!
