//! The result of compiling and running a room's code, and the text the terminal shows.
use vstd::prelude::*;
use vstd::string::*;

verus! {

/// What one stream carried in each of the two stages.
pub struct SpecificResponse {
    pub compile: String,
    pub run: String,
}

/// A run's standard error (`errors`) and standard output (`outputs`).
pub struct Res {
    pub errors: SpecificResponse,
    pub outputs: SpecificResponse,
}

pub struct SpecificResponseView {
    pub compile: Seq<char>,
    pub run: Seq<char>,
}

pub struct ResView {
    pub errors: SpecificResponseView,
    pub outputs: SpecificResponseView,
}

impl View for SpecificResponse {
    type V = SpecificResponseView;

    open spec fn view(&self) -> SpecificResponseView {
        SpecificResponseView { compile: self.compile@, run: self.run@ }
    }
}

impl View for Res {
    type V = ResView;

    open spec fn view(&self) -> ResView {
        ResView { errors: self.errors@, outputs: self.outputs@ }
    }
}

/// The terminal text for a run: a compiler message comes first, followed by the
/// run's output; a runtime error shows the partial output and the error; otherwise
/// the output alone.
pub open spec fn message_of(res: ResView) -> Seq<char> {
    let output = "Result:\n"@ + res.outputs.run;
    if res.errors.compile.len() > 0 {
        "Compilation message:\n"@ + res.errors.compile + "\n"@ + output
    } else if res.errors.run.len() > 0 {
        "Partial result:\n"@ + res.outputs.run + "\nRuntime error:\n"@ + res.errors.run
    } else {
        output
    }
}

/// A result with every stream empty.
pub open spec fn empty_res() -> ResView {
    ResView {
        errors: SpecificResponseView { compile: Seq::empty(), run: Seq::empty() },
        outputs: SpecificResponseView { compile: Seq::empty(), run: Seq::empty() },
    }
}

impl SpecificResponse {
    pub fn new(compile: String, run: String) -> (r: SpecificResponse)
        ensures
            r.compile == compile,
            r.run == run,
    {
        SpecificResponse { compile, run }
    }

    /// Both streams empty.
    pub fn empty() -> (r: SpecificResponse)
        ensures
            r@ == (SpecificResponseView { compile: Seq::empty(), run: Seq::empty() }),
    {
        SpecificResponse { compile: String::new(), run: String::new() }
    }
}

impl Res {
    /// A result with every stream empty.
    pub fn empty() -> (r: Res)
        ensures
            r@ == empty_res(),
    {
        Res { errors: SpecificResponse::empty(), outputs: SpecificResponse::empty() }
    }

    /// The text shown in the terminal for this result.
    pub fn to_message(&self) -> (r: String)
        ensures
            r@ == message_of(self@),
    {
        let mut output = String::from_str("Result:\n");
        if !self.outputs.run.as_str().is_empty() {
            output.append(self.outputs.run.as_str());
        }
        if !self.errors.compile.as_str().is_empty() {
            let mut r = String::from_str("Compilation message:\n");
            r.append(self.errors.compile.as_str());
            r.append("\n");
            r.append(output.as_str());
            return r;
        }
        if !self.errors.run.as_str().is_empty() {
            let mut r = String::from_str("Partial result:\n");
            r.append(self.outputs.run.as_str());
            r.append("\nRuntime error:\n");
            r.append(self.errors.run.as_str());
            return r;
        }
        output
    }
}

} // verus!

verus! {

/// Whether `part` occurs in `s` as a contiguous run of characters.
pub open spec fn occurs_in(part: Seq<char>, s: Seq<char>) -> bool {
    exists|i: int| 0 <= i && i + part.len() <= s.len() && #[trigger] s.subrange(i, i + part.len()) == part
}

/// Whatever the run gave, the terminal text shows the program's output in full.
pub proof fn lemma_message_shows_run_output(res: ResView)
    ensures
        occurs_in(res.outputs.run, message_of(res)),
{
    let m = message_of(res);
    let r = res.outputs.run;
    if res.errors.compile.len() == 0 && res.errors.run.len() > 0 {
        reveal_strlit("Partial result:\n");
        let i: int = "Partial result:\n"@.len() as int;
        assert(m.subrange(i, i + r.len()) =~= r);
    } else {
        let i: int = m.len() - r.len();
        assert(m.subrange(i, i + r.len()) =~= r);
    }
}

} // verus!
