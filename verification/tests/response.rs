use collabrustator::response::{Res, SpecificResponse};

fn res(compile_err: &str, run_err: &str, compile_out: &str, run_out: &str) -> Res {
    Res {
        errors: SpecificResponse::new(compile_err.to_string(), run_err.to_string()),
        outputs: SpecificResponse::new(compile_out.to_string(), run_out.to_string()),
    }
}

#[test]
fn message_of_a_clean_run_is_its_output() {
    assert_eq!(res("", "", "", "hello\n").to_message(), "Result:\nhello\n");
}

#[test]
fn message_of_an_empty_result() {
    assert_eq!(Res::empty().to_message(), "Result:\n");
}

#[test]
fn compiler_message_comes_first() {
    assert_eq!(
        res("warning: unused", "", "", "42").to_message(),
        "Compilation message:\nwarning: unused\nResult:\n42"
    );
}

#[test]
fn compiler_error_without_output() {
    assert_eq!(
        res("error[E0425]", "", "", "").to_message(),
        "Compilation message:\nerror[E0425]\nResult:\n"
    );
}

#[test]
fn runtime_error_shows_partial_output() {
    assert_eq!(
        res("", "thread 'main' panicked", "", "1\n2\n").to_message(),
        "Partial result:\n1\n2\n\nRuntime error:\nthread 'main' panicked"
    );
}

#[test]
fn compiler_message_wins_over_runtime_error() {
    assert_eq!(
        res("note", "boom", "", "out").to_message(),
        "Compilation message:\nnote\nResult:\nout"
    );
}
