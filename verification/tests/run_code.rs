use collabrustator::run_code::{
    cleanup_command, compile_command, execution_result, run_command, save_source_command, Code,
    TIMED_OUT_STATUS,
};

#[test]
fn commands_for_a_room() {
    let code = Code::new("fn main() { println!(\"hi\"); }".to_string());
    assert_eq!(
        save_source_command("abc", &code),
        "printf '%s\\n' 'fn main() { println!(\"hi\"); }' > abc.in"
    );
    assert_eq!(compile_command("abc"), "rustc abc.in");
    assert_eq!(run_command("abc"), "timeout 10 ./abc");
    assert_eq!(cleanup_command("abc"), "rm abc.in; rm abc");
}

#[test]
fn save_command_quotes_the_code_for_the_shell() {
    let code = Code::new("let c = '$';\nlet s = \"$(id) `x` \\n\";".to_string());
    assert_eq!(
        save_source_command("k", &code),
        "printf '%s\\n' 'let c = '\\''$'\\'';\nlet s = \"$(id) `x` \\n\";' > k.in"
    );
}

#[test]
fn timed_out_run_says_so() {
    let r = execution_result(
        String::new(),
        String::new(),
        "partial".to_string(),
        "".to_string(),
        Some(TIMED_OUT_STATUS),
    );
    assert_eq!(r.errors.run, "\nTimed out");
    assert_eq!(r.outputs.run, "partial");
    assert_eq!(r.to_message(), "Partial result:\npartial\nRuntime error:\n\nTimed out");
}

#[test]
fn ordinary_exit_codes_are_not_timeouts() {
    for status in [Some(0), Some(1), Some(101), None] {
        let r = execution_result(
            "c_out".to_string(),
            "c_err".to_string(),
            "r_out".to_string(),
            "r_err".to_string(),
            status,
        );
        assert_eq!(r.errors.compile, "c_err");
        assert_eq!(r.errors.run, "r_err");
        assert_eq!(r.outputs.compile, "c_out");
        assert_eq!(r.outputs.run, "r_out");
    }
}

fn message(compile_err: &str, run_out: &str, run_err: &str, status: Option<i32>) -> String {
    execution_result(String::new(), compile_err.to_string(), run_out.to_string(), run_err.to_string(), status)
        .to_message()
}

#[test]
fn printing_program_shows_its_output() {
    assert_eq!(message("", "abc\n", "", Some(0)), "Result:\nabc\n");
}

#[test]
fn compile_error_shows_the_compiler_explanation() {
    let err = "error[E0423]: expected function, found macro `println`";
    assert_eq!(
        message(err, "", "sh: 1: ./k: not found", Some(127)),
        format!("Compilation message:\n{}\nResult:\n", err)
    );
}

#[test]
fn warning_shows_with_the_result() {
    let warn = "warning: unused variable: `a`";
    assert_eq!(message(warn, "abc\n", "", Some(0)), format!("Compilation message:\n{}\nResult:\nabc\n", warn));
}

#[test]
fn endless_loop_times_out() {
    assert_eq!(message("", "", "", Some(124)), "Partial result:\n\nRuntime error:\n\nTimed out");
}

#[test]
fn panic_is_a_runtime_error() {
    let panic = "thread 'main' panicked at 'attempt to divide by zero'";
    assert_eq!(message("", "", panic, Some(101)), format!("Partial result:\n\nRuntime error:\n{}", panic));
}
