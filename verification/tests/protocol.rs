use collabrustator::json::quote;
use collabrustator::protocol::{
    code_message, code_request_body, execution_response_message, start_running_message,
};
use collabrustator::response::{Res, SpecificResponse};
use serde_json::Value;

fn object(members: Vec<(&str, Value)>) -> Value {
    let mut m = serde_json::Map::new();
    for (k, v) in members {
        m.insert(k.to_string(), v);
    }
    Value::Object(m)
}

#[test]
fn quote_escapes_like_json() {
    assert_eq!(quote("a\"b\\c\n\t\u{1}é"), "\"a\\\"b\\\\c\\n\\t\\u0001é\"");
    assert_eq!(quote(""), "\"\"");
}

#[test]
fn code_message_is_serde_json_text() {
    let content = "fn main() {\n    println!(\"hi\");\n}\n";
    let expected =
        serde_json::to_string(&object(vec![("code", Value::String(content.to_string()))])).unwrap();
    assert_eq!(code_message(content), expected);
    assert_eq!(code_message("x"), "{\"code\":\"x\"}");
}

#[test]
fn start_running_message_text() {
    assert_eq!(start_running_message(), "{\"start_running\":true}");
    let expected = serde_json::to_string(&object(vec![("start_running", Value::Bool(true))])).unwrap();
    assert_eq!(start_running_message(), expected);
}

#[test]
fn execution_response_message_is_serde_json_text() {
    let res = Res {
        errors: SpecificResponse::new("warn\n".to_string(), "".to_string()),
        outputs: SpecificResponse::new("".to_string(), "Hello \"x\"".to_string()),
    };
    let inner = object(vec![
        (
            "errors",
            object(vec![
                ("compile", Value::String("warn\n".to_string())),
                ("run", Value::String(String::new())),
            ]),
        ),
        (
            "outputs",
            object(vec![
                ("compile", Value::String(String::new())),
                ("run", Value::String("Hello \"x\"".to_string())),
            ]),
        ),
    ]);
    let expected = serde_json::to_string(&object(vec![("execution_response", inner)])).unwrap();
    assert_eq!(execution_response_message(&res), expected);
}

#[test]
fn code_request_body_carries_the_code_unchanged() {
    let code = "// comment\nfn main() {\n    let s = \"x\\n\";\n    println!(\"{}\", s);\n}\n";
    let body = code_request_body(code);
    assert!(!body.contains('\n'));
    let parsed: Value = serde_json::from_str(&body).unwrap();
    assert_eq!(parsed.get("code").and_then(|c| c.as_str()), Some(code));
    assert_eq!(code_request_body(""), "{\"code\":\"\"}");
}
