use collabrustator::message::Msg;
use collabrustator::protocol::code_message;
use collabrustator::relay::relay_message;
use collabrustator::response::{Res, SpecificResponse};
use collabrustator::room::{
    code_fetch_url, code_post_url, event_message, incoming_frame, line_numbers, on_keydown,
    socket_status_message, ws_room_url, Effect, Highlighter, PageEvent, Props, Room,
    TAB_KEYCODE,
};

fn highlighter() -> Highlighter {
    Highlighter::rust().expect("the bundled Rust syntax and theme")
}

fn props() -> Props {
    Props { id: "room-7".to_string() }
}

fn res(run: &str) -> Res {
    Res {
        errors: SpecificResponse::new(String::new(), String::new()),
        outputs: SpecificResponse::new(String::new(), run.to_string()),
    }
}

#[test]
fn unknown_highlighter_names_give_none() {
    assert!(Highlighter::new("rs", "no such theme").is_none());
    assert!(Highlighter::new("no-such-extension", "base16-ocean.dark").is_none());
}

#[test]
fn a_new_room_renders_one_line() {
    let h = highlighter();
    let (room, _) = Room::create(&h, &props(), "http://x").ok().unwrap();
    assert_eq!(room.code(), "\n");
    assert!(room.html().starts_with("<pre style=\"background-color:#"));
    assert!(room.html().ends_with("</pre>\n"));
    assert_eq!(room.line_numbers(), vec![1]);
    assert_eq!(room.cursor(), 0);
    assert_eq!(room.response().to_message(), "Result:\n");
}

#[test]
fn set_content_renders_the_code() {
    let h = highlighter();
    let (mut room, _) = Room::create(&h, &props(), "http://x").ok().unwrap();
    let step = room
        .update(Msg::SetContent("fn main() {\n}".to_string()), &props(), "http://x", &h)
        .ok()
        .unwrap();
    assert!(step.rerender);
    assert!(step.effects.is_empty());
    assert_eq!(room.code(), "fn main() {\n}");
    assert_eq!(room.line_numbers(), vec![1, 2]);
    assert!(room.html().contains("main"));
}

#[test]
fn an_edit_is_shared_then_shown() {
    let h = highlighter();
    let (mut room, _) = Room::create(&h, &props(), "http://x").ok().unwrap();
    let step = room
        .update(Msg::InputChange("let x = 1;".to_string(), 10), &props(), "http://x", &h)
        .ok()
        .unwrap();
    assert!(!step.rerender);
    assert_eq!(room.cursor(), 10);
    assert_eq!(room.code(), "\n");
    assert_eq!(step.effects.len(), 2);
    match &step.effects[0] {
        Effect::SendToRoom(t) => assert_eq!(t, "{\"code\":\"let x = 1;\"}"),
        _ => panic!("the edit goes to the room first"),
    }
    match &step.effects[1] {
        Effect::Dispatch(Msg::SetContent(t)) => assert_eq!(t, "let x = 1;"),
        _ => panic!("then the page shows it"),
    }
}

#[test]
fn a_run_request_announces_and_posts_the_code() {
    let h = highlighter();
    let (mut room, _) = Room::create(&h, &props(), "http://x").ok().unwrap();
    room.update(Msg::SetContent("println!(\"a\");\nx".to_string()), &props(), "", &h)
        .ok()
        .unwrap();
    let step = room.update(Msg::SendCode, &props(), "https://site", &h).ok().unwrap();
    assert!(step.rerender);
    assert_eq!(step.effects.len(), 3);
    match &step.effects[0] {
        Effect::SendToRoom(t) => assert_eq!(t, "{\"start_running\":true}"),
        _ => panic!("the room hears that a run started"),
    }
    match &step.effects[1] {
        Effect::Dispatch(Msg::SetResponse(r)) => {
            assert_eq!(r.outputs.run, "Compiling/Running...");
            assert_eq!(r.errors.compile, "");
            assert_eq!(r.errors.run, "");
            assert_eq!(r.outputs.compile, "");
        }
        _ => panic!("the page shows that the run is under way"),
    }
    match &step.effects[2] {
        Effect::PostCode { url, body } => {
            assert_eq!(url, "https://site/mysite/api/code/room-7");
            assert_eq!(body, "{\"code\":\"println!(\\\"a\\\");\\nx\"}");
        }
        _ => panic!("the code goes to the runner"),
    }
}

#[test]
fn a_result_is_shared_unless_it_came_from_the_room() {
    let h = highlighter();
    let (mut room, _) = Room::create(&h, &props(), "http://x").ok().unwrap();
    let step = room.update(Msg::SetResponse(res("out")), &props(), "", &h).ok().unwrap();
    assert_eq!(room.response().outputs.run, "out");
    assert_eq!(step.effects.len(), 1);
    match &step.effects[0] {
        Effect::SendToRoom(t) => assert_eq!(
            t,
            "{\"execution_response\":{\"errors\":{\"compile\":\"\",\"run\":\"\"},\"outputs\":{\"compile\":\"\",\"run\":\"out\"}}}"
        ),
        _ => panic!("the result goes to the room"),
    }
    let step = room.update(Msg::SetResponseNoWs(res("other")), &props(), "", &h).ok().unwrap();
    assert!(step.rerender && step.effects.is_empty());
    assert_eq!(room.response().outputs.run, "other");
}

#[test]
fn the_page_introduces_itself_once_connected() {
    let h = highlighter();
    let (mut room, _) = Room::create(&h, &props(), "http://x").ok().unwrap();
    assert!(matches!(socket_status_message(true), Msg::SendMyId));
    assert!(matches!(socket_status_message(false), Msg::Empty));
    let step = room.update(Msg::SendMyId, &props(), "", &h).ok().unwrap();
    assert!(!step.rerender);
    match &step.effects[..] {
        [Effect::SendToRoom(t)] => assert_eq!(t, "room-7"),
        _ => panic!("the room id goes to the room"),
    }
    let step = room.update(Msg::Empty, &props(), "", &h).ok().unwrap();
    assert!(!step.rerender && step.effects.is_empty());
}

fn frame(inner: &str) -> String {
    serde_json::to_string(inner).unwrap()
}

#[test]
fn frames_from_the_room_become_messages() {
    let code = frame("{\"code\":\"abc\",\"start_running\":true}");
    assert!(matches!(incoming_frame(&code, None), Some(Msg::SetContent(t)) if t == "abc"));
    let start = frame("{\"start_running\":true,\"execution_response\":{}}");
    assert!(matches!(incoming_frame(&start, None), Some(Msg::Empty)));
    let result = frame("{\"execution_response\":{}}");
    assert!(matches!(incoming_frame(&result, Some(res("x"))), Some(Msg::SetResponseNoWs(r)) if r.outputs.run == "x"));
    assert!(incoming_frame(&result, None).is_none());
    assert!(matches!(incoming_frame(&frame("{\"other\":1}"), None), Some(Msg::Empty)));
    assert!(incoming_frame(&frame("{\"code\":7}"), None).is_none());
    assert!(incoming_frame(&frame("not json"), None).is_none());
    assert!(incoming_frame("{\"code\":\"abc\"}", None).is_none());
}

#[test]
fn an_edit_reaches_the_other_members() {
    let content = "fn main() {\n    println!(\"\\\"é\\\"\");\n}\n";
    let sent = code_message(content);
    let step = relay_message(&sent).unwrap();
    assert_eq!(step.store.as_deref(), Some(content));
    assert!(matches!(incoming_frame(&step.frame, None), Some(Msg::SetContent(t)) if t == content));
}

#[test]
fn addresses() {
    assert_eq!(ws_room_url("http://localhost:8080"), "ws://localhost:8080/ws/room");
    assert_eq!(ws_room_url("https://collab.example"), "wss://collab.example/ws/room");
    assert_eq!(code_fetch_url("https://h", "r1"), "https://h/mysite/api/room/r1/code");
    assert_eq!(code_post_url("https://h", "r1"), "https://h/mysite/api/code/r1");
}

#[test]
fn tab_inserts_four_spaces() {
    let e = on_keydown(TAB_KEYCODE, "fn main() {}", 11, 11).unwrap();
    assert_eq!(e.text, "fn main() {    }");
    assert_eq!((e.selection_start, e.selection_end), (15, 15));
    let e = on_keydown(TAB_KEYCODE, "abcdef", 1, 4).unwrap();
    assert_eq!(e.text, "a    ef");
    assert_eq!((e.selection_start, e.selection_end), (5, 8));
    let e = on_keydown(TAB_KEYCODE, "ab", 9, 9).unwrap();
    assert_eq!(e.text, "ab    ");
    assert!(on_keydown(13, "abc", 0, 0).is_none());
}

#[test]
fn line_numbers_count_the_rendered_lines() {
    assert_eq!(line_numbers("<pre>\n</pre>\n"), Vec::<usize>::new());
    assert_eq!(line_numbers("<pre>\na\nb\n</pre>\n"), vec![1, 2]);
}

#[test]
fn a_new_page_connects_and_asks_for_the_stored_code() {
    let h = highlighter();
    let (_, effects) = Room::create(&h, &props(), "https://site").ok().unwrap();
    assert_eq!(effects.len(), 2);
    match &effects[0] {
        Effect::ConnectRoom { url } => assert_eq!(url, "wss://site/ws/room"),
        _ => panic!("the page first opens the room socket"),
    }
    match &effects[1] {
        Effect::FetchCode { url } => assert_eq!(url, "https://site/mysite/api/room/room-7/code"),
        _ => panic!("then asks for the stored code"),
    }
    let (_, effects) = Room::create(&h, &props(), "http://localhost:8080").ok().unwrap();
    match &effects[0] {
        Effect::ConnectRoom { url } => assert_eq!(url, "ws://localhost:8080/ws/room"),
        _ => panic!("the page first opens the room socket"),
    }
}

#[test]
fn events_become_messages() {
    assert!(matches!(
        event_message(PageEvent::SocketStatus { opened: true }),
        Some(Msg::SendMyId)
    ));
    assert!(matches!(
        event_message(PageEvent::SocketStatus { opened: false }),
        Some(Msg::Empty)
    ));
    assert!(matches!(
        event_message(PageEvent::CodeFetched("let a = 1;".to_string())),
        Some(Msg::SetContent(t)) if t == "let a = 1;"
    ));
    assert!(matches!(
        event_message(PageEvent::RunReply(res("done"))),
        Some(Msg::SetResponse(r)) if r.outputs.run == "done"
    ));
    let text = frame("{\"code\":\"abc\"}");
    assert!(matches!(
        event_message(PageEvent::Frame { text, response: None }),
        Some(Msg::SetContent(t)) if t == "abc"
    ));
    let text = frame("{\"start_running\":true}");
    assert!(matches!(
        event_message(PageEvent::Frame { text, response: None }),
        Some(Msg::Empty)
    ));
    let text = frame("{\"execution_response\":{}}");
    assert!(matches!(
        event_message(PageEvent::Frame { text, response: Some(res("y")) }),
        Some(Msg::SetResponseNoWs(r)) if r.outputs.run == "y"
    ));
    let text = "no frame".to_string();
    assert!(event_message(PageEvent::Frame { text, response: None }).is_none());
}

#[test]
fn an_edit_reaches_another_page_of_the_room() {
    let h = highlighter();
    let (mut editor, _) = Room::create(&h, &props(), "http://x").ok().unwrap();
    let (mut other, _) = Room::create(&h, &props(), "http://x").ok().unwrap();
    let content = "let s = \"tab\there\";";
    let step = editor
        .update(Msg::InputChange(content.to_string(), 3), &props(), "http://x", &h)
        .ok()
        .unwrap();
    let sent = match &step.effects[0] {
        Effect::SendToRoom(t) => t.clone(),
        _ => panic!("the edit goes to the room"),
    };
    let relayed = relay_message(&sent).unwrap();
    let msg = event_message(PageEvent::Frame { text: relayed.frame, response: None }).unwrap();
    other.update(msg, &props(), "http://x", &h).ok().unwrap();
    assert_eq!(other.code(), content);
}
