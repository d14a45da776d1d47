use collabrustator::relay::{relay_frame, relay_message, room_code_or_empty, room_key, Frame, RoomRegistry};

#[test]
fn first_frame_names_the_room() {
    assert_eq!(room_key(&Frame::Text("room-1".to_string())), "room-1");
    assert_eq!(room_key(&Frame::Other), "");
}

#[test]
fn missing_code_reads_as_empty() {
    assert_eq!(room_code_or_empty(None), "");
    assert_eq!(room_code_or_empty(Some("fn main() {}".to_string())), "fn main() {}");
}

#[test]
fn members_join_their_own_room() {
    let mut rooms = RoomRegistry::new();
    assert!(rooms.members("a").is_none());
    rooms.join("a", 1);
    rooms.join("b", 2);
    rooms.join("a", 3);
    assert_eq!(rooms.members("a"), Some(vec![1, 3]));
    assert_eq!(rooms.members("b"), Some(vec![2]));
    assert!(rooms.members("c").is_none());
    rooms.join("", 4);
    assert_eq!(rooms.members(""), Some(vec![4]));
    assert_eq!(rooms.members("a"), Some(vec![1, 3]));
}

#[test]
fn code_messages_are_stored_and_relayed() {
    let step = relay_message("{\"code\": \"x\"}").unwrap();
    assert_eq!(step.store, Some("x".to_string()));
    assert_eq!(step.frame, "\"{\\\"code\\\":\\\"x\\\"}\"");
}

#[test]
fn other_messages_are_only_relayed() {
    let step = relay_message("{\"start_running\":true}").unwrap();
    assert_eq!(step.store, None);
    assert_eq!(step.frame, "\"{\\\"start_running\\\":true}\"");
    assert_eq!(relay_message("{\"code\":1}").unwrap().store, None);
    assert!(relay_message("not json").is_none());
}

#[test]
fn frames_that_are_not_text_are_passed_over() {
    assert!(matches!(relay_frame(&Frame::Other), Some(None)));
    assert!(matches!(relay_frame(&Frame::Text("{}".to_string())), Some(Some(_))));
    assert!(relay_frame(&Frame::Text("{".to_string())).is_none());
}
