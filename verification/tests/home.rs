use collabrustator::home::{Home, Msg};
use collabrustator::routes::Route;

#[test]
fn landing_page_starts_on_the_first_description() {
    let home = Home::create();
    assert_eq!(home.room_id(), "");
    assert!(home.current_text().starts_with("In a room, you can write Rust code"));
}

#[test]
fn descriptions_rotate() {
    let mut home = Home::create();
    let first = home.current_text().clone();
    let step = home.update(Msg::NextText);
    assert!(step.rerender && step.navigate.is_none());
    assert!(home.current_text().starts_with("CollabRustAtor allows you"));
    home.update(Msg::NextText);
    assert_eq!(home.current_text(), &first);
}

#[test]
fn typing_a_room_id_updates_the_join_link() {
    let mut home = Home::create();
    home.update(Msg::RoomIdChanged("abc".to_string()));
    assert_eq!(home.room_id(), "abc");
    match home.join_route() {
        Route::Room { id } => assert_eq!(id, "abc"),
        _ => panic!("join leads to a room"),
    }
}

#[test]
fn creating_a_room_goes_to_a_fresh_uuid() {
    let mut home = Home::create();
    let step = home.update(Msg::CreateRoom);
    let id = match step.navigate {
        Some(Route::Room { id }) => id,
        _ => panic!("creating a room navigates to it"),
    };
    assert_eq!(id.len(), 36);
    let cs: Vec<char> = id.chars().collect();
    for (i, c) in cs.iter().enumerate() {
        if [8, 13, 18, 23].contains(&i) {
            assert_eq!(*c, '-');
        } else {
            assert!(c.is_ascii_hexdigit() && !c.is_ascii_uppercase());
        }
    }
    assert_eq!(cs[14], '4');
    assert!(['8', '9', 'a', 'b'].contains(&cs[19]));
    let again = match home.update(Msg::CreateRoom).navigate {
        Some(Route::Room { id }) => id,
        _ => panic!("creating a room navigates to it"),
    };
    assert_ne!(id, again);
}

#[test]
fn apply_uses_the_given_id() {
    let mut home = Home::create();
    match home.apply(Msg::CreateRoom, "given".to_string()).navigate {
        Some(Route::Room { id }) => assert_eq!(id, "given"),
        _ => panic!("creating a room navigates to it"),
    }
}
