use myconnect4::client::{cmd_to_evt, event_from_matches};
use myconnect4::myconnect4::{Empty, Event, Move};

#[test]
fn search_commands() {
    assert_eq!(cmd_to_evt("s"), Some(Event::SearchGame(Empty {})));
    assert_eq!(cmd_to_evt("search"), Some(Event::SearchGame(Empty {})));
    assert_eq!(cmd_to_evt("searc"), None);
    assert_eq!(cmd_to_evt("s\n"), None);
}

#[test]
fn move_commands() {
    assert_eq!(cmd_to_evt("m 3"), Some(Event::Move(Move { col: 3 })));
    assert_eq!(cmd_to_evt("move 12"), Some(Event::Move(Move { col: 12 })));
    assert_eq!(cmd_to_evt("m"), None);
    assert_eq!(cmd_to_evt("m x"), None);
    assert_eq!(cmd_to_evt("mo 3"), None);
    assert_eq!(cmd_to_evt("m 99999999999"), None, "does not fit in u32");
    assert_eq!(cmd_to_evt("m \u{0663}"), None, "a non-ASCII digit matches but does not parse");
}

#[test]
fn events_from_matches() {
    assert_eq!(event_from_matches(true, Some("5".to_string())), Some(Event::SearchGame(Empty {})));
    assert_eq!(event_from_matches(false, Some("+5".to_string())), Some(Event::Move(Move { col: 5 })));
    assert_eq!(event_from_matches(false, Some("4294967295".to_string())), Some(Event::Move(Move { col: u32::MAX })));
    assert_eq!(event_from_matches(false, Some("4294967296".to_string())), None);
    assert_eq!(event_from_matches(false, Some("".to_string())), None);
    assert_eq!(event_from_matches(false, None), None);
}
