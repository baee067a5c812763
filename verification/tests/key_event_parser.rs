use editor_core::key_event_parser::{
    parse_key_event, parse_key_events, KeyCode, KeyEvent, KeyModifiers, ParseError,
};

fn none() -> KeyModifiers {
    KeyModifiers {
        control: false,
        alt: false,
        shift: false,
    }
}

fn with(control: bool, alt: bool, shift: bool) -> KeyModifiers {
    KeyModifiers {
        control,
        alt,
        shift,
    }
}

#[test]
fn alphabetic_char() {
    assert_eq!(
        parse_key_events("a").unwrap(),
        vec![KeyEvent::new(KeyCode::Char('a'), none())]
    );
}

#[test]
fn modifier() {
    assert_eq!(
        parse_key_events("ctrl-a").unwrap(),
        vec![KeyEvent::new(KeyCode::Char('a'), with(true, false, false))]
    );
    assert_eq!(
        parse_key_events("alt-a").unwrap(),
        vec![KeyEvent::new(KeyCode::Char('a'), with(false, true, false))]
    );
    assert_eq!(
        parse_key_events("shift-a").unwrap(),
        vec![KeyEvent::new(KeyCode::Char('a'), with(false, false, true))]
    );
    assert_eq!(
        parse_key_events("ctrl+alt-a").unwrap(),
        vec![KeyEvent::new(KeyCode::Char('a'), with(true, true, false))]
    );
    assert_eq!(
        parse_key_events("ctrl+shift-a").unwrap(),
        vec![KeyEvent::new(KeyCode::Char('a'), with(true, false, true))]
    );
    assert_eq!(
        parse_key_events("alt+shift-a").unwrap(),
        vec![KeyEvent::new(KeyCode::Char('a'), with(false, true, true))]
    );
    assert_eq!(
        parse_key_events("ctrl+alt+shift-a").unwrap(),
        vec![KeyEvent::new(KeyCode::Char('a'), with(true, true, true))]
    );
}

#[test]
fn invisible_keys() {
    let cases = [
        ("enter", KeyCode::Enter),
        ("esc", KeyCode::Esc),
        ("backspace", KeyCode::Backspace),
        ("up", KeyCode::Up),
        ("down", KeyCode::Down),
        ("left", KeyCode::Left),
        ("right", KeyCode::Right),
        ("home", KeyCode::Home),
        ("end", KeyCode::End),
        ("pageup", KeyCode::PageUp),
        ("pagedown", KeyCode::PageDown),
        ("delete", KeyCode::Delete),
        ("tab", KeyCode::Tab),
        ("backtab", KeyCode::BackTab),
        ("insert", KeyCode::Insert),
        ("space", KeyCode::Char(' ')),
    ];
    for (name, code) in cases {
        assert_eq!(
            parse_key_events(name).unwrap(),
            vec![KeyEvent::new(code, none())]
        );
    }
}

#[test]
fn multiple() {
    assert_eq!(
        parse_key_events("a b c alt-enter").unwrap(),
        vec![
            KeyEvent::new(KeyCode::Char('a'), none()),
            KeyEvent::new(KeyCode::Char('b'), none()),
            KeyEvent::new(KeyCode::Char('c'), none()),
            KeyEvent::new(KeyCode::Enter, with(false, true, false)),
        ]
    );
}

#[test]
fn unknown_names_are_refused() {
    assert_eq!(
        parse_key_event("foo").unwrap_err(),
        ParseError::UnknownKeyCode("foo".to_string())
    );
    assert_eq!(
        parse_key_event("super-a").unwrap_err(),
        ParseError::UnknownModifier("super".to_string())
    );
    assert_eq!(
        parse_key_event("ctrl-foo").unwrap_err(),
        ParseError::UnknownKeyCode("foo".to_string())
    );
    assert_eq!(
        parse_key_event("a-b-c").unwrap_err(),
        ParseError::UnknownKeyCode("a-b-c".to_string())
    );
    assert_eq!(
        parse_key_event("").unwrap_err(),
        ParseError::UnknownKeyCode(String::new())
    );
    assert_eq!(
        parse_key_event("é").unwrap_err(),
        ParseError::UnknownKeyCode("é".to_string())
    );
    assert_eq!(
        parse_key_events("a  b").unwrap_err(),
        ParseError::UnknownKeyCode(String::new())
    );
    assert_eq!(
        parse_key_events("a foo super-b").unwrap_err().unknown(),
        "foo"
    );
    assert_eq!(
        parse_key_event("-").unwrap_err(),
        ParseError::UnknownKeyCode(String::new())
    );
}
