use scalex_dash::event::{map_key_event, poll_event, AppEvent, KeyCode, KeyPress, TerminalInput};

/// The modifiers of a key.
#[derive(Clone, Copy, PartialEq)]
enum KeyModifiers {
    NONE,
    CONTROL,
}

fn key(code: KeyCode, mods: KeyModifiers) -> KeyPress {
    KeyPress {
        code,
        ctrl: mods == KeyModifiers::CONTROL,
        shift: false,
    }
}

#[test]
fn quit_on_q() {
    assert_eq!(
        map_key_event(key(KeyCode::Char('q'), KeyModifiers::NONE)),
        AppEvent::Quit
    );
}

#[test]
fn ctrl_c_force_quits() {
    assert_eq!(
        map_key_event(key(KeyCode::Char('c'), KeyModifiers::CONTROL)),
        AppEvent::ForceQuit
    );
}

#[test]
fn ctrl_1_tab() {
    assert_eq!(
        map_key_event(key(KeyCode::Char('1'), KeyModifiers::CONTROL)),
        AppEvent::Tab(1)
    );
}

#[test]
fn j_moves_down() {
    assert_eq!(
        map_key_event(key(KeyCode::Char('j'), KeyModifiers::NONE)),
        AppEvent::Down
    );
}

#[test]
fn arrow_keys_map_to_arrow_events() {
    assert_eq!(
        map_key_event(key(KeyCode::Up, KeyModifiers::NONE)),
        AppEvent::ArrowUp
    );
    assert_eq!(
        map_key_event(key(KeyCode::Down, KeyModifiers::NONE)),
        AppEvent::ArrowDown
    );
    assert_eq!(
        map_key_event(key(KeyCode::Left, KeyModifiers::NONE)),
        AppEvent::ArrowLeft
    );
    assert_eq!(
        map_key_event(key(KeyCode::Right, KeyModifiers::NONE)),
        AppEvent::ArrowRight
    );
}

#[test]
fn slash_search() {
    assert_eq!(
        map_key_event(key(KeyCode::Char('/'), KeyModifiers::NONE)),
        AppEvent::Search
    );
}

#[test]
fn esc_maps_to_escape() {
    assert_eq!(
        map_key_event(key(KeyCode::Esc, KeyModifiers::NONE)),
        AppEvent::Escape
    );
}

#[test]
fn unmapped_char_becomes_char_input() {
    // 'a' is not mapped to any specific event
    assert_eq!(
        map_key_event(key(KeyCode::Char('a'), KeyModifiers::NONE)),
        AppEvent::CharInput('a')
    );
}

#[test]
fn unmapped_chars_various() {
    for c in [
        'b', 'e', 'f', 'g', 'i', 'm', 'o', 't', 'u', 'w', 'x', 'y', 'z',
    ] {
        assert_eq!(
            map_key_event(key(KeyCode::Char(c), KeyModifiers::NONE)),
            AppEvent::CharInput(c),
            "char '{}' should map to CharInput",
            c
        );
    }
}

#[test]
fn mapped_chars_not_char_input() {
    // These should map to their specific events, not CharInput
    assert_eq!(
        map_key_event(key(KeyCode::Char('q'), KeyModifiers::NONE)),
        AppEvent::Quit
    );
    assert_eq!(
        map_key_event(key(KeyCode::Char('j'), KeyModifiers::NONE)),
        AppEvent::Down
    );
    assert_eq!(
        map_key_event(key(KeyCode::Char('p'), KeyModifiers::NONE)),
        AppEvent::ResourceType('p')
    );
}

#[test]
fn digits_need_control() {
    assert_eq!(map_key_event(key(KeyCode::Char('9'), KeyModifiers::CONTROL)), AppEvent::Tab(9));
    assert_eq!(
        map_key_event(key(KeyCode::Other, KeyModifiers::NONE)),
        AppEvent::Nothing
    );
}

#[test]
fn input_becomes_events() {
    assert_eq!(poll_event(TerminalInput::Timeout), AppEvent::Tick);
    assert_eq!(
        poll_event(TerminalInput::Key(key(KeyCode::Char('q'), KeyModifiers::NONE))),
        AppEvent::Quit
    );
    assert_eq!(poll_event(TerminalInput::Other), AppEvent::Tick);
    assert_eq!(poll_event(TerminalInput::Resize), AppEvent::Tick);
}
