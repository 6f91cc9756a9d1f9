//! Keys and the events that they make.
use vstd::prelude::*;

verus! {

/// What the user asks for, or that time has passed.
#[derive(Debug, Clone, Copy, PartialEq, Eq, Structural)]
pub enum AppEvent {
    Quit,
    /// Ctrl+C: quits in every mode.
    ForceQuit,
    /// `k`, typed as a character in search mode.
    Up,
    /// `j`, typed as a character in search mode.
    Down,
    /// `h`, typed as a character in search mode.
    Left,
    /// `l`, typed as a character in search mode.
    Right,
    ArrowUp,
    ArrowDown,
    ArrowLeft,
    ArrowRight,
    Enter,
    /// Ctrl with a digit from one to nine.
    Tab(usize),
    NextPanel,
    PrevPanel,
    /// A letter that chooses the resource type shown.
    ResourceType(char),
    Search,
    Help,
    Escape,
    Backspace,
    Refresh,
    PageUp,
    PageDown,
    Home,
    End,
    /// A character without another meaning, for search mode.
    CharInput(char),
    Tick,
    Nothing,
}

/// A key of the keyboard.
#[derive(Debug, Clone, Copy, PartialEq, Eq, Structural)]
pub enum KeyCode {
    Char(char),
    Up,
    Down,
    Left,
    Right,
    PageUp,
    PageDown,
    Home,
    End,
    Enter,
    Backspace,
    Tab,
    BackTab,
    Esc,
    /// A key without a meaning here.
    Other,
}

/// A key with the modifiers held down with it.
#[derive(Debug, Clone, Copy, PartialEq, Eq, Structural)]
pub struct KeyPress {
    pub code: KeyCode,
    pub ctrl: bool,
    pub shift: bool,
}

/// Whether a letter chooses a resource type.
pub open spec fn is_resource_letter(c: char) -> bool {
    c == 'p' || c == 'd' || c == 's' || c == 'c' || c == 'n'
}

/// What a character means without Ctrl.
pub open spec fn plain_char_event(c: char) -> AppEvent {
    if c == 'q' {
        AppEvent::Quit
    } else if c == 'k' {
        AppEvent::Up
    } else if c == 'j' {
        AppEvent::Down
    } else if c == 'h' {
        AppEvent::Left
    } else if c == 'l' {
        AppEvent::Right
    } else if is_resource_letter(c) {
        AppEvent::ResourceType(c)
    } else if c == '/' {
        AppEvent::Search
    } else if c == '?' {
        AppEvent::Help
    } else if c == 'r' {
        AppEvent::Refresh
    } else {
        AppEvent::CharInput(c)
    }
}

/// What a character means with Ctrl.
pub open spec fn ctrl_char_event(c: char) -> AppEvent {
    if c == 'c' {
        AppEvent::ForceQuit
    } else if '1' <= c && c <= '9' {
        AppEvent::Tab((c as u32 - 48) as usize)
    } else if c == '/' {
        AppEvent::Search
    } else if c == '?' {
        AppEvent::Help
    } else {
        AppEvent::Nothing
    }
}

/// What a key means.
pub open spec fn key_event(key: KeyPress) -> AppEvent {
    match key.code {
        KeyCode::Char(c) => if key.ctrl {
            ctrl_char_event(c)
        } else {
            plain_char_event(c)
        },
        KeyCode::Up => if key.ctrl {
            AppEvent::Nothing
        } else {
            AppEvent::ArrowUp
        },
        KeyCode::Down => if key.ctrl {
            AppEvent::Nothing
        } else {
            AppEvent::ArrowDown
        },
        KeyCode::Left => if key.ctrl {
            AppEvent::Nothing
        } else {
            AppEvent::ArrowLeft
        },
        KeyCode::Right => if key.ctrl {
            AppEvent::Nothing
        } else {
            AppEvent::ArrowRight
        },
        KeyCode::PageUp => AppEvent::PageUp,
        KeyCode::PageDown => AppEvent::PageDown,
        KeyCode::Home => AppEvent::Home,
        KeyCode::End => AppEvent::End,
        KeyCode::Enter => AppEvent::Enter,
        KeyCode::Backspace => AppEvent::Backspace,
        KeyCode::Tab => if key.shift {
            AppEvent::PrevPanel
        } else {
            AppEvent::NextPanel
        },
        KeyCode::BackTab => AppEvent::PrevPanel,
        KeyCode::Esc => AppEvent::Escape,
        KeyCode::Other => AppEvent::Nothing,
    }
}

/// Turns a key into an event.
pub fn map_key_event(key: KeyPress) -> (r: AppEvent)
    ensures
        r == key_event(key),
{
    let ctrl = key.ctrl;
    match key.code {
        KeyCode::Char(c) => {
            if ctrl && c == 'c' {
                AppEvent::ForceQuit
            } else if ctrl && '1' <= c && c <= '9' {
                let digit: u32 = c as u32 - 48;
                AppEvent::Tab(digit as usize)
            } else if c == '/' {
                AppEvent::Search
            } else if c == '?' {
                AppEvent::Help
            } else if ctrl {
                AppEvent::Nothing
            } else if c == 'q' {
                AppEvent::Quit
            } else if c == 'k' {
                AppEvent::Up
            } else if c == 'j' {
                AppEvent::Down
            } else if c == 'h' {
                AppEvent::Left
            } else if c == 'l' {
                AppEvent::Right
            } else if c == 'p' || c == 'd' || c == 's' || c == 'c' || c == 'n' {
                AppEvent::ResourceType(c)
            } else if c == 'r' {
                AppEvent::Refresh
            } else {
                AppEvent::CharInput(c)
            }
        },
        KeyCode::Up => if !ctrl {
            AppEvent::ArrowUp
        } else {
            AppEvent::Nothing
        },
        KeyCode::Down => if !ctrl {
            AppEvent::ArrowDown
        } else {
            AppEvent::Nothing
        },
        KeyCode::Left => if !ctrl {
            AppEvent::ArrowLeft
        } else {
            AppEvent::Nothing
        },
        KeyCode::Right => if !ctrl {
            AppEvent::ArrowRight
        } else {
            AppEvent::Nothing
        },
        KeyCode::PageUp => AppEvent::PageUp,
        KeyCode::PageDown => AppEvent::PageDown,
        KeyCode::Home => AppEvent::Home,
        KeyCode::End => AppEvent::End,
        KeyCode::Enter => AppEvent::Enter,
        KeyCode::Backspace => AppEvent::Backspace,
        KeyCode::Tab => if key.shift {
            AppEvent::PrevPanel
        } else {
            AppEvent::NextPanel
        },
        KeyCode::BackTab => AppEvent::PrevPanel,
        KeyCode::Esc => AppEvent::Escape,
        KeyCode::Other => AppEvent::Nothing,
    }
}

/// What a terminal reports.
#[derive(Debug, Clone, Copy, PartialEq, Eq, Structural)]
pub enum TerminalInput {
    Key(KeyPress),
    /// The window has another size now.
    Resize,
    /// Something without a meaning here.
    Other,
    /// Nothing came in before the time was up.
    Timeout,
}

/// Turns what a terminal reports into an event: anything but a key lets the
/// dashboard draw itself anew.
pub fn poll_event(input: TerminalInput) -> (r: AppEvent)
    ensures
        r == (match input {
            TerminalInput::Key(key) => key_event(key),
            _ => AppEvent::Tick,
        }),
{
    match input {
        TerminalInput::Key(key) => map_key_event(key),
        _ => AppEvent::Tick,
    }
}

/// Every character typed without Ctrl makes some event.
pub proof fn law_plain_characters_have_events(c: char, shift: bool)
    ensures
        key_event(KeyPress { code: KeyCode::Char(c), ctrl: false, shift }) != AppEvent::Nothing,
{
}

} // verus!
