use vstd::prelude::*;

use crate::state::{Message, MessageView, Mode};

verus! {

/// The keys the launcher listens to; every other key is `Other`.
#[derive(Debug, Clone, Copy, PartialEq, Eq, Structural)]
pub enum Key {
    Escape,
    ArrowDown,
    ArrowUp,
    ArrowLeft,
    ArrowRight,
    Space,
    Delete,
    Backspace,
    Enter,
    /// A key that types a character.
    Character(char),
    Other,
}

/// What a key press means in a mode, with the state of Shift and Control.
///
/// Everywhere: Escape closes, Shift+Delete and Shift+Backspace clear the query.
/// In the settings the four arrows move and change values. In the file browser the
/// vertical arrows move (with Shift they scroll the preview), Shift+Left goes up a
/// folder, Right enters one and Control+Space toggles the preview. Elsewhere the
/// vertical arrows move, Control+Enter runs the command in a terminal and Control+D
/// toggles the selected application as a favourite.
pub open spec fn key_action(mode: Mode, key: Key, shift: bool, control: bool) -> Option<
    MessageView,
> {
    match key {
        Key::Escape => Some(MessageView::Escape),
        Key::Delete | Key::Backspace => if shift {
            Some(MessageView::ClearQuery)
        } else {
            None
        },
        Key::ArrowDown => if mode == Mode::FileBrowser && shift {
            Some(MessageView::ScrollPreviewDown)
        } else {
            Some(MessageView::ArrowDown)
        },
        Key::ArrowUp => if mode == Mode::FileBrowser && shift {
            Some(MessageView::ScrollPreviewUp)
        } else {
            Some(MessageView::ArrowUp)
        },
        Key::ArrowLeft => if mode == Mode::Settings || (mode == Mode::FileBrowser && shift) {
            Some(MessageView::ArrowLeft)
        } else {
            None
        },
        Key::ArrowRight => if mode == Mode::Settings || mode == Mode::FileBrowser {
            Some(MessageView::ArrowRight)
        } else {
            None
        },
        Key::Space => if mode == Mode::FileBrowser && control {
            Some(MessageView::TogglePreview)
        } else {
            None
        },
        Key::Enter => if mode != Mode::Settings && mode != Mode::FileBrowser && control {
            Some(MessageView::SubmitInTerminal)
        } else {
            None
        },
        Key::Character(c) => if (c == 'd' || c == 'D') && control && mode != Mode::Settings
            && mode != Mode::FileBrowser {
            Some(MessageView::ToggleFavorite)
        } else {
            None
        },
        Key::Other => None,
    }
}

/// Turns a key press into the message it sends, if any.
pub fn key_message(mode: Mode, key: Key, shift: bool, control: bool) -> (r: Option<Message>)
    ensures
        match r {
            Some(m) => key_action(mode, key, shift, control) == Some(m@),
            None => key_action(mode, key, shift, control) is None,
        },
{
    match mode {
        Mode::Settings => match key {
            Key::Escape => Some(Message::Escape),
            Key::ArrowDown => Some(Message::ArrowDown),
            Key::ArrowUp => Some(Message::ArrowUp),
            Key::ArrowLeft => Some(Message::ArrowLeft),
            Key::ArrowRight => Some(Message::ArrowRight),
            Key::Delete if shift => Some(Message::ClearQuery),
            Key::Backspace if shift => Some(Message::ClearQuery),
            _ => None,
        },
        Mode::FileBrowser => match key {
            Key::Escape => Some(Message::Escape),
            Key::ArrowDown => if shift {
                Some(Message::ScrollPreviewDown)
            } else {
                Some(Message::ArrowDown)
            },
            Key::ArrowUp => if shift {
                Some(Message::ScrollPreviewUp)
            } else {
                Some(Message::ArrowUp)
            },
            Key::ArrowLeft if shift => Some(Message::ArrowLeft),
            Key::ArrowRight => Some(Message::ArrowRight),
            Key::Space if control => Some(Message::TogglePreview),
            Key::Delete if shift => Some(Message::ClearQuery),
            Key::Backspace if shift => Some(Message::ClearQuery),
            _ => None,
        },
        _ => match key {
            Key::Escape => Some(Message::Escape),
            Key::ArrowDown => Some(Message::ArrowDown),
            Key::ArrowUp => Some(Message::ArrowUp),
            Key::Delete if shift => Some(Message::ClearQuery),
            Key::Backspace if shift => Some(Message::ClearQuery),
            Key::Enter if control => Some(Message::SubmitInTerminal),
            Key::Character(c) if (c == 'd' || c == 'D') && control => Some(Message::ToggleFavorite),
            _ => None,
        },
    }
}

} // verus!
