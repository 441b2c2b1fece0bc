//! The editor's commands, and the keys that give them.

use vstd::prelude::*;
use crate::chars::chars_of;
use crate::style::FontSelection;

verus! {

/// What a key press asks of the editor.
#[derive(Clone, Copy, Debug, PartialEq, Eq, Structural)]
pub enum Command {
    CursorUp,
    CursorDown,
    CursorRight,
    CursorLeft,
    CursorHome,
    CursorEnd,
    Backspace,
    Enter,
    Delete,
    /// Types the character.
    Char(char),
}

/// The command of a key that is pressed alone: the arrow keys, `Home`, `End`,
/// `Backspace`, `Enter` and `Delete` by their names, and any key whose name
/// is a single character types that character.
pub open spec fn key_command(key: Seq<char>) -> Option<Command> {
    if key == "ArrowUp"@ {
        Some(Command::CursorUp)
    } else if key == "ArrowDown"@ {
        Some(Command::CursorDown)
    } else if key == "ArrowRight"@ {
        Some(Command::CursorRight)
    } else if key == "ArrowLeft"@ {
        Some(Command::CursorLeft)
    } else if key == "Home"@ {
        Some(Command::CursorHome)
    } else if key == "End"@ {
        Some(Command::CursorEnd)
    } else if key == "Backspace"@ {
        Some(Command::Backspace)
    } else if key == "Enter"@ {
        Some(Command::Enter)
    } else if key == "Delete"@ {
        Some(Command::Delete)
    } else if key.len() == 1 {
        Some(Command::Char(key[0]))
    } else {
        None
    }
}

/// The command of a key press: none while Alt, Control or Meta is held.
pub open spec fn pressed_command(key: Seq<char>, alt: bool, ctrl: bool, meta: bool) -> Option<
    Command,
> {
    if alt || ctrl || meta {
        None
    } else {
        key_command(key)
    }
}

/// The font choice of that name.
pub open spec fn named_font(name: Seq<char>) -> Option<FontSelection> {
    if name == "Monospace"@ {
        Some(FontSelection::Monospace)
    } else if name == "Sans"@ {
        Some(FontSelection::Sans)
    } else if name == "Mixed"@ {
        Some(FontSelection::Mixed)
    } else {
        None
    }
}

/// Whether the characters are those of `text`.
fn is_text(v: &Vec<char>, text: &str) -> (b: bool)
    ensures
        b == (v@ == text@),
{
    let t = chars_of(text);
    if t.len() != v.len() {
        return false;
    }
    let mut i: usize = 0;
    while i < v.len()
        invariant
            i <= v.len(),
            t.len() == v.len(),
            t@ == text@,
            forall|j: int| 0 <= j < i ==> v@[j] == t@[j],
        decreases v.len() - i,
    {
        if v[i] != t[i] {
            return false;
        }
        i = i + 1;
    }
    assert(v@ =~= t@);
    true
}

/// The command that a key press gives, if it gives one.
pub fn command_for_key(key: &str, alt: bool, ctrl: bool, meta: bool) -> (command: Option<Command>)
    ensures
        command == pressed_command(key@, alt, ctrl, meta),
{
    if alt || ctrl || meta {
        return None;
    }
    let k = chars_of(key);
    if is_text(&k, "ArrowUp") {
        Some(Command::CursorUp)
    } else if is_text(&k, "ArrowDown") {
        Some(Command::CursorDown)
    } else if is_text(&k, "ArrowRight") {
        Some(Command::CursorRight)
    } else if is_text(&k, "ArrowLeft") {
        Some(Command::CursorLeft)
    } else if is_text(&k, "Home") {
        Some(Command::CursorHome)
    } else if is_text(&k, "End") {
        Some(Command::CursorEnd)
    } else if is_text(&k, "Backspace") {
        Some(Command::Backspace)
    } else if is_text(&k, "Enter") {
        Some(Command::Enter)
    } else if is_text(&k, "Delete") {
        Some(Command::Delete)
    } else if k.len() == 1 {
        Some(Command::Char(k[0]))
    } else {
        None
    }
}

/// The font choice that a name stands for, if it stands for one.
pub fn font_for_name(name: &str) -> (font: Option<FontSelection>)
    ensures
        font == named_font(name@),
{
    let n = chars_of(name);
    if is_text(&n, "Monospace") {
        Some(FontSelection::Monospace)
    } else if is_text(&n, "Sans") {
        Some(FontSelection::Sans)
    } else if is_text(&n, "Mixed") {
        Some(FontSelection::Mixed)
    } else {
        None
    }
}

} // verus!
