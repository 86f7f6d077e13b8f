//! The keyboard layout: which key of a host keyboard stands for which
//! key of the machine's sixteen-key pad.
//!
//! The pad's four rows `1 2 3 c`, `4 5 6 d`, `7 8 9 e`, `a 0 b f` lie on
//! the four keyboard rows that start with `1`, `q`, `a` and `z`.

use vstd::prelude::*;
use crate::input::key_code;

verus! {

/// What a keyboard event asks of the key latch.
#[derive(Debug, PartialEq, Eq, Clone, Copy)]
pub enum KeyAction {
    /// Hold down the pad key with this name.
    Press(&'static str),
    /// Release the key held down.
    Release,
    /// The event concerns no key of the pad.
    Unsupported,
}

/// The pad key that a keyboard character stands for.
pub open spec fn pad_key(character: char) -> Option<char> {
    if character == '1' {
        Some('1')
    } else if character == '2' {
        Some('2')
    } else if character == '3' {
        Some('3')
    } else if character == '4' {
        Some('c')
    } else if character == 'q' {
        Some('4')
    } else if character == 'w' {
        Some('5')
    } else if character == 'e' {
        Some('6')
    } else if character == 'r' {
        Some('d')
    } else if character == 'a' {
        Some('7')
    } else if character == 's' {
        Some('8')
    } else if character == 'd' {
        Some('9')
    } else if character == 'f' {
        Some('e')
    } else if character == 'z' {
        Some('a')
    } else if character == 'x' {
        Some('0')
    } else if character == 'c' {
        Some('b')
    } else if character == 'v' {
        Some('f')
    } else {
        None
    }
}

/// The name of the pad key that a keyboard key stands for. Only keys
/// that produce exactly one character stand for a pad key.
pub open spec fn layout(pressed: Seq<char>) -> Option<Seq<char>> {
    if pressed.len() == 1 {
        match pad_key(pressed[0]) {
            Some(key) => Some(seq![key]),
            None => None,
        }
    } else {
        None
    }
}

/// What a keyboard event asks for. `character` is what the key produces,
/// if it produces text; `pressed` tells a press from a release. A release
/// of any key that produces text releases the pad.
pub open spec fn action(character: Option<Seq<char>>, pressed: bool) -> Option<Option<Seq<char>>> {
    match character {
        Some(text) => if pressed {
            match layout(text) {
                Some(key) => Some(Some(key)),
                None => None,
            }
        } else {
            Some(None)
        },
        None => None,
    }
}

impl KeyAction {
    /// The action as the key name to hold down, `Some(None)` for a
    /// release, and `None` for an unsupported event.
    pub open spec fn view(self) -> Option<Option<Seq<char>>> {
        match self {
            KeyAction::Press(key) => Some(Some(key@)),
            KeyAction::Release => Some(None),
            KeyAction::Unsupported => None,
        }
    }
}

/// Every key of the layout names a pad key that has a key code.
pub proof fn lemma_layout_yields_pad_keys(pressed: Seq<char>)
    ensures
        layout(pressed) matches Some(key) ==> key_code(key) is Some,
{
}

/// Each of the sixteen key codes has a keyboard character that stands
/// for it.
pub proof fn lemma_layout_reaches_every_code(code: u8) -> (character: char)
    requires
        code < 16,
    ensures
        layout(seq![character]) matches Some(key) && key_code(key) == Some(code),
{
    let character = if code == 0x0 {
        'x'
    } else if code == 0x1 {
        '1'
    } else if code == 0x2 {
        '2'
    } else if code == 0x3 {
        '3'
    } else if code == 0x4 {
        'q'
    } else if code == 0x5 {
        'w'
    } else if code == 0x6 {
        'e'
    } else if code == 0x7 {
        'a'
    } else if code == 0x8 {
        's'
    } else if code == 0x9 {
        'd'
    } else if code == 0xA {
        'z'
    } else if code == 0xB {
        'c'
    } else if code == 0xC {
        '4'
    } else if code == 0xD {
        'r'
    } else if code == 0xE {
        'f'
    } else {
        'v'
    };
    assert(seq![character].len() == 1);
    assert(seq![character][0] == character);
    character
}

/// The name of the pad key that the keyboard key `pressed_key` stands for.
pub fn get_mapped_key(pressed_key: &str) -> (key: Option<&'static str>)
    ensures
        match key {
            Some(name) => layout(pressed_key@) == Some(name@),
            None => layout(pressed_key@) is None,
        },
{
    if pressed_key.unicode_len() != 1 {
        return None;
    }
    proof {
        reveal_strlit("0");
        reveal_strlit("1");
        reveal_strlit("2");
        reveal_strlit("3");
        reveal_strlit("4");
        reveal_strlit("5");
        reveal_strlit("6");
        reveal_strlit("7");
        reveal_strlit("8");
        reveal_strlit("9");
        reveal_strlit("a");
        reveal_strlit("b");
        reveal_strlit("c");
        reveal_strlit("d");
        reveal_strlit("e");
        reveal_strlit("f");
    }
    let key = match pressed_key.get_char(0) {
        '1' => "1",
        '2' => "2",
        '3' => "3",
        '4' => "c",
        'q' => "4",
        'w' => "5",
        'e' => "6",
        'r' => "d",
        'a' => "7",
        's' => "8",
        'd' => "9",
        'f' => "e",
        'z' => "a",
        'x' => "0",
        'c' => "b",
        'v' => "f",
        _ => {
            return None;
        },
    };
    assert(key@ =~= seq![pad_key(pressed_key@[0])->Some_0]);
    Some(key)
}

/// Decides what a keyboard event asks of the key latch.
pub fn handle_key_event(character: Option<&str>, pressed: bool) -> (decided: KeyAction)
    ensures
        decided.view() == action(
            match character {
                Some(text) => Some(text@),
                None => None,
            },
            pressed,
        ),
{
    match character {
        Some(text) => {
            if pressed {
                match get_mapped_key(text) {
                    Some(key) => KeyAction::Press(key),
                    None => KeyAction::Unsupported,
                }
            } else {
                KeyAction::Release
            }
        },
        None => KeyAction::Unsupported,
    }
}

} // verus!
