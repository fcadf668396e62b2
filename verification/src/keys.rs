//! The keyboard layout of the CHIP-8 keypad and what a key event does.

use vstd::prelude::*;

verus! {

/// A keyboard key, as far as the keypad mapping reads it.
#[derive(Debug, Clone, Copy, PartialEq, Eq, Structural)]
pub enum KeyCode {
    Esc,
    Char(char),
    Other,
}

/// Whether a key went down, came up, or repeats while held.
#[derive(Debug, Clone, Copy, PartialEq, Eq, Structural)]
pub enum KeyEventKind {
    Press,
    Release,
    Repeat,
}

/// What a key event asks of the interpreter.
#[derive(Debug, Clone, Copy, PartialEq, Eq, Structural)]
pub enum KeyCommand {
    /// Leave the interpreter.
    Quit,
    /// Press or release keypad key `key`.
    SetKey { key: u8, pressed: bool },
    /// Nothing to do.
    Ignore,
}

/// The keypad key of a keyboard key, `-1` for keys off the keypad. The
/// 4x4 block `1234 / qwer / asdf / zxcv` stands for the COSMAC VIP keypad
/// `123C / 456D / 789E / A0BF`.
pub open spec fn keypad_key(code: KeyCode) -> int {
    match code {
        KeyCode::Char(c) => {
            if c == '1' { 0x1 }
            else if c == '2' { 0x2 }
            else if c == '3' { 0x3 }
            else if c == '4' { 0xC }
            else if c == 'q' { 0x4 }
            else if c == 'w' { 0x5 }
            else if c == 'e' { 0x6 }
            else if c == 'r' { 0xD }
            else if c == 'a' { 0x7 }
            else if c == 's' { 0x8 }
            else if c == 'd' { 0x9 }
            else if c == 'f' { 0xE }
            else if c == 'z' { 0xA }
            else if c == 'x' { 0x0 }
            else if c == 'c' { 0xB }
            else if c == 'v' { 0xF }
            else { -1 }
        },
        _ => -1,
    }
}

/// Maps a keyboard key to its keypad key, or `-1` if it has none.
pub fn map_key(code: KeyCode) -> (key: i8)
    ensures
        key == keypad_key(code),
{
    match code {
        KeyCode::Char('1') => 0x1,
        KeyCode::Char('2') => 0x2,
        KeyCode::Char('3') => 0x3,
        KeyCode::Char('4') => 0xC,

        KeyCode::Char('q') => 0x4,
        KeyCode::Char('w') => 0x5,
        KeyCode::Char('e') => 0x6,
        KeyCode::Char('r') => 0xD,

        KeyCode::Char('a') => 0x7,
        KeyCode::Char('s') => 0x8,
        KeyCode::Char('d') => 0x9,
        KeyCode::Char('f') => 0xE,

        KeyCode::Char('z') => 0xA,
        KeyCode::Char('x') => 0x0,
        KeyCode::Char('c') => 0xB,
        KeyCode::Char('v') => 0xF,
        _ => -1,
    }
}

/// What a key event does: `Esc` pressed quits; a keypad key pressed or
/// released presses or releases it; anything else is ignored.
pub open spec fn key_command(code: KeyCode, kind: KeyEventKind) -> KeyCommand {
    match kind {
        KeyEventKind::Press => {
            if code == KeyCode::Esc {
                KeyCommand::Quit
            } else if keypad_key(code) >= 0 {
                KeyCommand::SetKey { key: keypad_key(code) as u8, pressed: true }
            } else {
                KeyCommand::Ignore
            }
        },
        KeyEventKind::Release => {
            if keypad_key(code) >= 0 {
                KeyCommand::SetKey { key: keypad_key(code) as u8, pressed: false }
            } else {
                KeyCommand::Ignore
            }
        },
        KeyEventKind::Repeat => KeyCommand::Ignore,
    }
}

/// Decides what a key event does to the interpreter.
pub fn handle_key(code: KeyCode, kind: KeyEventKind) -> (command: KeyCommand)
    ensures
        command == key_command(code, kind),
        command matches KeyCommand::SetKey { key, .. } ==> key < 16,
{
    match kind {
        KeyEventKind::Press => {
            if let KeyCode::Esc = code {
                return KeyCommand::Quit;
            }
            let mapped_key = map_key(code);
            if mapped_key >= 0 {
                KeyCommand::SetKey { key: mapped_key as u8, pressed: true }
            } else {
                KeyCommand::Ignore
            }
        },
        KeyEventKind::Release => {
            let mapped_key = map_key(code);
            if mapped_key >= 0 {
                KeyCommand::SetKey { key: mapped_key as u8, pressed: false }
            } else {
                KeyCommand::Ignore
            }
        },
        KeyEventKind::Repeat => KeyCommand::Ignore,
    }
}

} // verus!
