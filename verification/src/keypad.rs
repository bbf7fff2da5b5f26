//! The keypad, and the keys of a keyboard that stand for its keys.

use vstd::prelude::*;
use vstd::string::StrSliceExecFns;
use crate::error::Error;
use crate::machine::Chip8;
use crate::model::{agrees, KEY_COUNT};

verus! {

/// What happened to a key.
#[derive(Clone, Copy, Debug, PartialEq, Eq, Structural)]
pub enum Key {
    Pressed,
    Released,
}

/// The key of the keypad for which the keyboard key named `name` stands.
/// The left-hand block of a keyboard maps onto the four rows of the keypad:
/// `1 2 3 4` onto `1 2 3 C`, `Q W E R` onto `4 5 6 D`, `A S D F` onto
/// `7 8 9 E`, and `Z X C V` onto `A 0 B F`.
pub open spec fn key_of(name: Seq<char>) -> Option<u8> {
    if name.len() != 1 {
        None
    } else if name[0] == '1' {
        Some(0x1u8)
    } else if name[0] == '2' {
        Some(0x2u8)
    } else if name[0] == '3' {
        Some(0x3u8)
    } else if name[0] == '4' {
        Some(0xCu8)
    } else if name[0] == 'Q' {
        Some(0x4u8)
    } else if name[0] == 'W' {
        Some(0x5u8)
    } else if name[0] == 'E' {
        Some(0x6u8)
    } else if name[0] == 'R' {
        Some(0xDu8)
    } else if name[0] == 'A' {
        Some(0x7u8)
    } else if name[0] == 'S' {
        Some(0x8u8)
    } else if name[0] == 'D' {
        Some(0x9u8)
    } else if name[0] == 'F' {
        Some(0xEu8)
    } else if name[0] == 'Z' {
        Some(0xAu8)
    } else if name[0] == 'X' {
        Some(0x0u8)
    } else if name[0] == 'C' {
        Some(0xBu8)
    } else if name[0] == 'V' {
        Some(0xFu8)
    } else {
        None
    }
}

/// The key of the keypad for which the keyboard key named `name` stands, if
/// it stands for one.
pub fn key_index(name: &str) -> (key: Option<u8>)
    ensures
        key == key_of(name@),
        key matches Some(k) ==> k < KEY_COUNT,
{
    if name.unicode_len() != 1 {
        return None;
    }
    match name.get_char(0) {
        '1' => Some(0x1),
        '2' => Some(0x2),
        '3' => Some(0x3),
        '4' => Some(0xC),
        'Q' => Some(0x4),
        'W' => Some(0x5),
        'E' => Some(0x6),
        'R' => Some(0xD),
        'A' => Some(0x7),
        'S' => Some(0x8),
        'D' => Some(0x9),
        'F' => Some(0xE),
        'Z' => Some(0xA),
        'X' => Some(0x0),
        'C' => Some(0xB),
        'V' => Some(0xF),
        _ => None,
    }
}

impl Chip8 {
    /// Marks key `index` as held down or not. Fails, and changes nothing,
    /// where `index` is not a key of the keypad.
    pub fn set_key(&mut self, index: usize, pressed: bool) -> (r: Result<(), Error>)
        ensures
            agrees(old(self)@.try_set_key(index as int, pressed), old(self)@, final(self)@, r),
    {
        if index >= KEY_COUNT {
            return Err(Error::InvalidKeyIndex);
        }
        self.keypad[index] = pressed;
        Ok(())
    }

    /// Takes the press or release of the keyboard key named `key_name`.
    /// Fails, and changes nothing, where the name stands for no key of the
    /// keypad.
    pub fn read_input(&mut self, key_name: &str, input_state: Key) -> (r: Result<(), Error>)
        ensures
            agrees(
                match key_of(key_name@) {
                    Some(key) => Ok(old(self)@.set_key(key as int, input_state == Key::Pressed)),
                    None => Err(Error::InvalidKeyIndex),
                },
                old(self)@,
                final(self)@,
                r,
            ),
    {
        let pressed = match input_state {
            Key::Pressed => true,
            Key::Released => false,
        };
        match key_index(key_name) {
            Some(key) => self.set_key(key as usize, pressed),
            None => Err(Error::InvalidKeyIndex),
        }
    }
}

} // verus!
