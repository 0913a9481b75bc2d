//! The sixteen-key hex keypad and the keyboard layout that feeds it.

use crate::error::Chip8Error;
use vstd::prelude::*;

verus! {

/// Keypad size.
pub const NUM_KEYS: usize = 16;

/// Which of the sixteen keypad keys are held down.
#[derive(Debug, Clone, Copy, PartialEq, Eq)]
pub struct Keys {
    /// `state[k]` is whether key `k` is down.
    pub state: [bool; 16],
}

impl View for Keys {
    type V = Seq<bool>;

    open spec fn view(&self) -> Seq<bool> {
        self.state@
    }
}

impl Keys {
    /// A keypad with every key up.
    pub fn new() -> (r: Keys)
        ensures
            r@ == Seq::new(16, |k: int| false),
    {
        let r = Keys { state: [false; 16] };
        assert(r@ =~= Seq::new(16, |k: int| false));
        r
    }

    /// Presses key `key`.
    pub fn key_down(&mut self, key: u8)
        requires
            key < 16,
        ensures
            final(self)@ == old(self)@.update(key as int, true),
    {
        self.state[key as usize] = true;
    }

    /// Releases key `key`.
    pub fn key_up(&mut self, key: u8)
        requires
            key < 16,
        ensures
            final(self)@ == old(self)@.update(key as int, false),
    {
        self.state[key as usize] = false;
    }

    /// Whether key `key` is down; a value past the keypad is never down.
    pub fn is_pressed(&self, key: u8) -> (r: bool)
        ensures
            r == (key < 16 && self@[key as int]),
    {
        if key as usize >= NUM_KEYS {
            false
        } else {
            self.state[key as usize]
        }
    }

    /// The whole key state.
    pub fn inner(&self) -> (r: [bool; 16])
        ensures
            r@ == self@,
    {
        self.state
    }
}

impl Default for Keys {
    fn default() -> (r: Keys)
        ensures
            r@ == Seq::new(16, |k: int| false),
    {
        Keys::new()
    }
}

/// The keypad value of an upper-case keyboard character, laid out as
///
/// ```txt
/// keypad     keyboard
/// 1 2 3 C    1 2 3 4
/// 4 5 6 D    Q W E R
/// 7 8 9 E    A S D F
/// A 0 B F    Z X C V
/// ```
pub open spec fn keypad_of(c: char) -> Option<u8> {
    match c {
        '1' => Some(0x1u8),
        '2' => Some(0x2u8),
        '3' => Some(0x3u8),
        '4' => Some(0xCu8),
        'Q' => Some(0x4u8),
        'W' => Some(0x5u8),
        'E' => Some(0x6u8),
        'R' => Some(0xDu8),
        'A' => Some(0x7u8),
        'S' => Some(0x8u8),
        'D' => Some(0x9u8),
        'F' => Some(0xEu8),
        'Z' => Some(0xAu8),
        'X' => Some(0x0u8),
        'C' => Some(0xBu8),
        'V' => Some(0xFu8),
        _ => None,
    }
}

/// The upper-case form of an ASCII letter; any other character is kept.
pub open spec fn ascii_upper(c: char) -> char {
    if 'a' <= c <= 'z' {
        ((c as u32) - 32) as char
    } else {
        c
    }
}

/// Maps a keyboard character, in either case, to its keypad value.
pub fn keyboard_to_keypad(keyboard: char) -> (r: Result<u8, Chip8Error>)
    ensures
        r == match keypad_of(ascii_upper(keyboard)) {
            Some(k) => Ok::<u8, Chip8Error>(k),
            None => Err(Chip8Error::UnsupportedKey(keyboard)),
        },
{
    match keyboard {
        '1' => Ok(0x1),
        '2' => Ok(0x2),
        '3' => Ok(0x3),
        '4' => Ok(0xC),
        'q' | 'Q' => Ok(0x4),
        'w' | 'W' => Ok(0x5),
        'e' | 'E' => Ok(0x6),
        'r' | 'R' => Ok(0xD),
        'a' | 'A' => Ok(0x7),
        's' | 'S' => Ok(0x8),
        'd' | 'D' => Ok(0x9),
        'f' | 'F' => Ok(0xE),
        'z' | 'Z' => Ok(0xA),
        'x' | 'X' => Ok(0x0),
        'c' | 'C' => Ok(0xB),
        'v' | 'V' => Ok(0xF),
        _ => Err(Chip8Error::UnsupportedKey(keyboard)),
    }
}

} // verus!
