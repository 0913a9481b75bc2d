//! The instruction codec: raw 16-bit words and the decoded instruction set.

use crate::error::Chip8Error;
use crate::hex_text::{decode_hex, hex_bytes, hex_well_formed};
use vstd::prelude::*;
use vstd::string::StringSliceAdditionalSpecFns;

verus! {

/// The value of nibble `i` (0 is the most significant) of a 16-bit word.
pub open spec fn nibble(w: u16, i: int) -> u8 {
    if i == 0 {
        (w / 4096) as u8
    } else if i == 1 {
        ((w / 256) % 16) as u8
    } else if i == 2 {
        ((w / 16) % 16) as u8
    } else {
        (w % 16) as u8
    }
}

/// A raw 16-bit instruction word, with helpers that pick out its fields.
#[derive(Debug, Clone, Copy, PartialEq, Eq)]
pub struct RawOpcode(pub u16);

impl RawOpcode {
    /// Builds the word whose high byte is `first` and low byte is `second`.
    pub fn new(first: u8, second: u8) -> (r: RawOpcode)
        ensures
            r.0 == first * 256 + second,
    {
        RawOpcode(Self::combine_bytes(first, second))
    }

    /// Joins two bytes into one big-endian word.
    pub fn combine_bytes(byte_one: u8, byte_two: u8) -> (r: u16)
        ensures
            r == byte_one * 256 + byte_two,
    {
        let r = (byte_one as u16) << 8u16 | byte_two as u16;
        assert(((byte_one as u16) << 8u16 | byte_two as u16) == byte_one * 256 + byte_two)
            by (bit_vector);
        r
    }

    /// The hex digit at position `from_most`, counting from the most significant.
    pub fn hex_digit_from_left(&self, from_most: u8) -> (r: u8)
        requires
            from_most <= 3,
        ensures
            r == nibble(self.0, from_most as int),
            r < 16,
    {
        let w = self.0;
        let bits: u16 = 4 * (3 - from_most as u16);
        let r = ((w >> bits) & 0xF) as u8;
        assert(((w >> 12u16) & 0xF) == w / 4096) by (bit_vector);
        assert(((w >> 8u16) & 0xF) == (w / 256) % 16) by (bit_vector);
        assert(((w >> 4u16) & 0xF) == (w / 16) % 16) by (bit_vector);
        assert(((w >> 0u16) & 0xF) == w % 16) by (bit_vector);
        r
    }

    /// The second and third hex digits.
    pub fn middle_digits(&self) -> (r: (u8, u8))
        ensures
            r == (nibble(self.0, 1), nibble(self.0, 2)),
    {
        (self.hex_digit_from_left(1), self.hex_digit_from_left(2))
    }

    /// The low byte.
    pub fn last_byte(&self) -> (r: u8)
        ensures
            r == self.0 % 256,
    {
        let w = self.0;
        assert((w & 0x00FF) == w % 256) by (bit_vector);
        (w & 0x00FF) as u8
    }

    /// The low twelve bits: every digit but the first.
    pub fn last_three_digits(&self) -> (r: u16)
        ensures
            r == self.0 % 4096,
    {
        let w = self.0;
        assert((w & 0x0FFF) == w % 4096) by (bit_vector);
        w & 0x0FFF
    }
}

/// One CHIP-8 instruction, with only the operand fields it uses.
///
/// Register operands are indices 0..=15, addresses are 12-bit, immediates are bytes.
#[derive(Debug, Clone, Copy, PartialEq, Eq, Structural)]
pub enum Opcode {
    /// `0NNN`: call the machine-code routine at NNN.
    MachineCall(u16),
    /// `00E0`: clear the screen.
    ClearScreen,
    /// `00EE`: return from a subroutine.
    Return,
    /// `1NNN`: jump to NNN.
    Jump(u16),
    /// `2NNN`: call the subroutine at NNN.
    Call(u16),
    /// `3XNN`: skip the next instruction if VX == NN.
    SkipIfEqVal(u8, u8),
    /// `4XNN`: skip the next instruction if VX != NN.
    SkipIfNotEqVal(u8, u8),
    /// `5XY0`: skip the next instruction if VX == VY.
    SkipIfMatchReg(u8, u8),
    /// `6XNN`: VX = NN.
    SetRegister(u8, u8),
    /// `7XNN`: VX += NN, wrapping, carry flag untouched.
    Add(u8, u8),
    /// `8XY0`: VX = VY.
    Assign(u8, u8),
    /// `8XY1`: VX |= VY.
    AssignOr(u8, u8),
    /// `8XY2`: VX &= VY.
    AssignAnd(u8, u8),
    /// `8XY3`: VX ^= VY.
    AssignXor(u8, u8),
    /// `8XY4`: VX += VY, VF = 1 on carry.
    AddAssign(u8, u8),
    /// `8XY5`: VX -= VY, VF = 1 when no borrow.
    SubAssign(u8, u8),
    /// `8XY6`: VF = low bit of VX, VX >>= 1.
    ShiftRight(u8),
    /// `8XY7`: VX = VY - VX, VF = 1 when no borrow.
    FlippedSubAssign(u8, u8),
    /// `8XYE`: VF = high bit of VX, VX <<= 1.
    ShiftLeft(u8),
    /// `9XY0`: skip the next instruction if VX != VY.
    SkipIfMismatchReg(u8, u8),
    /// `ANNN`: idx = NNN.
    SetIdx(u16),
    /// `BNNN`: jump to NNN + V0.
    JumpTo(u16),
    /// `CXNN`: VX = random byte & NN.
    Rand(u8, u8),
    /// `DXYN`: draw the N-row sprite at idx to (VX, VY); VF = 1 on collision.
    Draw(u8, u8, u8),
    /// `EX9E`: skip the next instruction if the key in VX is pressed.
    SkipIfPressed(u8),
    /// `EXA1`: skip the next instruction if the key in VX is not pressed.
    SkipIfNotPressed(u8),
    /// `FX07`: VX = delay timer.
    StoreDelay(u8),
    /// `FX0A`: wait for a key press and store its index in VX.
    WaitKey(u8),
    /// `FX15`: delay timer = VX.
    SetDelay(u8),
    /// `FX18`: sound timer = VX.
    SetSound(u8),
    /// `FX1E`: idx += VX, masked to 12 bits, VF = 1 when it passes 0xFFF.
    IncrementIdx(u8),
    /// `FX29`: idx = address of the font glyph for the digit in VX.
    NewSprite(u8),
    /// `FX33`: store the decimal digits of VX at idx, idx + 1, idx + 2.
    BCD(u8),
    /// `FX55`: store V0..=VX at idx onwards; idx unchanged.
    DumpRegisters(u8),
    /// `FX65`: load V0..=VX from idx onwards; idx unchanged.
    FillRegisters(u8),
    /// A word outside the instruction set, carried as it was read.
    Unrecognized(u16),
}

/// The instruction that a 16-bit word denotes.
pub open spec fn decode_word(w: u16) -> Opcode {
    let x = nibble(w, 1);
    let y = nibble(w, 2);
    let n = nibble(w, 3);
    let nn = (w % 256) as u8;
    let nnn = (w % 4096) as u16;
    let lead = nibble(w, 0);
    if lead == 0 {
        if nnn == 0x0E0 {
            Opcode::ClearScreen
        } else if nnn == 0x0EE {
            Opcode::Return
        } else {
            Opcode::MachineCall(nnn)
        }
    } else if lead == 1 {
        Opcode::Jump(nnn)
    } else if lead == 2 {
        Opcode::Call(nnn)
    } else if lead == 3 {
        Opcode::SkipIfEqVal(x, nn)
    } else if lead == 4 {
        Opcode::SkipIfNotEqVal(x, nn)
    } else if lead == 5 {
        if n == 0 { Opcode::SkipIfMatchReg(x, y) } else { Opcode::Unrecognized(w) }
    } else if lead == 6 {
        Opcode::SetRegister(x, nn)
    } else if lead == 7 {
        Opcode::Add(x, nn)
    } else if lead == 8 {
        if n == 0 {
            Opcode::Assign(x, y)
        } else if n == 1 {
            Opcode::AssignOr(x, y)
        } else if n == 2 {
            Opcode::AssignAnd(x, y)
        } else if n == 3 {
            Opcode::AssignXor(x, y)
        } else if n == 4 {
            Opcode::AddAssign(x, y)
        } else if n == 5 {
            Opcode::SubAssign(x, y)
        } else if n == 6 {
            Opcode::ShiftRight(x)
        } else if n == 7 {
            Opcode::FlippedSubAssign(x, y)
        } else if n == 0xE {
            Opcode::ShiftLeft(x)
        } else {
            Opcode::Unrecognized(w)
        }
    } else if lead == 9 {
        if n == 0 { Opcode::SkipIfMismatchReg(x, y) } else { Opcode::Unrecognized(w) }
    } else if lead == 0xA {
        Opcode::SetIdx(nnn)
    } else if lead == 0xB {
        Opcode::JumpTo(nnn)
    } else if lead == 0xC {
        Opcode::Rand(x, nn)
    } else if lead == 0xD {
        Opcode::Draw(x, y, n)
    } else if lead == 0xE {
        if nn == 0x9E {
            Opcode::SkipIfPressed(x)
        } else if nn == 0xA1 {
            Opcode::SkipIfNotPressed(x)
        } else {
            Opcode::Unrecognized(w)
        }
    } else {
        if nn == 0x07 {
            Opcode::StoreDelay(x)
        } else if nn == 0x0A {
            Opcode::WaitKey(x)
        } else if nn == 0x15 {
            Opcode::SetDelay(x)
        } else if nn == 0x18 {
            Opcode::SetSound(x)
        } else if nn == 0x1E {
            Opcode::IncrementIdx(x)
        } else if nn == 0x29 {
            Opcode::NewSprite(x)
        } else if nn == 0x33 {
            Opcode::BCD(x)
        } else if nn == 0x55 {
            Opcode::DumpRegisters(x)
        } else if nn == 0x65 {
            Opcode::FillRegisters(x)
        } else {
            Opcode::Unrecognized(w)
        }
    }
}

/// The word that spells an instruction: opcode nibbles and operand fields in place.
///
/// Operands that decoding ignores (the Y of the two shifts) are written as zero.
pub open spec fn encode_word(op: Opcode) -> u16 {
    match op {
        Opcode::MachineCall(a) => a,
        Opcode::ClearScreen => 0x00E0,
        Opcode::Return => 0x00EE,
        Opcode::Jump(a) => (0x1000 + a) as u16,
        Opcode::Call(a) => (0x2000 + a) as u16,
        Opcode::SkipIfEqVal(x, nn) => (0x3000 + x * 256 + nn) as u16,
        Opcode::SkipIfNotEqVal(x, nn) => (0x4000 + x * 256 + nn) as u16,
        Opcode::SkipIfMatchReg(x, y) => (0x5000 + x * 256 + y * 16) as u16,
        Opcode::SetRegister(x, nn) => (0x6000 + x * 256 + nn) as u16,
        Opcode::Add(x, nn) => (0x7000 + x * 256 + nn) as u16,
        Opcode::Assign(x, y) => (0x8000 + x * 256 + y * 16) as u16,
        Opcode::AssignOr(x, y) => (0x8001 + x * 256 + y * 16) as u16,
        Opcode::AssignAnd(x, y) => (0x8002 + x * 256 + y * 16) as u16,
        Opcode::AssignXor(x, y) => (0x8003 + x * 256 + y * 16) as u16,
        Opcode::AddAssign(x, y) => (0x8004 + x * 256 + y * 16) as u16,
        Opcode::SubAssign(x, y) => (0x8005 + x * 256 + y * 16) as u16,
        Opcode::ShiftRight(x) => (0x8006 + x * 256) as u16,
        Opcode::FlippedSubAssign(x, y) => (0x8007 + x * 256 + y * 16) as u16,
        Opcode::ShiftLeft(x) => (0x800E + x * 256) as u16,
        Opcode::SkipIfMismatchReg(x, y) => (0x9000 + x * 256 + y * 16) as u16,
        Opcode::SetIdx(a) => (0xA000 + a) as u16,
        Opcode::JumpTo(a) => (0xB000 + a) as u16,
        Opcode::Rand(x, nn) => (0xC000 + x * 256 + nn) as u16,
        Opcode::Draw(x, y, n) => (0xD000 + x * 256 + y * 16 + n) as u16,
        Opcode::SkipIfPressed(x) => (0xE09E + x * 256) as u16,
        Opcode::SkipIfNotPressed(x) => (0xE0A1 + x * 256) as u16,
        Opcode::StoreDelay(x) => (0xF007 + x * 256) as u16,
        Opcode::WaitKey(x) => (0xF00A + x * 256) as u16,
        Opcode::SetDelay(x) => (0xF015 + x * 256) as u16,
        Opcode::SetSound(x) => (0xF018 + x * 256) as u16,
        Opcode::IncrementIdx(x) => (0xF01E + x * 256) as u16,
        Opcode::NewSprite(x) => (0xF029 + x * 256) as u16,
        Opcode::BCD(x) => (0xF033 + x * 256) as u16,
        Opcode::DumpRegisters(x) => (0xF055 + x * 256) as u16,
        Opcode::FillRegisters(x) => (0xF065 + x * 256) as u16,
        Opcode::Unrecognized(w) => w,
    }
}

impl Opcode {
    /// The instruction is representable: each register index is below 16, each
    /// address fits 12 bits, a sprite height fits one nibble, a machine call does
    /// not collide with the clear or return words, and an unrecognized word
    /// really lies outside the instruction set.
    pub open spec fn wf(self) -> bool {
        match self {
            Opcode::MachineCall(a) => a < 4096 && a != 0x0E0 && a != 0x0EE,
            Opcode::ClearScreen | Opcode::Return => true,
            Opcode::Jump(a) | Opcode::Call(a) | Opcode::SetIdx(a) | Opcode::JumpTo(a) => a < 4096,
            Opcode::SkipIfEqVal(x, _)
            | Opcode::SkipIfNotEqVal(x, _)
            | Opcode::SetRegister(x, _)
            | Opcode::Add(x, _)
            | Opcode::Rand(x, _) => x < 16,
            Opcode::SkipIfMatchReg(x, y)
            | Opcode::Assign(x, y)
            | Opcode::AssignOr(x, y)
            | Opcode::AssignAnd(x, y)
            | Opcode::AssignXor(x, y)
            | Opcode::AddAssign(x, y)
            | Opcode::SubAssign(x, y)
            | Opcode::FlippedSubAssign(x, y)
            | Opcode::SkipIfMismatchReg(x, y) => x < 16 && y < 16,
            Opcode::Draw(x, y, n) => x < 16 && y < 16 && n < 16,
            Opcode::ShiftRight(x)
            | Opcode::ShiftLeft(x)
            | Opcode::SkipIfPressed(x)
            | Opcode::SkipIfNotPressed(x)
            | Opcode::StoreDelay(x)
            | Opcode::WaitKey(x)
            | Opcode::SetDelay(x)
            | Opcode::SetSound(x)
            | Opcode::IncrementIdx(x)
            | Opcode::NewSprite(x)
            | Opcode::BCD(x)
            | Opcode::DumpRegisters(x)
            | Opcode::FillRegisters(x) => x < 16,
            Opcode::Unrecognized(w) => decode_word(w) == Opcode::Unrecognized(w),
        }
    }

    /// Decodes a raw word; words outside the instruction set give `Unrecognized`.
    pub fn decode(raw: RawOpcode) -> (r: Opcode)
        ensures
            r == decode_word(raw.0),
    {
        let w = raw.0;
        let addr = raw.last_three_digits();
        let nn = raw.last_byte();
        let x = raw.hex_digit_from_left(1);
        match raw.hex_digit_from_left(0) {
            0 => {
                if addr == 0x0E0 {
                    Opcode::ClearScreen
                } else if addr == 0x0EE {
                    Opcode::Return
                } else {
                    Opcode::MachineCall(addr)
                }
            },
            1 => Opcode::Jump(addr),
            2 => Opcode::Call(addr),
            3 => Opcode::SkipIfEqVal(x, nn),
            4 => Opcode::SkipIfNotEqVal(x, nn),
            5 => {
                if raw.hex_digit_from_left(3) != 0 {
                    Opcode::Unrecognized(w)
                } else {
                    let (x, y) = raw.middle_digits();
                    Opcode::SkipIfMatchReg(x, y)
                }
            },
            6 => Opcode::SetRegister(x, nn),
            7 => Opcode::Add(x, nn),
            8 => {
                let (x, y) = raw.middle_digits();
                match raw.hex_digit_from_left(3) {
                    0 => Opcode::Assign(x, y),
                    1 => Opcode::AssignOr(x, y),
                    2 => Opcode::AssignAnd(x, y),
                    3 => Opcode::AssignXor(x, y),
                    4 => Opcode::AddAssign(x, y),
                    5 => Opcode::SubAssign(x, y),
                    6 => Opcode::ShiftRight(x),
                    7 => Opcode::FlippedSubAssign(x, y),
                    0xE => Opcode::ShiftLeft(x),
                    _ => Opcode::Unrecognized(w),
                }
            },
            9 => {
                if raw.hex_digit_from_left(3) == 0 {
                    let (x, y) = raw.middle_digits();
                    Opcode::SkipIfMismatchReg(x, y)
                } else {
                    Opcode::Unrecognized(w)
                }
            },
            0xA => Opcode::SetIdx(addr),
            0xB => Opcode::JumpTo(addr),
            0xC => Opcode::Rand(x, nn),
            0xD => {
                let (x, y) = raw.middle_digits();
                Opcode::Draw(x, y, raw.hex_digit_from_left(3))
            },
            0xE => {
                if nn == 0x9E {
                    Opcode::SkipIfPressed(x)
                } else if nn == 0xA1 {
                    Opcode::SkipIfNotPressed(x)
                } else {
                    Opcode::Unrecognized(w)
                }
            },
            _ => {
                match nn {
                    0x07 => Opcode::StoreDelay(x),
                    0x0A => Opcode::WaitKey(x),
                    0x15 => Opcode::SetDelay(x),
                    0x18 => Opcode::SetSound(x),
                    0x1E => Opcode::IncrementIdx(x),
                    0x29 => Opcode::NewSprite(x),
                    0x33 => Opcode::BCD(x),
                    0x55 => Opcode::DumpRegisters(x),
                    0x65 => Opcode::FillRegisters(x),
                    _ => Opcode::Unrecognized(w),
                }
            },
        }
    }
}

/// What decoding two adjacent program bytes gives: the instruction, or the
/// word itself as an error when it lies outside the instruction set.
pub open spec fn decode_bytes(first: u8, second: u8) -> Result<Opcode, Chip8Error> {
    let w = (first * 256 + second) as u16;
    match decode_word(w) {
        Opcode::Unrecognized(u) => Err(Chip8Error::InvalidOpcode(u)),
        op => Ok(op),
    }
}

/// What reading an instruction from hex text gives.
pub open spec fn parse_hex_text(text: Seq<u8>) -> Result<Opcode, Chip8Error> {
    if !hex_well_formed(text) {
        Err(Chip8Error::InvalidHex)
    } else if hex_bytes(text).len() != 2 {
        Err(Chip8Error::WrongByteCount(hex_bytes(text).len() as usize))
    } else {
        Ok(decode_word((hex_bytes(text)[0] * 256 + hex_bytes(text)[1]) as u16))
    }
}

impl RawOpcode {
    /// The word itself.
    pub fn value(&self) -> (r: u16)
        ensures
            r == self.0,
    {
        self.0
    }
}

impl From<u16> for RawOpcode {
    fn from(x: u16) -> (r: RawOpcode) {
        RawOpcode(x)
    }
}

impl vstd::std_specs::convert::FromSpecImpl<u16> for RawOpcode {
    open spec fn obeys_from_spec() -> bool {
        true
    }

    open spec fn from_spec(v: u16) -> RawOpcode {
        RawOpcode(v)
    }
}

impl From<RawOpcode> for u16 {
    fn from(raw: RawOpcode) -> (r: u16) {
        raw.0
    }
}

impl vstd::std_specs::convert::FromSpecImpl<RawOpcode> for u16 {
    open spec fn obeys_from_spec() -> bool {
        true
    }

    open spec fn from_spec(v: RawOpcode) -> u16 {
        v.0
    }
}

impl Opcode {
    /// Decodes two adjacent program bytes, high byte first; a word outside the
    /// instruction set is an `InvalidOpcode` error carrying that word.
    pub fn new(first: u8, second: u8) -> (r: Result<Opcode, Chip8Error>)
        ensures
            r == decode_bytes(first, second),
    {
        let op = Opcode::from_adjacent(first, second);
        match op {
            Opcode::Unrecognized(w) => Err(Chip8Error::InvalidOpcode(w)),
            _ => Ok(op),
        }
    }

    /// Decodes two adjacent program bytes, high byte first; a word outside the
    /// instruction set gives `Unrecognized`.
    pub fn from_adjacent(byte_one: u8, byte_two: u8) -> (r: Opcode)
        ensures
            r == decode_word((byte_one * 256 + byte_two) as u16),
    {
        Opcode::decode(RawOpcode::new(byte_one, byte_two))
    }

    /// Reads an instruction written as hex text, such as `"A2F0"`: the text must
    /// spell exactly two bytes.
    pub fn from_hex_str(s: &str) -> (r: Result<Opcode, Chip8Error>)
        ensures
            r == parse_hex_text(s.spec_bytes()),
    {
        let text = s.as_bytes();
        match decode_hex(text) {
            Err(_) => Err(Chip8Error::InvalidHex),
            Ok(bytes) => {
                if bytes.len() != 2 {
                    Err(Chip8Error::WrongByteCount(bytes.len()))
                } else {
                    Ok(Opcode::from_adjacent(bytes[0], bytes[1]))
                }
            },
        }
    }

    /// The word that spells this instruction.
    pub fn encode(&self) -> (r: u16)
        requires
            self.wf(),
        ensures
            r == encode_word(*self),
    {
        match *self {
            Opcode::MachineCall(a) => a,
            Opcode::ClearScreen => 0x00E0,
            Opcode::Return => 0x00EE,
            Opcode::Jump(a) => 0x1000 + a,
            Opcode::Call(a) => 0x2000 + a,
            Opcode::SkipIfEqVal(x, nn) => 0x3000 + x as u16 * 256 + nn as u16,
            Opcode::SkipIfNotEqVal(x, nn) => 0x4000 + x as u16 * 256 + nn as u16,
            Opcode::SkipIfMatchReg(x, y) => 0x5000 + x as u16 * 256 + y as u16 * 16,
            Opcode::SetRegister(x, nn) => 0x6000 + x as u16 * 256 + nn as u16,
            Opcode::Add(x, nn) => 0x7000 + x as u16 * 256 + nn as u16,
            Opcode::Assign(x, y) => 0x8000 + x as u16 * 256 + y as u16 * 16,
            Opcode::AssignOr(x, y) => 0x8001 + x as u16 * 256 + y as u16 * 16,
            Opcode::AssignAnd(x, y) => 0x8002 + x as u16 * 256 + y as u16 * 16,
            Opcode::AssignXor(x, y) => 0x8003 + x as u16 * 256 + y as u16 * 16,
            Opcode::AddAssign(x, y) => 0x8004 + x as u16 * 256 + y as u16 * 16,
            Opcode::SubAssign(x, y) => 0x8005 + x as u16 * 256 + y as u16 * 16,
            Opcode::ShiftRight(x) => 0x8006 + x as u16 * 256,
            Opcode::FlippedSubAssign(x, y) => 0x8007 + x as u16 * 256 + y as u16 * 16,
            Opcode::ShiftLeft(x) => 0x800E + x as u16 * 256,
            Opcode::SkipIfMismatchReg(x, y) => 0x9000 + x as u16 * 256 + y as u16 * 16,
            Opcode::SetIdx(a) => 0xA000 + a,
            Opcode::JumpTo(a) => 0xB000 + a,
            Opcode::Rand(x, nn) => 0xC000 + x as u16 * 256 + nn as u16,
            Opcode::Draw(x, y, n) => 0xD000 + x as u16 * 256 + y as u16 * 16 + n as u16,
            Opcode::SkipIfPressed(x) => 0xE09E + x as u16 * 256,
            Opcode::SkipIfNotPressed(x) => 0xE0A1 + x as u16 * 256,
            Opcode::StoreDelay(x) => 0xF007 + x as u16 * 256,
            Opcode::WaitKey(x) => 0xF00A + x as u16 * 256,
            Opcode::SetDelay(x) => 0xF015 + x as u16 * 256,
            Opcode::SetSound(x) => 0xF018 + x as u16 * 256,
            Opcode::IncrementIdx(x) => 0xF01E + x as u16 * 256,
            Opcode::NewSprite(x) => 0xF029 + x as u16 * 256,
            Opcode::BCD(x) => 0xF033 + x as u16 * 256,
            Opcode::DumpRegisters(x) => 0xF055 + x as u16 * 256,
            Opcode::FillRegisters(x) => 0xF065 + x as u16 * 256,
            Opcode::Unrecognized(w) => w,
        }
    }
}

impl From<RawOpcode> for Opcode {
    fn from(raw: RawOpcode) -> (r: Opcode) {
        Opcode::decode(raw)
    }
}

impl vstd::std_specs::convert::FromSpecImpl<RawOpcode> for Opcode {
    open spec fn obeys_from_spec() -> bool {
        true
    }

    open spec fn from_spec(v: RawOpcode) -> Opcode {
        decode_word(v.0)
    }
}

impl From<u16> for Opcode {
    fn from(w: u16) -> (r: Opcode) {
        Opcode::decode(RawOpcode(w))
    }
}

impl vstd::std_specs::convert::FromSpecImpl<u16> for Opcode {
    open spec fn obeys_from_spec() -> bool {
        true
    }

    open spec fn from_spec(v: u16) -> Opcode {
        decode_word(v)
    }
}

impl std::str::FromStr for Opcode {
    type Err = Chip8Error;

    fn from_str(s: &str) -> Result<Opcode, Chip8Error> {
        Opcode::from_hex_str(s)
    }
}

/// Decoding always yields a representable instruction.
pub proof fn lemma_decode_wf(w: u16)
    ensures
        decode_word(w).wf(),
{
}

/// The fields of a word assembled from four nibbles.
proof fn lemma_word_fields(w: u16, lead: u16, x: u16, y: u16, n: u16)
    requires
        lead < 16,
        x < 16,
        y < 16,
        n < 16,
        w == lead * 4096 + x * 256 + y * 16 + n,
    ensures
        w / 4096 == lead,
        (w / 256) % 16 == x,
        (w / 16) % 16 == y,
        w % 16 == n,
        w % 256 == y * 16 + n,
        w % 4096 == x * 256 + y * 16 + n,
{
    assert(w / 4096 == lead && (w / 256) % 16 == x && (w / 16) % 16 == y && w % 16 == n
        && w % 256 == y * 16 + n && w % 4096 == x * 256 + y * 16 + n) by (nonlinear_arith)
        requires
            lead < 16,
            x < 16,
            y < 16,
            n < 16,
            w == lead * 4096 + x * 256 + y * 16 + n,
    ;
}

/// The fields of a word whose low twelve bits are an address.
proof fn lemma_addr_fields(w: u16, lead: u16, a: u16)
    requires
        lead < 16,
        a < 4096,
        w == lead * 4096 + a,
    ensures
        nibble(w, 0) == lead,
        w % 4096 == a,
        w % 256 == a % 256,
        nibble(w, 1) == a / 256,
        nibble(w, 2) == (a / 16) % 16,
        nibble(w, 3) == a % 16,
{
    lemma_word_fields(w, lead, a / 256, (a / 16) % 16, a % 16);
}

/// The fields of a word with a register in the second nibble and a byte after it.
proof fn lemma_byte_fields(w: u16, lead: u16, x: u16, nn: u16)
    requires
        lead < 16,
        x < 16,
        nn < 256,
        w == lead * 4096 + x * 256 + nn,
    ensures
        nibble(w, 0) == lead,
        nibble(w, 1) == x,
        w % 256 == nn,
        nibble(w, 2) == nn / 16,
        nibble(w, 3) == nn % 16,
{
    lemma_word_fields(w, lead, x, nn / 16, nn % 16);
}

/// Decoding the word that spells a representable instruction gives that
/// instruction back.
pub proof fn lemma_decode_encode(op: Opcode)
    requires
        op.wf(),
    ensures
        decode_word(encode_word(op)) == op,
{
    let w = encode_word(op);
    match op {
        Opcode::MachineCall(a) => lemma_addr_fields(w, 0, a),
        Opcode::ClearScreen => lemma_addr_fields(w, 0, 0x0E0),
        Opcode::Return => lemma_addr_fields(w, 0, 0x0EE),
        Opcode::Jump(a) => lemma_addr_fields(w, 1, a),
        Opcode::Call(a) => lemma_addr_fields(w, 2, a),
        Opcode::SkipIfEqVal(x, nn) => lemma_byte_fields(w, 3, x as u16, nn as u16),
        Opcode::SkipIfNotEqVal(x, nn) => lemma_byte_fields(w, 4, x as u16, nn as u16),
        Opcode::SkipIfMatchReg(x, y) => lemma_word_fields(w, 5, x as u16, y as u16, 0),
        Opcode::SetRegister(x, nn) => lemma_byte_fields(w, 6, x as u16, nn as u16),
        Opcode::Add(x, nn) => lemma_byte_fields(w, 7, x as u16, nn as u16),
        Opcode::Assign(x, y) => lemma_word_fields(w, 8, x as u16, y as u16, 0),
        Opcode::AssignOr(x, y) => lemma_word_fields(w, 8, x as u16, y as u16, 1),
        Opcode::AssignAnd(x, y) => lemma_word_fields(w, 8, x as u16, y as u16, 2),
        Opcode::AssignXor(x, y) => lemma_word_fields(w, 8, x as u16, y as u16, 3),
        Opcode::AddAssign(x, y) => lemma_word_fields(w, 8, x as u16, y as u16, 4),
        Opcode::SubAssign(x, y) => lemma_word_fields(w, 8, x as u16, y as u16, 5),
        Opcode::ShiftRight(x) => lemma_word_fields(w, 8, x as u16, 0, 6),
        Opcode::FlippedSubAssign(x, y) => lemma_word_fields(w, 8, x as u16, y as u16, 7),
        Opcode::ShiftLeft(x) => lemma_word_fields(w, 8, x as u16, 0, 0xE),
        Opcode::SkipIfMismatchReg(x, y) => lemma_word_fields(w, 9, x as u16, y as u16, 0),
        Opcode::SetIdx(a) => lemma_addr_fields(w, 0xA, a),
        Opcode::JumpTo(a) => lemma_addr_fields(w, 0xB, a),
        Opcode::Rand(x, nn) => lemma_byte_fields(w, 0xC, x as u16, nn as u16),
        Opcode::Draw(x, y, n) => lemma_word_fields(w, 0xD, x as u16, y as u16, n as u16),
        Opcode::SkipIfPressed(x) => lemma_byte_fields(w, 0xE, x as u16, 0x9E),
        Opcode::SkipIfNotPressed(x) => lemma_byte_fields(w, 0xE, x as u16, 0xA1),
        Opcode::StoreDelay(x) => lemma_byte_fields(w, 0xF, x as u16, 0x07),
        Opcode::WaitKey(x) => lemma_byte_fields(w, 0xF, x as u16, 0x0A),
        Opcode::SetDelay(x) => lemma_byte_fields(w, 0xF, x as u16, 0x15),
        Opcode::SetSound(x) => lemma_byte_fields(w, 0xF, x as u16, 0x18),
        Opcode::IncrementIdx(x) => lemma_byte_fields(w, 0xF, x as u16, 0x1E),
        Opcode::NewSprite(x) => lemma_byte_fields(w, 0xF, x as u16, 0x29),
        Opcode::BCD(x) => lemma_byte_fields(w, 0xF, x as u16, 0x33),
        Opcode::DumpRegisters(x) => lemma_byte_fields(w, 0xF, x as u16, 0x55),
        Opcode::FillRegisters(x) => lemma_byte_fields(w, 0xF, x as u16, 0x65),
        Opcode::Unrecognized(_) => {},
    }
}

/// Splitting the word of a representable instruction into its two bytes and
/// decoding them gives that instruction back.
pub proof fn lemma_decode_bytes_of_encode(op: Opcode)
    requires
        op.wf(),
        !(op is Unrecognized),
    ensures
        decode_bytes((encode_word(op) / 256) as u8, (encode_word(op) % 256) as u8) == Ok::<
            Opcode,
            Chip8Error,
        >(op),
{
    let w = encode_word(op);
    assert(((w / 256) as u8) * 256 + ((w % 256) as u8) == w);
    lemma_decode_encode(op);
}

} // verus!
