//! What each instruction, and each whole cycle, does to the machine state.

use crate::error::Chip8Error;
use crate::machine::{blank_screen, MachineState};
use crate::opcode::{decode_bytes, Opcode};
use vstd::prelude::*;

verus! {

/// Whether keypad key `k` is down; a value past the keypad never is.
pub open spec fn key_is_down(keys: Seq<bool>, k: u8) -> bool {
    k < 16 && keys[k as int]
}

/// The lowest pressed key at index `i` or above.
pub open spec fn first_pressed_from(keys: Seq<bool>, i: int) -> Option<u8>
    decreases 16 - i,
{
    if i >= 16 || i < 0 {
        None
    } else if keys[i] {
        Some(i as u8)
    } else {
        first_pressed_from(keys, i + 1)
    }
}

/// The lowest pressed key, if any key is pressed.
pub open spec fn first_pressed(keys: Seq<bool>) -> Option<u8> {
    first_pressed_from(keys, 0)
}

/// Whether bit `c` of a sprite row, counted from the most significant, is set.
pub open spec fn sprite_bit(b: u8, c: int) -> bool {
    b & (0x80u8 >> (c as u8)) != 0
}

/// The sprite row that lands on screen row `row` when the sprite's top is at `vy`.
pub open spec fn sprite_row(vy: u8, row: int) -> int {
    (row - vy) % 32
}

/// The sprite column that lands on screen column `col` when the sprite's left edge is at `vx`.
pub open spec fn sprite_col(vx: u8, col: int) -> int {
    (col - vx) % 64
}

/// Whether a set sprite bit lands on pixel `p` when the `h`-row sprite at `idx`
/// is drawn at `(vx, vy)`, wrapping at the screen edges.
pub open spec fn sprite_covers(s: MachineState, vx: u8, vy: u8, h: u8, p: int) -> bool {
    let r = sprite_row(vy, p / 64);
    let c = sprite_col(vx, p % 64);
    r < h && c < 8 && sprite_bit(s.memory[s.idx + r], c)
}

/// The screen after the sprite is XOR-ed onto it.
pub open spec fn drawn_screen(s: MachineState, vx: u8, vy: u8, h: u8) -> Seq<u8> {
    Seq::new(
        2048,
        |p: int|
            if sprite_covers(s, vx, vy, h, p) {
                s.screen[p] ^ 1
            } else {
                s.screen[p]
            },
    )
}

/// Whether the sprite lands a set bit on a pixel that was already on.
pub open spec fn draw_collides(s: MachineState, vx: u8, vy: u8, h: u8) -> bool {
    exists|p: int| 0 <= p < 2048 && #[trigger] sprite_covers(s, vx, vy, h, p) && s.screen[p] == 1
}

/// The flag value of a condition.
pub open spec fn flag(b: bool) -> u8 {
    if b {
        1
    } else {
        0
    }
}

/// `(a - b)` wrapped into a byte.
pub open spec fn wrapping_diff(a: u8, b: u8) -> u8 {
    ((a - b + 256) % 256) as u8
}

/// What executing `op` does: the state after it, or the error that stops it,
/// in which case the state stays as it was. `random` is the byte that `Rand`
/// draws. Every effect but a jump, call, return or a `WaitKey` still waiting
/// moves the program counter on by 2, or by 4 for a skip that is taken.
pub open spec fn execute_spec(s: MachineState, op: Opcode, random: u8) -> Result<
    MachineState,
    Chip8Error,
> {
    match op {
        Opcode::MachineCall(a) => Err(Chip8Error::MachineCallUnsupported(a)),
        Opcode::ClearScreen => Ok(
            MachineState { screen: blank_screen(), draw_flag: true, ..s }.advanced(2),
        ),
        Opcode::Return => {
            if s.sp == 0 {
                Err(Chip8Error::StackUnderflow)
            } else {
                let top = (s.sp - 1) as usize;
                Ok(
                    MachineState {
                        stack: s.stack.update(top as int, 0),
                        sp: top,
                        pc: s.stack[top as int],
                        ..s
                    }.advanced(2),
                )
            }
        },
        Opcode::Jump(a) => Ok(MachineState { pc: a, ..s }),
        Opcode::Call(a) => {
            if s.sp >= 16 {
                Err(Chip8Error::StackOverflow)
            } else {
                Ok(
                    MachineState {
                        stack: s.stack.update(s.sp as int, s.pc),
                        sp: (s.sp + 1) as usize,
                        pc: a,
                        ..s
                    },
                )
            }
        },
        Opcode::SkipIfEqVal(x, nn) => Ok(s.advanced(if s.reg(x) == nn { 4 } else { 2 })),
        Opcode::SkipIfNotEqVal(x, nn) => Ok(s.advanced(if s.reg(x) != nn { 4 } else { 2 })),
        Opcode::SkipIfMatchReg(x, y) => Ok(s.advanced(if s.reg(x) == s.reg(y) { 4 } else { 2 })),
        Opcode::SetRegister(x, nn) => Ok(s.with_reg(x, nn).advanced(2)),
        Opcode::Add(x, nn) => Ok(s.with_reg(x, ((s.reg(x) + nn) % 256) as u8).advanced(2)),
        Opcode::Assign(x, y) => Ok(s.with_reg(x, s.reg(y)).advanced(2)),
        Opcode::AssignOr(x, y) => Ok(s.with_reg(x, s.reg(y) | s.reg(x)).advanced(2)),
        Opcode::AssignAnd(x, y) => Ok(s.with_reg(x, s.reg(y) & s.reg(x)).advanced(2)),
        Opcode::AssignXor(x, y) => Ok(s.with_reg(x, s.reg(y) ^ s.reg(x)).advanced(2)),
        Opcode::AddAssign(x, y) => {
            let sum = s.reg(x) + s.reg(y);
            Ok(s.with_reg(15, flag(sum > 255)).with_reg(x, (sum % 256) as u8).advanced(2))
        },
        Opcode::SubAssign(x, y) => Ok(
            s.with_reg(15, flag(s.reg(x) >= s.reg(y))).with_reg(
                x,
                wrapping_diff(s.reg(x), s.reg(y)),
            ).advanced(2),
        ),
        Opcode::ShiftRight(x) => Ok(
            s.with_reg(15, s.reg(x) % 2).with_reg(x, s.reg(x) / 2).advanced(2),
        ),
        Opcode::FlippedSubAssign(x, y) => Ok(
            s.with_reg(15, flag(s.reg(y) >= s.reg(x))).with_reg(
                x,
                wrapping_diff(s.reg(y), s.reg(x)),
            ).advanced(2),
        ),
        Opcode::ShiftLeft(x) => Ok(
            s.with_reg(15, s.reg(x) / 128).with_reg(x, ((s.reg(x) * 2) % 256) as u8).advanced(2),
        ),
        Opcode::SkipIfMismatchReg(x, y) => Ok(
            s.advanced(if s.reg(x) != s.reg(y) { 4 } else { 2 }),
        ),
        Opcode::SetIdx(a) => Ok(MachineState { idx: a, ..s }.advanced(2)),
        Opcode::JumpTo(a) => Ok(MachineState { pc: (a + s.reg(0)) as u16, ..s }),
        Opcode::Rand(x, mask) => Ok(s.with_reg(x, random & mask).advanced(2)),
        Opcode::Draw(x, y, h) => {
            if h > 0 && s.idx + h > 4096 {
                Err(Chip8Error::AddressOutOfRange((s.idx + h - 1) as u32))
            } else {
                let vx = s.reg(x);
                let vy = s.reg(y);
                Ok(
                    MachineState {
                        screen: drawn_screen(s, vx, vy, h),
                        draw_flag: true,
                        ..s
                    }.with_reg(15, flag(draw_collides(s, vx, vy, h))).advanced(2),
                )
            }
        },
        Opcode::SkipIfPressed(x) => Ok(
            s.advanced(if key_is_down(s.keys, s.reg(x)) { 4 } else { 2 }),
        ),
        Opcode::SkipIfNotPressed(x) => Ok(
            s.advanced(if !key_is_down(s.keys, s.reg(x)) { 4 } else { 2 }),
        ),
        Opcode::StoreDelay(x) => Ok(s.with_reg(x, s.delay_timer).advanced(2)),
        Opcode::WaitKey(x) => match first_pressed(s.keys) {
            Some(k) => Ok(s.with_reg(x, k).advanced(2)),
            None => Ok(s),
        },
        Opcode::SetDelay(x) => Ok(MachineState { delay_timer: s.reg(x), ..s }.advanced(2)),
        Opcode::SetSound(x) => Ok(MachineState { sound_timer: s.reg(x), ..s }.advanced(2)),
        Opcode::IncrementIdx(x) => {
            let sum = s.idx + s.reg(x);
            let flagged = s.with_reg(15, flag(sum > 0xFFF));
            Ok(MachineState { idx: (sum % 4096) as u16, ..flagged }.advanced(2))
        },
        Opcode::NewSprite(x) => Ok(MachineState { idx: (s.reg(x) * 5) as u16, ..s }.advanced(2)),
        Opcode::BCD(x) => {
            if s.idx + 2 >= 4096 {
                Err(Chip8Error::AddressOutOfRange((s.idx + 2) as u32))
            } else {
                let v = s.reg(x);
                Ok(
                    MachineState {
                        memory: s.memory.update(s.idx as int, v / 100).update(
                            s.idx + 1,
                            (v / 10) % 10,
                        ).update(s.idx + 2, v % 10),
                        ..s
                    }.advanced(2),
                )
            }
        },
        Opcode::DumpRegisters(x) => {
            if s.idx + x >= 4096 {
                Err(Chip8Error::AddressOutOfRange((s.idx + x) as u32))
            } else {
                Ok(
                    MachineState {
                        memory: Seq::new(
                            4096,
                            |a: int|
                                if s.idx <= a <= s.idx + x {
                                    s.registers[a - s.idx]
                                } else {
                                    s.memory[a]
                                },
                        ),
                        ..s
                    }.advanced(2),
                )
            }
        },
        Opcode::FillRegisters(x) => {
            if s.idx + x >= 4096 {
                Err(Chip8Error::AddressOutOfRange((s.idx + x) as u32))
            } else {
                Ok(
                    MachineState {
                        registers: Seq::new(
                            16,
                            |i: int|
                                if i <= x {
                                    s.memory[s.idx + i]
                                } else {
                                    s.registers[i]
                                },
                        ),
                        ..s
                    }.advanced(2),
                )
            }
        },
        Opcode::Unrecognized(w) => Err(Chip8Error::InvalidOpcode(w)),
    }
}

/// One timer tick: each timer above zero counts down by one.
pub open spec fn tick_timers(s: MachineState) -> MachineState {
    MachineState {
        delay_timer: if s.delay_timer > 0 { (s.delay_timer - 1) as u8 } else { 0 },
        sound_timer: if s.sound_timer > 0 { (s.sound_timer - 1) as u8 } else { 0 },
        ..s
    }
}

/// The instruction at the program counter, or why none can be read there.
pub open spec fn fetch_spec(s: MachineState) -> Result<Opcode, Chip8Error> {
    if s.pc + 1 >= 4096 {
        Err(Chip8Error::AddressOutOfRange((s.pc + 1) as u32))
    } else {
        decode_bytes(s.memory[s.pc as int], s.memory[s.pc + 1])
    }
}

/// One cycle: fetch, decode, execute, timer tick. Gives the state after it and
/// either whether the alert is due (the sound timer left 1) or the error that
/// stopped the cycle; a stopped cycle leaves the state as it was, but for the
/// instruction it fetched.
pub open spec fn cycle_spec(s: MachineState, random: u8) -> (
    MachineState,
    Result<bool, Chip8Error>,
) {
    match fetch_spec(s) {
        Err(e) => (s, Err(e)),
        Ok(op) => {
            let fetched = MachineState { opcode: op, ..s };
            match execute_spec(fetched, op, random) {
                Err(e) => (fetched, Err(e)),
                Ok(t) => (tick_timers(t), Ok(t.sound_timer == 1)),
            }
        },
    }
}

} // verus!
