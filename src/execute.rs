//! Executing one instruction on the machine.

use crate::draw::lemma_drawn_screen_wf;
use crate::error::Chip8Error;
use crate::machine::{blank_screen, screen_wf, Machine, MachineState, STACK_SIZE, MEM_SIZE};
use crate::opcode::{decode_word, lemma_decode_wf, Opcode, RawOpcode};
use crate::semantics::{execute_spec, first_pressed, first_pressed_from, key_is_down};
use vstd::prelude::*;

verus! {

impl Machine {
    /// Moves the program counter on to the next instruction.
    fn next_opcode(&mut self)
        ensures
            final(self)@ == old(self)@.advanced(2),
    {
        self.pc = self.pc.wrapping_add(2);
    }

    /// Turns every pixel off.
    fn clear_screen(&mut self)
        ensures
            final(self)@ == (MachineState { screen: blank_screen(), ..old(self)@ }),
    {
        self.screen = [0u8; 2048];
        assert(self.screen@ =~= blank_screen());
    }

    /// Whether keypad key `key` is down.
    fn key_pressed(&self, key: u8) -> (r: bool)
        ensures
            r == key_is_down(self@.keys, key),
    {
        self.key.is_pressed(key)
    }

    /// Pushes the program counter as a return address.
    fn push_callsite(&mut self)
        requires
            old(self).sp < 16,
        ensures
            final(self)@ == (MachineState {
                stack: old(self)@.stack.update(old(self).sp as int, old(self).pc),
                sp: (old(self).sp + 1) as usize,
                ..old(self)@
            }),
    {
        self.stack[self.sp] = self.pc;
        self.sp = self.sp + 1;
        assert(self.stack@ =~= old(self)@.stack.update(old(self).sp as int, old(self).pc));
    }

    /// Pops the newest return address into the program counter and clears its slot.
    fn pop_callsite(&mut self)
        requires
            0 < old(self).sp <= 16,
        ensures
            final(self)@ == (MachineState {
                stack: old(self)@.stack.update(old(self).sp - 1, 0),
                sp: (old(self).sp - 1) as usize,
                pc: old(self)@.stack[old(self).sp - 1],
                ..old(self)@
            }),
    {
        self.sp = self.sp - 1;
        let ret = self.stack[self.sp];
        self.stack[self.sp] = 0;
        self.pc = ret;
        assert(self.stack@ =~= old(self)@.stack.update(old(self).sp - 1, 0));
    }

    /// The index of the lowest pressed key, if any.
    fn first_key_pressed(&self) -> (r: Option<u8>)
        ensures
            r == first_pressed(self@.keys),
    {
        let keys = self.key.inner();
        let mut i: usize = 0;
        while i < 16
            invariant
                i <= 16,
                keys@ == self@.keys,
                first_pressed(keys@) == first_pressed_from(keys@, i as int),
            decreases 16 - i,
        {
            if keys[i] {
                return Some(i as u8);
            }
            i = i + 1;
        }
        None
    }

    /// Stores the decimal digits of VX at idx, idx + 1 and idx + 2.
    fn binary_coded_decimal(&mut self, x: u8)
        requires
            x < 16,
            old(self).idx + 2 < 4096,
        ensures
            final(self)@ == (MachineState {
                memory: old(self)@.memory.update(
                    old(self).idx as int,
                    old(self)@.reg(x) / 100,
                ).update(old(self).idx + 1, (old(self)@.reg(x) / 10) % 10).update(
                    old(self).idx + 2,
                    old(self)@.reg(x) % 10,
                ),
                ..old(self)@
            }),
    {
        let reg_x = self.register_get(x);
        let i = self.idx;
        self.memory_set(i, reg_x / 100);
        self.memory_set(i + 1, (reg_x / 10) % 10);
        self.memory_set(i + 2, reg_x % 10);
    }

    /// Stores V0..=VX in memory from idx on.
    fn dump_registers(&mut self, x: u8)
        requires
            x < 16,
            old(self).idx + x < 4096,
        ensures
            final(self)@ == (MachineState {
                memory: Seq::new(
                    4096,
                    |a: int|
                        if old(self).idx <= a <= old(self).idx + x {
                            old(self)@.registers[a - old(self).idx]
                        } else {
                            old(self)@.memory[a]
                        },
                ),
                ..old(self)@
            }),
    {
        let start = self.idx;
        let mut i: u8 = 0;
        assert(self@.memory =~= Seq::new(
            4096,
            |a: int|
                if start <= a < start + 0 {
                    old(self)@.registers[a - start]
                } else {
                    old(self)@.memory[a]
                },
        ));
        while i <= x
            invariant
                x < 16,
                i <= x + 1,
                start == old(self).idx,
                start + x < 4096,
                self@ == (MachineState {
                    memory: Seq::new(
                        4096,
                        |a: int|
                            if start <= a < start + i {
                                old(self)@.registers[a - start]
                            } else {
                                old(self)@.memory[a]
                            },
                    ),
                    ..old(self)@
                }),
            decreases x + 1 - i,
        {
            let v = self.register_get(i);
            self.memory_set(start + i as u16, v);
            i = i + 1;
            assert(self@.memory =~= Seq::new(
                4096,
                |a: int|
                    if start <= a < start + i {
                        old(self)@.registers[a - start]
                    } else {
                        old(self)@.memory[a]
                    },
            ));
        }
        assert(self@.memory =~= Seq::new(
            4096,
            |a: int|
                if start <= a <= start + x {
                    old(self)@.registers[a - start]
                } else {
                    old(self)@.memory[a]
                },
        ));
    }

    /// Loads V0..=VX from memory from idx on.
    fn fill_registers(&mut self, x: u8)
        requires
            x < 16,
            old(self).idx + x < 4096,
        ensures
            final(self)@ == (MachineState {
                registers: Seq::new(
                    16,
                    |i: int|
                        if i <= x {
                            old(self)@.memory[old(self).idx + i]
                        } else {
                            old(self)@.registers[i]
                        },
                ),
                ..old(self)@
            }),
    {
        let start = self.idx;
        let mut i: u8 = 0;
        assert(self@.registers =~= Seq::new(
            16,
            |j: int|
                if j < 0 {
                    old(self)@.memory[start + j]
                } else {
                    old(self)@.registers[j]
                },
        ));
        while i <= x
            invariant
                x < 16,
                i <= x + 1,
                start == old(self).idx,
                start + x < 4096,
                self@ == (MachineState {
                    registers: Seq::new(
                        16,
                        |j: int|
                            if j < i {
                                old(self)@.memory[start + j]
                            } else {
                                old(self)@.registers[j]
                            },
                    ),
                    ..old(self)@
                }),
            decreases x + 1 - i,
        {
            let v = self.memory_get(start + i as u16);
            self.register_set(i, v);
            i = i + 1;
            assert(self@.registers =~= Seq::new(
                16,
                |j: int|
                    if j < i {
                        old(self)@.memory[start + j]
                    } else {
                        old(self)@.registers[j]
                    },
            ));
        }
        assert(self@.registers =~= Seq::new(
            16,
            |j: int|
                if j <= x {
                    old(self)@.memory[start + j]
                } else {
                    old(self)@.registers[j]
                },
        ));
    }
}

/// Two single steps of the program counter make one double step.
proof fn lemma_advance_twice(s: MachineState)
    ensures
        s.advanced(2).advanced(2) == s.advanced(4),
{
}

/// A step that succeeds keeps the machine's invariants.
pub proof fn lemma_execute_keeps_wf(s: MachineState, op: Opcode, random: u8)
    requires
        s.wf(),
        op.wf(),
    ensures
        execute_spec(s, op, random) matches Ok(t) ==> t.wf(),
{
    match op {
        Opcode::ClearScreen => {
            assert(screen_wf(blank_screen()));
        },
        Opcode::Draw(x, y, h) => {
            lemma_drawn_screen_wf(s, s.reg(x), s.reg(y), h);
        },
        _ => {},
    }
}

impl Machine {
    /// Applies one instruction. `random` is the byte that `Rand` masks; other
    /// instructions ignore it. On an error nothing changes.
    pub fn execute(&mut self, op: Opcode, random: u8) -> (r: Result<(), Chip8Error>)
        requires
            old(self).wf(),
            op.wf(),
        ensures
            final(self).wf(),
            match execute_spec(old(self)@, op, random) {
                Ok(t) => r is Ok && final(self)@ == t,
                Err(e) => r == Err::<(), Chip8Error>(e) && final(self)@ == old(self)@,
            },
    {
        match op {
            Opcode::MachineCall(_)
            | Opcode::ClearScreen
            | Opcode::Return
            | Opcode::Jump(_)
            | Opcode::Call(_)
            | Opcode::SkipIfEqVal(..)
            | Opcode::SkipIfNotEqVal(..)
            | Opcode::SkipIfMatchReg(..)
            | Opcode::SkipIfMismatchReg(..)
            | Opcode::JumpTo(_)
            | Opcode::SkipIfPressed(_)
            | Opcode::SkipIfNotPressed(_)
            | Opcode::WaitKey(_) => self.execute_control(op, random),
            Opcode::SetRegister(..)
            | Opcode::Add(..)
            | Opcode::Assign(..)
            | Opcode::AssignOr(..)
            | Opcode::AssignAnd(..)
            | Opcode::AssignXor(..)
            | Opcode::AddAssign(..)
            | Opcode::SubAssign(..)
            | Opcode::ShiftRight(_)
            | Opcode::FlippedSubAssign(..)
            | Opcode::ShiftLeft(_)
            | Opcode::Rand(..) => self.execute_registers(op, random),
            _ => self.execute_memory(op, random),
        }
    }

    /// The `0`-prefixed instructions, and those that decide where the program
    /// counter goes: jumps, calls, skips and the key wait.
    fn execute_control(&mut self, op: Opcode, random: u8) -> (r: Result<(), Chip8Error>)
        requires
            old(self).wf(),
            op.wf(),
            op is Call || op is ClearScreen || op is Jump || op is JumpTo || op is MachineCall
                || op is Return || op is SkipIfEqVal || op is SkipIfMatchReg
                || op is SkipIfMismatchReg || op is SkipIfNotEqVal || op is SkipIfNotPressed
                || op is SkipIfPressed || op is WaitKey,
        ensures
            final(self).wf(),
            match execute_spec(old(self)@, op, random) {
                Ok(t) => r is Ok && final(self)@ == t,
                Err(e) => r == Err::<(), Chip8Error>(e) && final(self)@ == old(self)@,
            },
    {
        proof {
            lemma_execute_keeps_wf(self@, op, random);
        }
        match op {
            Opcode::MachineCall(addr) => {
                return Err(Chip8Error::MachineCallUnsupported(addr));
            },
            Opcode::ClearScreen => {
                self.clear_screen();
                self.draw_flag = true;
                self.next_opcode();
            },
            Opcode::Return => {
                if self.sp == 0 {
                    return Err(Chip8Error::StackUnderflow);
                }
                self.pop_callsite();
                self.next_opcode();
            },
            Opcode::Jump(addr) => self.pc = addr,
            Opcode::Call(addr) => {
                if self.sp >= STACK_SIZE {
                    return Err(Chip8Error::StackOverflow);
                }
                self.push_callsite();
                self.pc = addr;
            },
            Opcode::SkipIfEqVal(x, nn) => {
                if self.register_get(x) == nn {
                    self.next_opcode();
                }
                self.next_opcode();
                proof {
                    lemma_advance_twice(old(self)@);
                }
            },
            Opcode::SkipIfNotEqVal(x, nn) => {
                if self.register_get(x) != nn {
                    self.next_opcode();
                }
                self.next_opcode();
                proof {
                    lemma_advance_twice(old(self)@);
                }
            },
            Opcode::SkipIfMatchReg(x, y) => {
                if self.register_get(x) == self.register_get(y) {
                    self.next_opcode();
                }
                self.next_opcode();
                proof {
                    lemma_advance_twice(old(self)@);
                }
            },
            Opcode::SkipIfMismatchReg(x, y) => {
                if self.register_get(x) != self.register_get(y) {
                    self.next_opcode();
                }
                self.next_opcode();
                proof {
                    lemma_advance_twice(old(self)@);
                }
            },
            Opcode::JumpTo(addr) => self.pc = addr + self.register_get(0) as u16,
            Opcode::SkipIfPressed(x) => {
                let key = self.register_get(x);
                if self.key_pressed(key) {
                    self.next_opcode();
                }
                self.next_opcode();
                proof {
                    lemma_advance_twice(old(self)@);
                }
            },
            Opcode::SkipIfNotPressed(x) => {
                let key = self.register_get(x);
                if !self.key_pressed(key) {
                    self.next_opcode();
                }
                self.next_opcode();
                proof {
                    lemma_advance_twice(old(self)@);
                }
            },
            Opcode::WaitKey(x) => {
                // With no key down the instruction runs again next cycle.
                if let Some(key) = self.first_key_pressed() {
                    self.register_set(x, key);
                    self.next_opcode();
                }
            },
            _ => {},
        }
        Ok(())
    }

    /// Instructions that compute on registers.
    fn execute_registers(&mut self, op: Opcode, random: u8) -> (r: Result<(), Chip8Error>)
        requires
            old(self).wf(),
            op.wf(),
            op is Add || op is AddAssign || op is Assign || op is AssignAnd || op is AssignOr
                || op is AssignXor || op is FlippedSubAssign || op is Rand || op is SetRegister
                || op is ShiftLeft || op is ShiftRight || op is SubAssign,
        ensures
            final(self).wf(),
            match execute_spec(old(self)@, op, random) {
                Ok(t) => r is Ok && final(self)@ == t,
                Err(e) => r == Err::<(), Chip8Error>(e) && final(self)@ == old(self)@,
            },
    {
        proof {
            lemma_execute_keeps_wf(self@, op, random);
        }
        match op {
            Opcode::SetRegister(x, nn) => {
                self.register_set(x, nn);
                self.next_opcode();
            },
            Opcode::Add(x, nn) => {
                let current = self.register_get(x);
                self.register_set(x, ((current as u16 + nn as u16) % 256) as u8);
                self.next_opcode();
            },
            Opcode::Assign(x, y) => {
                let v = self.register_get(y);
                self.register_set(x, v);
                self.next_opcode();
            },
            Opcode::AssignOr(x, y) => {
                let v = self.register_get(y) | self.register_get(x);
                self.register_set(x, v);
                self.next_opcode();
            },
            Opcode::AssignAnd(x, y) => {
                let v = self.register_get(y) & self.register_get(x);
                self.register_set(x, v);
                self.next_opcode();
            },
            Opcode::AssignXor(x, y) => {
                let v = self.register_get(y) ^ self.register_get(x);
                self.register_set(x, v);
                self.next_opcode();
            },
            Opcode::AddAssign(x, y) => {
                let sum: u16 = self.register_get(x) as u16 + self.register_get(y) as u16;
                if sum > 255 {
                    self.carry_on();
                } else {
                    self.carry_off();
                }
                self.register_set(x, (sum % 256) as u8);
                self.next_opcode();
            },
            Opcode::SubAssign(x, y) => {
                let reg_x = self.register_get(x);
                let reg_y = self.register_get(y);
                if reg_x >= reg_y {
                    self.carry_on();
                } else {
                    self.carry_off();
                }
                self.register_set(x, ((reg_x as u16 + 256 - reg_y as u16) % 256) as u8);
                self.next_opcode();
            },
            Opcode::ShiftRight(x) => {
                let reg = self.register_get(x);
                self.register_set(0xF, reg % 2);
                self.register_set(x, reg / 2);
                self.next_opcode();
            },
            Opcode::FlippedSubAssign(x, y) => {
                let reg_x = self.register_get(x);
                let reg_y = self.register_get(y);
                if reg_y >= reg_x {
                    self.carry_on();
                } else {
                    self.carry_off();
                }
                self.register_set(x, ((reg_y as u16 + 256 - reg_x as u16) % 256) as u8);
                self.next_opcode();
            },
            Opcode::ShiftLeft(x) => {
                let reg = self.register_get(x);
                self.register_set(0xF, reg / 128);
                self.register_set(x, ((reg as u16 * 2) % 256) as u8);
                self.next_opcode();
            },
            Opcode::Rand(x, mask) => {
                self.register_set(x, random & mask);
                self.next_opcode();
            },
            _ => {},
        }
        Ok(())
    }

    /// Instructions on the index register, timers, screen and memory.
    fn execute_memory(&mut self, op: Opcode, random: u8) -> (r: Result<(), Chip8Error>)
        requires
            old(self).wf(),
            op.wf(),
            op is BCD || op is Draw || op is DumpRegisters || op is FillRegisters
                || op is IncrementIdx || op is NewSprite || op is SetDelay || op is SetIdx
                || op is SetSound || op is StoreDelay || op is Unrecognized,
        ensures
            final(self).wf(),
            match execute_spec(old(self)@, op, random) {
                Ok(t) => r is Ok && final(self)@ == t,
                Err(e) => r == Err::<(), Chip8Error>(e) && final(self)@ == old(self)@,
            },
    {
        proof {
            lemma_execute_keeps_wf(self@, op, random);
        }
        match op {
            Opcode::SetIdx(addr) => {
                self.idx = addr;
                self.next_opcode();
            },
            Opcode::Draw(x, y, h) => {
                if h > 0 && self.idx as u32 + h as u32 > MEM_SIZE as u32 {
                    return Err(Chip8Error::AddressOutOfRange(self.idx as u32 + h as u32 - 1));
                }
                self.draw_sprite(x, y, h);
                self.draw_flag = true;
                self.next_opcode();
            },
            Opcode::StoreDelay(x) => {
                let v = self.delay_timer;
                self.register_set(x, v);
                self.next_opcode();
            },
            Opcode::SetDelay(x) => {
                self.delay_timer = self.register_get(x);
                self.next_opcode();
            },
            Opcode::SetSound(x) => {
                self.sound_timer = self.register_get(x);
                self.next_opcode();
            },
            Opcode::IncrementIdx(x) => {
                let sum: u32 = self.idx as u32 + self.register_get(x) as u32;
                if sum > 0xFFF {
                    self.carry_on();
                } else {
                    self.carry_off();
                }
                self.idx = (sum % 4096) as u16;
                self.next_opcode();
            },
            Opcode::NewSprite(x) => {
                self.idx = self.register_get(x) as u16 * 5;
                self.next_opcode();
            },
            Opcode::BCD(x) => {
                if self.idx as u32 + 2 >= MEM_SIZE as u32 {
                    return Err(Chip8Error::AddressOutOfRange(self.idx as u32 + 2));
                }
                self.binary_coded_decimal(x);
                self.next_opcode();
            },
            Opcode::DumpRegisters(x) => {
                if self.idx as u32 + x as u32 >= MEM_SIZE as u32 {
                    return Err(Chip8Error::AddressOutOfRange(self.idx as u32 + x as u32));
                }
                self.dump_registers(x);
                self.next_opcode();
            },
            Opcode::FillRegisters(x) => {
                if self.idx as u32 + x as u32 >= MEM_SIZE as u32 {
                    return Err(Chip8Error::AddressOutOfRange(self.idx as u32 + x as u32));
                }
                self.fill_registers(x);
                self.next_opcode();
            },
            Opcode::Unrecognized(w) => {
                return Err(Chip8Error::InvalidOpcode(w));
            },
            _ => {},
        }
        Ok(())
    }
}

impl Machine {
    /// Decodes `opcode` and executes it at once, with a random byte of zero for
    /// `Rand`; a word outside the instruction set is an `InvalidOpcode` error.
    pub fn test_opcode(&mut self, opcode: u16) -> (r: Result<(), Chip8Error>)
        requires
            old(self).wf(),
        ensures
            final(self).wf(),
            match execute_spec(old(self)@, decode_word(opcode), 0) {
                Ok(t) => r is Ok && final(self)@ == t,
                Err(e) => r == Err::<(), Chip8Error>(e) && final(self)@ == old(self)@,
            },
    {
        proof {
            lemma_decode_wf(opcode);
        }
        self.execute(Opcode::decode(RawOpcode(opcode)), 0)
    }
}

impl Opcode {
    /// Applies this instruction to `machine`; see [`Machine::execute`].
    pub fn execute(&self, machine: &mut Machine, random: u8) -> (r: Result<(), Chip8Error>)
        requires
            old(machine).wf(),
            self.wf(),
        ensures
            final(machine).wf(),
            match execute_spec(old(machine)@, *self, random) {
                Ok(t) => r is Ok && final(machine)@ == t,
                Err(e) => r == Err::<(), Chip8Error>(e) && final(machine)@ == old(machine)@,
            },
    {
        machine.execute(*self, random)
    }
}

} // verus!
