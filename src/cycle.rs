//! The cycle: fetch, decode, execute and tick the timers; and a step against
//! the world around the machine.

use crate::error::Chip8Error;
use crate::keys::Keys;
use crate::machine::{Machine, MachineState, Screen, MEM_SIZE};
use crate::opcode::{lemma_decode_wf, Opcode};
use crate::semantics::{cycle_spec, execute_spec, fetch_spec, first_pressed, tick_timers};
use vstd::prelude::*;

verus! {

/// What the machine asks of the world around it: input, output and chance.
pub trait Context {
    /// Called once, before the first step.
    fn init(&mut self);

    /// Sounds the alert.
    fn beep(&self);

    /// Gathers input for this step; true when the user asked to quit.
    fn listen_for_input(&mut self) -> bool;

    /// Shows the screen.
    fn draw_graphics(&mut self, screen: &Screen);

    /// The keypad as it is now.
    fn get_key_state(&self) -> Keys;

    /// A random byte.
    fn random_byte(&self) -> u8;
}

/// One step as the world sees it, given the random byte and the keypad that the
/// context supplies: a cycle, then, unless it failed, the screen is handed over
/// (clearing the draw flag) and the keypad is read for the next step.
pub open spec fn step_spec(s: MachineState, random: u8, keys: Seq<bool>) -> (
    MachineState,
    Result<bool, Chip8Error>,
) {
    let (t, res) = cycle_spec(s, random);
    match res {
        Err(e) => (t, Err(e)),
        Ok(_) => (MachineState { draw_flag: false, keys: keys, ..t }, Ok(false)),
    }
}

/// A fetched instruction is representable and lies inside the instruction set.
proof fn lemma_fetch_wf(s: MachineState)
    ensures
        fetch_spec(s) matches Ok(op) ==> op.wf() && !(op is Unrecognized),
{
    if s.pc + 1 < 4096 {
        lemma_decode_wf((s.memory[s.pc as int] * 256 + s.memory[s.pc + 1]) as u16);
    }
}

impl Machine {
    /// Reads the instruction at the program counter.
    fn fetch_opcode(&self) -> (r: Result<Opcode, Chip8Error>)
        ensures
            r == fetch_spec(self@),
    {
        if self.pc as u32 + 1 >= MEM_SIZE as u32 {
            return Err(Chip8Error::AddressOutOfRange(self.pc as u32 + 1));
        }
        let first_byte = self.current_byte();
        let second_byte = self.memory_get(self.pc + 1);
        Opcode::new(first_byte, second_byte)
    }

    /// Fetches the instruction at the program counter into `opcode`.
    pub fn update_opcode(&mut self) -> (r: Result<(), Chip8Error>)
        ensures
            match fetch_spec(old(self)@) {
                Ok(op) => r is Ok && final(self)@ == (MachineState { opcode: op, ..old(self)@ }),
                Err(e) => r == Err::<(), Chip8Error>(e) && final(self)@ == old(self)@,
            },
    {
        match self.fetch_opcode() {
            Ok(op) => {
                self.opcode = op;
                Ok(())
            },
            Err(e) => Err(e),
        }
    }

    /// Counts both timers down; true when the sound timer leaves 1, the moment
    /// the alert sounds.
    pub fn update_timers(&mut self) -> (beep: bool)
        ensures
            final(self)@ == tick_timers(old(self)@),
            beep == (old(self).sound_timer == 1),
    {
        if self.delay_timer > 0 {
            self.delay_timer = self.delay_timer - 1;
        }
        let mut beep = false;
        if self.sound_timer > 0 {
            if self.sound_timer == 1 {
                beep = true;
            }
            self.sound_timer = self.sound_timer - 1;
        }
        beep
    }

    /// One cycle: fetch, decode, execute, timer tick. `random` is the byte a
    /// `Rand` instruction draws. Gives whether the alert is due.
    pub fn cycle(&mut self, random: u8) -> (r: Result<bool, Chip8Error>)
        requires
            old(self).wf(),
        ensures
            final(self).wf(),
            (final(self)@, r) == cycle_spec(old(self)@, random),
    {
        proof {
            lemma_fetch_wf(self@);
        }
        match self.update_opcode() {
            Err(e) => return Err(e),
            Ok(()) => {},
        }
        let op = self.opcode;
        match self.execute(op, random) {
            Err(e) => return Err(e),
            Ok(()) => {},
        }
        Ok(self.update_timers())
    }

    /// One step against a context: stop if it asks to quit; otherwise run a
    /// cycle (drawing a random byte from it only for `Rand`), sound its alert
    /// when due, hand it the screen if the screen changed, and read its keypad
    /// for the next step. Gives true when the context asked to quit.
    pub fn step<C: Context>(&mut self, ctx: &mut C) -> (r: Result<bool, Chip8Error>)
        requires
            old(self).wf(),
        ensures
            final(self).wf(),
            r == Ok::<bool, Chip8Error>(true) ==> final(self)@ == old(self)@,
            r != Ok::<bool, Chip8Error>(true) ==> exists|random: u8, keys: Seq<bool>|
                keys.len() == 16 && (final(self)@, r) == #[trigger] step_spec(
                    old(self)@,
                    random,
                    keys,
                ),
    {
        if ctx.listen_for_input() {
            return Ok(true);
        }
        let ghost s = self@;
        let mut random: u8 = 0;
        if self.pc as u32 + 1 < MEM_SIZE as u32 {
            if let Opcode::Rand(_, _) = Opcode::from_adjacent(
                self.memory[self.pc as usize],
                self.memory[self.pc as usize + 1],
            ) {
                random = ctx.random_byte();
            }
        }
        let beep = match self.cycle(random) {
            Err(e) => {
                assert((self@, Err::<bool, Chip8Error>(e)) == step_spec(s, random, s.keys));
                return Err(e);
            },
            Ok(beep) => beep,
        };
        if beep {
            ctx.beep();
        }
        if self.draw_flag {
            ctx.draw_graphics(&self.screen);
            self.draw_flag = false;
        }
        let keys = ctx.get_key_state();
        self.set_keys(keys);
        assert((self@, Ok::<bool, Chip8Error>(false)) == step_spec(s, random, keys@));
        Ok(false)
    }
}

/// While `WaitKey` is at the program counter and no key is down, a step keeps
/// the program counter, registers and memory where they were, so the next step
/// meets the same `WaitKey` again.
pub proof fn lemma_wait_key_holds(s: MachineState, x: u8, random: u8, keys: Seq<bool>)
    requires
        s.wf(),
        fetch_spec(s) == Ok::<Opcode, Chip8Error>(Opcode::WaitKey(x)),
        first_pressed(s.keys) is None,
    ensures
        step_spec(s, random, keys).1 == Ok::<bool, Chip8Error>(false),
        step_spec(s, random, keys).0.pc == s.pc,
        step_spec(s, random, keys).0.registers == s.registers,
        step_spec(s, random, keys).0.memory == s.memory,
        fetch_spec(step_spec(s, random, keys).0) == Ok::<Opcode, Chip8Error>(Opcode::WaitKey(x)),
{
}

/// When `WaitKey` is at the program counter and a key is down, one step stores
/// the lowest such key in VX and moves the program counter on by 2.
pub proof fn lemma_wait_key_takes_key(
    s: MachineState,
    x: u8,
    k: u8,
    random: u8,
    keys: Seq<bool>,
)
    requires
        s.wf(),
        fetch_spec(s) == Ok::<Opcode, Chip8Error>(Opcode::WaitKey(x)),
        first_pressed(s.keys) == Some(k),
    ensures
        step_spec(s, random, keys).1 == Ok::<bool, Chip8Error>(false),
        step_spec(s, random, keys).0.pc == s.pc + 2,
        step_spec(s, random, keys).0.reg(x) == k,
{
    lemma_fetch_wf(s);
    let fetched = MachineState { opcode: Opcode::WaitKey(x), ..s };
    let t = fetched.with_reg(x, k).advanced(2);
    assert(execute_spec(fetched, Opcode::WaitKey(x), random) == Ok::<MachineState, Chip8Error>(t));
    assert(cycle_spec(s, random) == (tick_timers(t), Ok::<bool, Chip8Error>(t.sound_timer == 1)));
}

} // verus!
