//! The machine: memory, registers, timers, call stack, screen and keypad;
//! building it, resetting it and loading programs into it.

use crate::error::Chip8Error;
use crate::keys::Keys;
use crate::opcode::Opcode;
use vstd::prelude::*;

verus! {

/// Total memory, in bytes.
pub const MEM_SIZE: usize = 4096;
/// Number of general-purpose registers, VF included.
pub const NUM_REGISTERS: usize = 16;
/// Screen height, in pixels.
pub const PIXEL_ROWS: u32 = 32;
/// Screen width, in pixels.
pub const PIXEL_COLS: u32 = 64;
/// Call stack depth.
pub const STACK_SIZE: usize = 16;
/// Where programs are loaded and execution starts; lower addresses belong to the interpreter.
pub const PC_BEGIN: u16 = 0x200;
/// Number of pixels on the screen.
pub const TOTAL_PIXELS: usize = 2048;

/// The pixel array, row after row, one byte (0 or 1) per pixel.
pub type Screen = [u8; 2048];

/// The glyphs of the hex digits 0-F, five rows of four pixels each.
pub const FONTSET: [u8; 80] = [
    0xF0, 0x90, 0x90, 0x90, 0xF0,  // 0
    0x20, 0x60, 0x20, 0x20, 0x70,  // 1
    0xF0, 0x10, 0xF0, 0x80, 0xF0,  // 2
    0xF0, 0x10, 0xF0, 0x10, 0xF0,  // 3
    0x90, 0x90, 0xF0, 0x10, 0x10,  // 4
    0xF0, 0x80, 0xF0, 0x10, 0xF0,  // 5
    0xF0, 0x80, 0xF0, 0x90, 0xF0,  // 6
    0xF0, 0x10, 0x20, 0x40, 0x40,  // 7
    0xF0, 0x90, 0xF0, 0x90, 0xF0,  // 8
    0xF0, 0x90, 0xF0, 0x10, 0xF0,  // 9
    0xF0, 0x90, 0xF0, 0x90, 0x90,  // A
    0xE0, 0x90, 0xE0, 0x90, 0xE0,  // B
    0xF0, 0x80, 0x80, 0x80, 0xF0,  // C
    0xE0, 0x90, 0x90, 0x90, 0xE0,  // D
    0xF0, 0x80, 0xF0, 0x80, 0xF0,  // E
    0xF0, 0x80, 0xF0, 0x80, 0x80,  // F
];

/// The state of a machine, as plain mathematical values: one field for each
/// field of [`Machine`], arrays as sequences and the keypad as its key states.
pub struct MachineState {
    pub opcode: Opcode,
    pub memory: Seq<u8>,
    pub registers: Seq<u8>,
    pub idx: u16,
    pub pc: u16,
    pub screen: Seq<u8>,
    pub draw_flag: bool,
    pub delay_timer: u8,
    pub sound_timer: u8,
    pub stack: Seq<u16>,
    pub sp: usize,
    pub keys: Seq<bool>,
    pub current_game: Option<Seq<char>>,
}

/// The emulated CHIP-8 hardware.
#[derive(Debug)]
pub struct Machine {
    /// The instruction most recently fetched; `Unrecognized(0)` before the first fetch.
    pub opcode: Opcode,
    /// 4 KiB of memory: 0x000-0x1FF for the interpreter (the font at 0x000-0x04F),
    /// 0x200-0xFFF for the program and its work space.
    pub memory: [u8; 4096],
    /// V0 to VF; VF doubles as the carry, borrow and collision flag.
    pub registers: [u8; 16],
    /// The index register, a memory pointer.
    pub idx: u16,
    /// The program counter: the address of the next instruction.
    pub pc: u16,
    /// 64 x 32 pixels, row after row, each 0 or 1.
    pub screen: Screen,
    /// Set when the screen changed and has not been handed to the renderer since.
    pub draw_flag: bool,
    /// Counts down once per cycle while above zero.
    pub delay_timer: u8,
    /// Counts down once per cycle while above zero; the alert sounds as it leaves 1.
    pub sound_timer: u8,
    /// Return addresses of the active calls, oldest first.
    pub stack: [u16; 16],
    /// Number of active calls.
    pub sp: usize,
    /// The keypad as last read.
    pub key: Keys,
    /// The name of the loaded program, if any.
    pub current_game: Option<String>,
}

/// The screen with every pixel off.
pub open spec fn blank_screen() -> Seq<u8> {
    Seq::new(2048, |p: int| 0u8)
}

/// Memory as a reset leaves it: the font at the bottom, zero elsewhere.
pub open spec fn reset_memory() -> Seq<u8> {
    Seq::new(4096, |a: int| if a < 80 { FONTSET@[a] } else { 0u8 })
}

/// The state after a program is copied to `0x200` onwards on a reset machine.
pub open spec fn loaded_state(s: MachineState, name: Seq<char>, rom: Seq<u8>) -> MachineState {
    let base = s.reset();
    MachineState {
        memory: base.memory.subrange(0, 0x200) + rom + base.memory.subrange(
            0x200 + rom.len() as int,
            4096,
        ),
        current_game: Some(name),
        ..base
    }
}

/// Every pixel is 0 or 1.
pub open spec fn screen_wf(screen: Seq<u8>) -> bool {
    forall|p: int| 0 <= p < screen.len() ==> #[trigger] screen[p] <= 1
}

impl MachineState {
    /// The shape and invariants every machine state keeps.
    pub open spec fn wf(self) -> bool {
        &&& self.memory.len() == 4096
        &&& self.registers.len() == 16
        &&& self.screen.len() == 2048
        &&& self.stack.len() == 16
        &&& self.keys.len() == 16
        &&& self.sp <= 16
        &&& screen_wf(self.screen)
    }

    /// Register `x`.
    pub open spec fn reg(self, x: u8) -> u8 {
        self.registers[x as int]
    }

    /// This state with register `x` set to `v`.
    pub open spec fn with_reg(self, x: u8, v: u8) -> MachineState {
        MachineState { registers: self.registers.update(x as int, v), ..self }
    }

    /// This state with the program counter moved on by `n` bytes, wrapping at 16 bits.
    pub open spec fn advanced(self, n: int) -> MachineState {
        MachineState { pc: ((self.pc + n) % 0x10000) as u16, ..self }
    }

    /// This state after a reset: font reloaded, program state cleared, pc at the
    /// program start; the keypad and the program name are kept.
    pub open spec fn reset(self) -> MachineState {
        MachineState {
            opcode: Opcode::Unrecognized(0),
            memory: reset_memory(),
            registers: Seq::new(16, |i: int| 0u8),
            idx: 0,
            pc: PC_BEGIN,
            screen: blank_screen(),
            draw_flag: true,
            delay_timer: 0,
            sound_timer: 0,
            stack: Seq::new(16, |i: int| 0u16),
            sp: 0,
            ..self
        }
    }
}

impl View for Machine {
    type V = MachineState;

    open spec fn view(&self) -> MachineState {
        MachineState {
            opcode: self.opcode,
            memory: self.memory@,
            registers: self.registers@,
            idx: self.idx,
            pc: self.pc,
            screen: self.screen@,
            draw_flag: self.draw_flag,
            delay_timer: self.delay_timer,
            sound_timer: self.sound_timer,
            stack: self.stack@,
            sp: self.sp,
            keys: self.key@,
            current_game: match self.current_game {
                Some(name) => Some(name@),
                None => None,
            },
        }
    }
}

impl Machine {
    /// The invariants of a machine.
    pub open spec fn wf(&self) -> bool {
        self@.wf()
    }

    /// A machine with the font loaded, the program counter at `0x200`, both timers
    /// at `0xFF`, and everything else zero, empty or up.
    pub fn new() -> (r: Machine)
        ensures
            r.wf(),
            r@ == (MachineState {
                opcode: Opcode::Unrecognized(0),
                memory: reset_memory(),
                registers: Seq::new(16, |i: int| 0u8),
                idx: 0,
                pc: PC_BEGIN,
                screen: blank_screen(),
                draw_flag: true,
                delay_timer: 0xFF,
                sound_timer: 0xFF,
                stack: Seq::new(16, |i: int| 0u16),
                sp: 0,
                keys: Seq::new(16, |k: int| false),
                current_game: None,
            }),
    {
        let mut ret = Machine {
            opcode: Opcode::Unrecognized(0),
            memory: [0u8; 4096],
            registers: [0u8; 16],
            idx: 0,
            pc: PC_BEGIN,
            screen: [0u8; 2048],
            draw_flag: true,
            delay_timer: 0xFF,
            sound_timer: 0xFF,
            stack: [0u16; 16],
            sp: 0,
            key: Keys::new(),
            current_game: None,
        };
        ret.load_fontset();
        assert(ret.memory@ =~= reset_memory());
        assert(ret.registers@ =~= Seq::new(16, |i: int| 0u8));
        assert(ret.screen@ =~= blank_screen());
        assert(ret.stack@ =~= Seq::new(16, |i: int| 0u16));
        ret
    }

    /// Copies the font into memory from address zero.
    fn load_fontset(&mut self)
        ensures
            final(self)@ == (MachineState {
                memory: FONTSET@ + old(self)@.memory.subrange(80, 4096),
                ..old(self)@
            }),
    {
        let mut i: usize = 0;
        assert(self.memory@ =~= FONTSET@.subrange(0, 0) + old(self)@.memory.subrange(0, 4096));
        while i < 80
            invariant
                i <= 80,
                self@ == (MachineState {
                    memory: FONTSET@.subrange(0, i as int) + old(self)@.memory.subrange(
                        i as int,
                        4096,
                    ),
                    ..old(self)@
                }),
            decreases 80 - i,
        {
            self.memory[i] = FONTSET[i];
            i = i + 1;
            assert(self.memory@ =~= FONTSET@.subrange(0, i as int) + old(self)@.memory.subrange(
                i as int,
                4096,
            ));
        }
        assert(self.memory@ =~= FONTSET@ + old(self)@.memory.subrange(80, 4096));
    }
}

impl Machine {
    /// Register `x`.
    pub fn register_get(&self, x: u8) -> (r: u8)
        requires
            x < 16,
        ensures
            r == self@.reg(x),
    {
        self.registers[x as usize]
    }

    /// Sets register `x` to `val`.
    pub fn register_set(&mut self, x: u8, val: u8)
        requires
            x < 16,
        ensures
            final(self)@ == old(self)@.with_reg(x, val),
    {
        self.registers[x as usize] = val;
        assert(self.registers@ =~= old(self)@.registers.update(x as int, val));
    }

    /// The byte at `addr`.
    pub fn memory_get(&self, addr: u16) -> (r: u8)
        requires
            addr < 4096,
        ensures
            r == self@.memory[addr as int],
    {
        self.memory[addr as usize]
    }

    /// Sets the byte at `addr` to `val`.
    pub fn memory_set(&mut self, addr: u16, val: u8)
        requires
            addr < 4096,
        ensures
            final(self)@ == (MachineState {
                memory: old(self)@.memory.update(addr as int, val),
                ..old(self)@
            }),
    {
        self.memory[addr as usize] = val;
        assert(self.memory@ =~= old(self)@.memory.update(addr as int, val));
    }

    /// Sets the flag register VF to 0.
    pub fn carry_off(&mut self)
        ensures
            final(self)@ == old(self)@.with_reg(15, 0),
    {
        self.register_set(0xF, 0);
    }

    /// Sets the flag register VF to 1.
    pub fn carry_on(&mut self)
        ensures
            final(self)@ == old(self)@.with_reg(15, 1),
    {
        self.register_set(0xF, 1);
    }

    /// Whether the flag register VF holds 1.
    pub fn carry_flag_set(&self) -> (r: bool)
        ensures
            r == (self@.reg(15) == 1),
    {
        self.register_get(0xF) == 1
    }

    /// The byte at the program counter.
    pub fn current_byte(&self) -> (r: u8)
        requires
            self.pc < 4096,
        ensures
            r == self@.memory[self.pc as int],
    {
        self.memory_get(self.pc)
    }

    /// Presses keypad key `key`.
    pub fn key_down(&mut self, key: u8)
        requires
            key < 16,
        ensures
            final(self)@ == (MachineState {
                keys: old(self)@.keys.update(key as int, true),
                ..old(self)@
            }),
    {
        self.key.key_down(key);
    }

    /// Stores a freshly read keypad state.
    pub fn set_keys(&mut self, keys: Keys)
        ensures
            final(self)@ == (MachineState { keys: keys@, ..old(self)@ }),
    {
        self.key = keys;
    }
}

impl Machine {
    /// Puts every part of the machine back to its starting value, with the font
    /// reloaded and the program counter at `0x200`; the keypad and the program
    /// name stay.
    pub fn reset(&mut self)
        ensures
            final(self).wf(),
            final(self)@ == old(self)@.reset(),
    {
        self.opcode = Opcode::Unrecognized(0);
        self.pc = PC_BEGIN;
        self.idx = 0;
        self.registers = [0u8; 16];
        self.memory = [0u8; 4096];
        self.stack = [0u16; 16];
        self.sp = 0;
        self.delay_timer = 0;
        self.sound_timer = 0;
        self.draw_flag = true;
        self.screen = [0u8; 2048];
        self.load_fontset();
        assert(self.memory@ =~= reset_memory());
        assert(self.registers@ =~= Seq::new(16, |i: int| 0u8));
        assert(self.screen@ =~= blank_screen());
        assert(self.stack@ =~= Seq::new(16, |i: int| 0u16));
    }

    /// Resets the machine, then copies program `name` to `0x200` onwards. `rom`
    /// is the program's bytes, or `None` when no program of that name could be
    /// supplied. Gives the number of bytes copied.
    pub fn load_game(&mut self, name: &str, rom: Option<&[u8]>) -> (r: Result<usize, Chip8Error>)
        ensures
            final(self).wf(),
            match rom {
                None => r matches Err(Chip8Error::RomNotFound(n)) && n@ == name@ && final(self)@
                    == old(self)@.reset(),
                Some(bytes) => if bytes@.len() > 4096 - 0x200 {
                    r == Err::<usize, Chip8Error>(Chip8Error::RomTooLarge(bytes@.len() as usize))
                        && final(self)@ == old(self)@.reset()
                } else {
                    r == Ok::<usize, Chip8Error>(bytes@.len() as usize) && final(self)@
                        == loaded_state(old(self)@, name@, bytes@)
                },
            },
    {
        self.reset();
        let bytes = match rom {
            None => return Err(Chip8Error::RomNotFound(name.to_owned())),
            Some(bytes) => bytes,
        };
        let len = bytes.len();
        if len > MEM_SIZE - PC_BEGIN as usize {
            return Err(Chip8Error::RomTooLarge(len));
        }
        let ghost base = self@;
        let mut i: usize = 0;
        assert(self@.memory =~= base.memory.subrange(0, 0x200) + bytes@.subrange(0, 0)
            + base.memory.subrange(0x200, 4096));
        while i < len
            invariant
                len == bytes@.len(),
                len <= 4096 - 0x200,
                i <= len,
                base.wf(),
                self@ == (MachineState {
                    memory: base.memory.subrange(0, 0x200) + bytes@.subrange(0, i as int)
                        + base.memory.subrange(0x200 + i, 4096),
                    ..base
                }),
            decreases len - i,
        {
            self.memory_set(PC_BEGIN + i as u16, bytes[i]);
            i = i + 1;
            assert(self@.memory =~= base.memory.subrange(0, 0x200) + bytes@.subrange(0, i as int)
                + base.memory.subrange(0x200 + i, 4096));
        }
        assert(bytes@.subrange(0, len as int) =~= bytes@);
        self.current_game = Some(name.to_owned());
        Ok(len)
    }

}

/// Loading a program sets registers, index, stack, timers and screen to their
/// reset values whatever ran before, and nothing of an earlier program stays:
/// loading one program and then another ends exactly as loading the second
/// program alone.
pub proof fn lemma_load_forgets_history(
    s: MachineState,
    first_name: Seq<char>,
    first_rom: Seq<u8>,
    name: Seq<char>,
    rom: Seq<u8>,
)
    requires
        s.wf(),
        first_rom.len() <= 4096 - 0x200,
        rom.len() <= 4096 - 0x200,
    ensures
        loaded_state(s, name, rom).registers == Seq::new(16, |i: int| 0u8),
        loaded_state(s, name, rom).idx == 0,
        loaded_state(s, name, rom).pc == PC_BEGIN,
        loaded_state(s, name, rom).stack == Seq::new(16, |i: int| 0u16),
        loaded_state(s, name, rom).sp == 0,
        loaded_state(s, name, rom).delay_timer == 0,
        loaded_state(s, name, rom).sound_timer == 0,
        loaded_state(s, name, rom).screen == blank_screen(),
        loaded_state(s, name, rom).memory.subrange(0, 80) == FONTSET@,
        loaded_state(s, name, rom).memory.subrange(0x200, 0x200 + rom.len() as int) == rom,
        loaded_state(loaded_state(s, first_name, first_rom), name, rom) == loaded_state(
            s,
            name,
            rom,
        ),
{
    let t = loaded_state(s, name, rom);
    assert(t.memory.subrange(0, 80) =~= FONTSET@);
    assert(t.memory.subrange(0x200, 0x200 + rom.len() as int) =~= rom);
}

} // verus!
