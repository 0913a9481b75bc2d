//! A CHIP-8 virtual machine: an instruction codec and an execution engine
//! whose behaviour is stated in contracts and proved.

pub mod cycle;
pub mod draw;
pub mod error;
pub mod execute;
pub mod hex_text;
pub mod keys;
pub mod machine;
pub mod opcode;
pub mod semantics;

pub use error::Chip8Error;
pub use keys::{keyboard_to_keypad, Keys, NUM_KEYS};
pub use cycle::Context;
pub use machine::{
    Machine, Screen, FONTSET, MEM_SIZE, NUM_REGISTERS, PC_BEGIN, PIXEL_COLS, PIXEL_ROWS,
    STACK_SIZE, TOTAL_PIXELS,
};
pub use opcode::{Opcode, RawOpcode};
