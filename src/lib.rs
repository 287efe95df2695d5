//! An interpreter for a small 8-bit virtual machine: 4 KiB of memory, sixteen
//! 8-bit registers, a call stack, a 64×32 monochrome display, a 16-key keypad
//! and two countdown timers.
//!
//! `machine` states what every instruction and every pass of the cycle
//! driver does, over a mathematical model of the machine; `chip8` holds the
//! executable machine, proved to follow that model; `laws` proves properties
//! that follow from it.
pub mod chip8;
pub mod display;
pub mod instruction;
pub mod keypad;
pub mod laws;
pub mod machine;

pub use chip8::{Chip8, RomTooLarge};
pub use display::{draw_sprite, Frame, FRAME_HEIGHT, FRAME_WIDTH};
pub use instruction::{decode, split, Fields, Instruction};
pub use keypad::Keypad;
pub use machine::{
    CycleError, Fault, RunState, FLAG, LAST_ADDRESS, MAX_ROM_LEN, MEMORY_SIZE, PROGRAM_START,
    STACK_SIZE,
};
