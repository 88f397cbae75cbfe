//! A CHIP-8 virtual machine: a fetch-decode-execute interpreter over a fixed
//! 8-bit instruction set, with 4096 bytes of memory, 16 general registers, a
//! 16-entry call stack, two countdown timers and a 64 x 32 monochrome
//! framebuffer. Every instruction's effect on the machine state is stated as
//! a contract over a mathematical model of the state and proved.

use vstd::prelude::*;

pub mod font;
pub mod state;
pub mod decode;
pub mod step;
pub mod processor;
pub mod cartridge;
pub mod laws;


verus! {

/// Bytes of addressable memory.
pub const MEMORY_SIZE: usize = 4096;

/// Address at which a loaded program begins; execution starts here.
pub const GAME_ENTRY: usize = 0x200;

/// Framebuffer width in pixels.
pub const SCREEN_WIDTH: usize = 64;

/// Framebuffer height in pixels.
pub const SCREEN_HEIGHT: usize = 32;

/// Number of general-purpose registers (V0 through VF).
pub const NUM_REGISTERS: usize = 16;

/// Depth of the call stack.
pub const STACK_SIZE: usize = 16;

/// Number of keys on the logical keypad.
pub const NUM_KEYS: usize = 16;

} // verus!
