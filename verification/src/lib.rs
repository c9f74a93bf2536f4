//! A verified CHIP-8 virtual machine core.
//!
//! The library owns the whole machine state (memory, registers, stack,
//! timers, display buffer, key states) and advances it one instruction at a
//! time.  Every instruction's semantics is stated as a mathematical
//! transition function over a ghost model of the state, and the executable
//! code is proved to follow it exactly.  All fatal conditions (out-of-bounds
//! memory access, stack overflow and underflow, unknown instruction words,
//! invalid key indices) surface as explicit error results rather than
//! panics.

use vstd::prelude::*;

pub mod draw;
pub mod error;
pub mod instr;
pub mod machine;
pub mod rng;
pub mod state;

pub use error::VmError;
pub use instr::Instr;
pub use machine::Emu;

verus! {

/// Width of the monochrome display, in pixels.
pub const SCREEN_WIDTH: usize = 64;

/// Height of the monochrome display, in pixels.
pub const SCREEN_HEIGHT: usize = 32;

/// Number of cells in the display buffer.
pub const SCREEN_CELLS: usize = 2048;

/// Size of the machine's memory, in bytes.
pub const RAM_SIZE: usize = 4096;

/// Number of general registers (V0 through VF).
pub const NUM_REGS: usize = 16;

/// Depth of the call stack.
pub const STACK_SIZE: usize = 16;

/// Number of host keys.
pub const NUM_KEYS: usize = 16;

/// Address at which program bytes are loaded and execution starts.
pub const START_ADDR: u16 = 0x200;

/// Number of bytes in the built-in glyph font.
pub const FONTSET_SIZE: usize = 80;

/// Height of one font glyph, in bytes.
pub const FONT_GLYPH_HEIGHT: u16 = 5;

} // verus!
