//! Dimensions of the machine.

use vstd::prelude::*;

verus! {

/// Number of general-purpose registers V0..VF.
pub const NVREGS: u32 = 16;

/// Size of the address space in bytes.
pub const RAMSIZE: u32 = 4096;

/// Number of return addresses the call stack holds.
pub const STACKSIZE: u32 = 16;

/// Number of built-in digit sprites.
pub const NSPRITES: u32 = 16;

/// Number of rows of one digit sprite.
pub const SPRITE_ROWS: u32 = 5;

/// Number of keys on the keypad.
pub const NKEYS: u32 = 16;

/// Display width in pixels.
pub const DISPLAY_WIDTH: u32 = 64;

/// Display height in pixels.
pub const DISPLAY_HEIGHT: u32 = 32;

} // verus!
