//! A CHIP-8 interpreter core: instruction decoding, memory, registers, the
//! display with its sprite compositing, and the fetch-decode-execute engine,
//! each with a machine-checked contract.

pub mod arch;
pub mod error;
pub mod instr;
pub mod profile;
pub mod regs;
pub mod ram;
pub mod framebuffer;
pub mod rng;
pub mod model;
pub mod chip;
pub mod laws;
pub mod ui;
