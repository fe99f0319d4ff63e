//! The register file.

use vstd::prelude::*;

verus! {

/// The registers of the machine. VF, the last of `vx`, doubles as the flag
/// register.
#[derive(Clone, Copy, Debug)]
pub struct RegMap {
    /// V0..VF.
    pub vx: [u8; 16],
    /// The delay timer.
    pub dt: u8,
    /// The sound timer.
    pub st: u8,
    /// The index register.
    pub i: u16,
    /// The program counter.
    pub pc: u16,
    /// The stack pointer: the number of return addresses on the call stack.
    pub sp: u8,
}

impl RegMap {
    /// A register file with every register zero.
    pub fn new() -> (r: RegMap)
        ensures
            r.vx@ =~= Seq::new(16, |k: int| 0u8),
            r.dt == 0,
            r.st == 0,
            r.i == 0,
            r.pc == 0,
            r.sp == 0,
    {
        RegMap { vx: [0u8; 16], dt: 0, st: 0, i: 0, pc: 0, sp: 0 }
    }
}

} // verus!
