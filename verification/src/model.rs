//! The machine as a mathematical value, and the effect of every instruction
//! on it.

use vstd::prelude::*;
use crate::error::ChipError;
use crate::framebuffer::{collides, drawn, grid_wf, uniform_grid, Grid};
use crate::instr::Instr;
use crate::profile::Profile;
use crate::ram::{in_range, store_block, word_of};
use crate::rng::{next_byte_of, state_after_byte};

verus! {

/// Everything the machine remembers between two instructions.
pub struct ChipState {
    /// The memory, 4096 bytes.
    pub mem: Seq<u8>,
    /// The registers V0..VF.
    pub v: Seq<u8>,
    /// The index register.
    pub i: u16,
    /// The program counter.
    pub pc: u16,
    /// The stack pointer.
    pub sp: u8,
    /// The delay timer.
    pub dt: u8,
    /// The sound timer.
    pub st: u8,
    /// The call stack, 16 return addresses.
    pub stack: Seq<u16>,
    /// Which of the 16 keys are held down.
    pub keys: Seq<bool>,
    /// The display.
    pub frame: Grid,
    /// Where the sprite of each hex digit lies in memory.
    pub sprite_addr: Seq<u16>,
    /// The state of the random generator.
    pub rng: (u64, u64),
    /// The quirk profile.
    pub profile: Profile,
}

impl ChipState {
    /// Whether every part has its fixed size and the display is well formed.
    pub open spec fn wf(self) -> bool {
        &&& self.mem.len() == 4096
        &&& self.v.len() == 16
        &&& self.stack.len() == 16
        &&& self.keys.len() == 16
        &&& self.sprite_addr.len() == 16
        &&& grid_wf(self.frame)
    }

    /// The state with register `x` set to `val`.
    pub open spec fn with_v(self, x: int, val: u8) -> ChipState {
        ChipState { v: self.v.update(x, val), ..self }
    }

    /// The state with register `x` set to `val` and then VF to `flag`.
    pub open spec fn with_v_flag(self, x: int, val: u8, flag: bool) -> ChipState {
        ChipState { v: self.v.update(x, val).update(15, flag_byte(flag)), ..self }
    }

    /// The state with the program counter at `pc`.
    pub open spec fn with_pc(self, pc: u16) -> ChipState {
        ChipState { pc, ..self }
    }

    /// The state with the next instruction skipped if `cond` holds.
    pub open spec fn skip_if(self, cond: bool) -> ChipState {
        if cond {
            self.with_pc((self.pc + 2) as u16)
        } else {
            self
        }
    }
}

/// The byte that stands for a flag in VF.
pub open spec fn flag_byte(flag: bool) -> u8 {
    if flag {
        1
    } else {
        0
    }
}

/// The index of the first key from `from` on that is held down, or 16 if
/// there is none.
pub open spec fn first_pressed(keys: Seq<bool>, from: int) -> int
    decreases 16 - from,
{
    if from >= 16 {
        16
    } else if from >= 0 && keys[from] {
        from
    } else if from >= 0 {
        first_pressed(keys, from + 1)
    } else {
        16
    }
}

/// The three decimal digits of `val`, hundreds first.
pub open spec fn bcd(val: u8) -> Seq<u8> {
    seq![val / 100, (val / 10) % 10, val % 10]
}

/// The registers after V0..V`last` have been loaded from `mem` at `addr` on.
pub open spec fn loaded_regs(v: Seq<u8>, mem: Seq<u8>, addr: int, last: int) -> Seq<u8> {
    Seq::new(
        16,
        |k: int|
            if k <= last {
                mem[addr + k]
            } else {
                v[k]
            },
    )
}

/// The index register after a register dump or load of V0..V`last`, which
/// moves it behind the block if `advance` is set.
pub open spec fn index_after(i: u16, last: int, advance: bool) -> u16 {
    if advance {
        (i + last + 1) as u16
    } else {
        i
    }
}

/// The word that the machine fetches in state `s`, if the program counter
/// points into memory.
pub open spec fn fetch(s: ChipState) -> Result<u16, ChipError> {
    if in_range(s.pc as int, 2) {
        Ok(word_of(s.mem[s.pc as int], s.mem[s.pc as int + 1]))
    } else {
        Err(ChipError::AddressOutOfRange)
    }
}

/// Class 0: clear the display, or return from a subroutine. `t` is the state
/// with the program counter already behind the instruction.
pub open spec fn step_system(t: ChipState, ins: Instr) -> Result<ChipState, ChipError> {
    if ins.opcode == 0x00E0 {
        Ok(ChipState { frame: uniform_grid(0), ..t })
    } else if ins.opcode == 0x00EE {
        if t.sp == 0 {
            Err(ChipError::StackUnderflow)
        } else if t.sp > 16 {
            Err(ChipError::StackOverflow)
        } else {
            Ok(ChipState { sp: (t.sp - 1) as u8, pc: t.stack[t.sp - 1], ..t })
        }
    } else {
        Err(ChipError::UnknownOpcode(ins.opcode))
    }
}

/// Class 2: call the subroutine at `nnn`.
pub open spec fn step_call(t: ChipState, ins: Instr) -> Result<ChipState, ChipError> {
    if t.sp >= 16 {
        Err(ChipError::StackOverflow)
    } else {
        Ok(
            ChipState {
                stack: t.stack.update(t.sp as int, t.pc),
                sp: (t.sp + 1) as u8,
                pc: ins.nnn,
                ..t
            },
        )
    }
}

/// The value that a shift instruction shifts: Vy if the quirk copies it
/// first, else Vx.
pub open spec fn shift_source(t: ChipState, ins: Instr, copies_vy: bool) -> u8 {
    if copies_vy {
        t.v[ins.y as int]
    } else {
        t.v[ins.x as int]
    }
}

/// The registers after a shift of `src` into Vx. The flag is written before
/// the shifted value, so with VF as Vx it is the flag that gets shifted.
pub open spec fn shifted_regs(v: Seq<u8>, x: int, src: u8, left: bool) -> Seq<u8> {
    let flag = if left {
        flag_byte(src >= 128)
    } else {
        flag_byte(src % 2 == 1)
    };
    let w = v.update(x, src).update(15, flag);
    let shifted = if left {
        ((w[x] * 2) % 256) as u8
    } else {
        w[x] / 2
    };
    w.update(x, shifted)
}

/// Class 8: register-to-register arithmetic and logic.
pub open spec fn step_alu(t: ChipState, ins: Instr) -> Result<ChipState, ChipError> {
    let x = ins.x as int;
    let vx = t.v[ins.x as int];
    let vy = t.v[ins.y as int];
    if ins.n == 0x0 {
        Ok(t.with_v(x, vy))
    } else if ins.n == 0x1 {
        Ok(t.with_v(x, vx | vy))
    } else if ins.n == 0x2 {
        Ok(t.with_v(x, vx & vy))
    } else if ins.n == 0x3 {
        Ok(t.with_v(x, vx ^ vy))
    } else if ins.n == 0x4 {
        Ok(t.with_v_flag(x, ((vx + vy) % 256) as u8, vx + vy > 255))
    } else if ins.n == 0x5 {
        Ok(t.with_v_flag(x, ((vx - vy) % 256) as u8, vx >= vy))
    } else if ins.n == 0x6 {
        let src = shift_source(t, ins, t.profile.shr_copies_vy);
        Ok(ChipState { v: shifted_regs(t.v, x, src, false), ..t })
    } else if ins.n == 0x7 {
        Ok(t.with_v_flag(x, ((vy - vx) % 256) as u8, vy >= vx))
    } else if ins.n == 0xE {
        let src = shift_source(t, ins, t.profile.shl_copies_vy);
        Ok(ChipState { v: shifted_regs(t.v, x, src, true), ..t })
    } else {
        Err(ChipError::UnknownOpcode(ins.opcode))
    }
}

/// Class D: draw the `n` bytes at I as a sprite at (Vx, Vy); VF tells
/// whether a pixel was erased.
pub open spec fn step_draw(t: ChipState, ins: Instr) -> Result<ChipState, ChipError> {
    let vx = t.v[ins.x as int];
    let vy = t.v[ins.y as int];
    if !in_range(t.i as int, ins.n as int) {
        Err(ChipError::AddressOutOfRange)
    } else {
        let sprite = t.mem.subrange(t.i as int, t.i + ins.n);
        Ok(
            ChipState {
                frame: drawn(t.frame, sprite, vx as int, vy as int),
                v: t.v.update(15, flag_byte(collides(t.frame, sprite, vx as int, vy as int))),
                ..t
            },
        )
    }
}

/// Class E: skip on the state of the key that Vx names.
pub open spec fn step_key(t: ChipState, ins: Instr) -> Result<ChipState, ChipError> {
    let vx = t.v[ins.x as int];
    if ins.nn != 0x9E && ins.nn != 0xA1 {
        Err(ChipError::UnknownOpcode(ins.opcode))
    } else if vx >= 16 {
        Err(ChipError::KeyOutOfRange)
    } else if ins.nn == 0x9E {
        Ok(t.skip_if(t.keys[vx as int]))
    } else {
        Ok(t.skip_if(!t.keys[vx as int]))
    }
}

/// Class F: timers, the keypad wait, the index register, and the transfers
/// between registers and memory.
pub open spec fn step_misc(t: ChipState, ins: Instr) -> Result<ChipState, ChipError> {
    let x = ins.x as int;
    let vx = t.v[ins.x as int];
    if ins.nn == 0x07 {
        Ok(t.with_v(x, t.dt))
    } else if ins.nn == 0x0A {
        let k = first_pressed(t.keys, 0);
        if k < 16 {
            Ok(t.with_v(x, k as u8))
        } else {
            Ok(t.with_pc((t.pc - 2) as u16))
        }
    } else if ins.nn == 0x15 {
        Ok(ChipState { dt: vx, ..t })
    } else if ins.nn == 0x18 {
        Ok(ChipState { st: vx, ..t })
    } else if ins.nn == 0x1E {
        if t.i + vx > 0xFFFF {
            Err(ChipError::AddressOutOfRange)
        } else {
            Ok(ChipState { i: (t.i + vx) as u16, ..t })
        }
    } else if ins.nn == 0x29 {
        if vx >= 16 {
            Err(ChipError::DigitOutOfRange)
        } else {
            Ok(ChipState { i: t.sprite_addr[vx as int], ..t })
        }
    } else if ins.nn == 0x33 {
        if !in_range(t.i as int, 3) {
            Err(ChipError::AddressOutOfRange)
        } else {
            Ok(ChipState { mem: store_block(t.mem, t.i as int, bcd(vx)), ..t })
        }
    } else if ins.nn == 0x55 {
        if !in_range(t.i as int, x + 1) {
            Err(ChipError::AddressOutOfRange)
        } else {
            Ok(
                ChipState {
                    mem: store_block(t.mem, t.i as int, t.v.take(x + 1)),
                    i: index_after(t.i, x, t.profile.store_dump_advances_i),
                    ..t
                },
            )
        }
    } else if ins.nn == 0x65 {
        if !in_range(t.i as int, x + 1) {
            Err(ChipError::AddressOutOfRange)
        } else {
            Ok(
                ChipState {
                    v: loaded_regs(t.v, t.mem, t.i as int, x),
                    i: index_after(t.i, x, t.profile.store_load_advances_i),
                    ..t
                },
            )
        }
    } else {
        Err(ChipError::UnknownOpcode(ins.opcode))
    }
}

/// The effect of the instruction `ins` once the program counter has moved
/// behind it; `rnd` is the byte that the random generator gave for it.
pub open spec fn dispatch(t: ChipState, ins: Instr, rnd: u8) -> Result<ChipState, ChipError> {
    let x = ins.x as int;
    let vx = t.v[ins.x as int];
    let vy = t.v[ins.y as int];
    if ins.c == 0x0 {
        step_system(t, ins)
    } else if ins.c == 0x1 {
        Ok(t.with_pc(ins.nnn))
    } else if ins.c == 0x2 {
        step_call(t, ins)
    } else if ins.c == 0x3 {
        Ok(t.skip_if(vx == ins.nn))
    } else if ins.c == 0x4 {
        Ok(t.skip_if(vx != ins.nn))
    } else if ins.c == 0x5 {
        if ins.n == 0 {
            Ok(t.skip_if(vx == vy))
        } else {
            Err(ChipError::UnknownOpcode(ins.opcode))
        }
    } else if ins.c == 0x6 {
        Ok(t.with_v(x, ins.nn))
    } else if ins.c == 0x7 {
        Ok(t.with_v(x, ((vx + ins.nn) % 256) as u8))
    } else if ins.c == 0x8 {
        step_alu(t, ins)
    } else if ins.c == 0x9 {
        if ins.n == 0 {
            Ok(t.skip_if(vx != vy))
        } else {
            Err(ChipError::UnknownOpcode(ins.opcode))
        }
    } else if ins.c == 0xA {
        Ok(ChipState { i: ins.nnn, ..t })
    } else if ins.c == 0xB {
        Ok(t.with_pc((t.v[0] + ins.nnn) as u16))
    } else if ins.c == 0xC {
        Ok(t.with_v(x, rnd & ins.nn))
    } else if ins.c == 0xD {
        step_draw(t, ins)
    } else if ins.c == 0xE {
        step_key(t, ins)
    } else {
        step_misc(t, ins)
    }
}

/// The machine after it has executed the word `opcode` as the instruction
/// at its program counter, or the reason why it cannot. The program counter
/// moves behind the instruction before the instruction takes effect.
pub open spec fn step(s: ChipState, opcode: u16, rnd: u8) -> Result<ChipState, ChipError> {
    if in_range(s.pc as int, 2) {
        dispatch(s.with_pc((s.pc + 2) as u16), Instr::decode(opcode), rnd)
    } else {
        Err(ChipError::AddressOutOfRange)
    }
}

/// Whether the word `opcode` asks for a random byte.
pub open spec fn draws_random(opcode: u16) -> bool {
    Instr::decode(opcode).c == 0xC
}

/// One whole cycle: fetch the word at the program counter, then execute it.
/// Only the RND instruction moves the random generator on.
pub open spec fn cycle_step(s: ChipState) -> Result<ChipState, ChipError> {
    match fetch(s) {
        Err(e) => Err(e),
        Ok(opcode) => {
            if draws_random(opcode) {
                step(
                    ChipState { rng: state_after_byte(s.rng), ..s },
                    opcode,
                    next_byte_of(s.rng),
                )
            } else {
                step(s, opcode, 0)
            }
        },
    }
}

/// Whether the machine, having answered `r` and being left in state `after`,
/// did what `want` asks of it in state `before`: on success it is in the
/// state asked for, and on failure it reports the reason and is unchanged.
pub open spec fn agrees(
    r: Result<(), ChipError>,
    after: ChipState,
    before: ChipState,
    want: Result<ChipState, ChipError>,
) -> bool {
    match want {
        Ok(t) => r == Ok::<(), ChipError>(()) && after == t,
        Err(e) => r == Err::<(), ChipError>(e) && after == before,
    }
}

/// The state after one tick of the timers: each goes down by one unless it
/// is zero.
pub open spec fn timers_ticked(s: ChipState) -> ChipState {
    ChipState {
        dt: if s.dt > 0 {
            (s.dt - 1) as u8
        } else {
            0
        },
        st: if s.st > 0 {
            (s.st - 1) as u8
        } else {
            0
        },
        ..s
    }
}

/// A well-formed machine is well formed after every instruction.
pub proof fn lemma_step_wf(s: ChipState, opcode: u16, rnd: u8)
    requires
        s.wf(),
    ensures
        step(s, opcode, rnd) matches Ok(t) ==> t.wf(),
{
    crate::instr::lemma_field_ranges(opcode);
    let ins = Instr::decode(opcode);
    let t = s.with_pc((s.pc + 2) as u16);
    if in_range(s.pc as int, 2) && ins.c == 0xD && in_range(t.i as int, ins.n as int) {
        let sprite = t.mem.subrange(t.i as int, t.i + ins.n);
        crate::framebuffer::lemma_drawn_wf(
            t.frame,
            sprite,
            t.v[ins.x as int] as int,
            t.v[ins.y as int] as int,
        );
    }
}

} // verus!
