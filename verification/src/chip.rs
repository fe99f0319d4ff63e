//! The virtual machine: it owns memory, registers, call stack, keypad,
//! display, random generator and quirk profile, and executes one instruction
//! per cycle.

use vstd::prelude::*;
use vstd::slice::slice_subrange;
use crate::error::ChipError;
use crate::framebuffer::{grid_of, Frame, Framebuffer};
use crate::instr::{lemma_field_ranges, Instr};
use crate::model::{
    agrees, bcd, cycle_step, dispatch, first_pressed, index_after, loaded_regs,
    shifted_regs, step, step_alu, step_call, step_draw, step_key, step_misc, step_system,
    timers_ticked, ChipState,
};
use crate::profile::Profile;
use crate::ram::{bytes_of_words, in_range, lemma_bytes_word, store_block, word_of, Ram};
use crate::regs::RegMap;
use crate::rng::{rand32_seeded, Rng};

verus! {

/// The rows of the sixteen built-in digit sprites, digit by digit, five
/// rows each, the pixels in the high four bits of a row.
pub open spec fn font_bytes() -> Seq<u8> {
    seq![
        0x60u8, 0x90, 0x90, 0x90, 0x60,
        0x20, 0x60, 0x20, 0x20, 0x70,
        0xF0, 0x10, 0xF0, 0x80, 0xF0,
        0xE0, 0x10, 0xE0, 0x10, 0xE0,
        0x90, 0x90, 0xF0, 0x10, 0x10,
        0xF0, 0x80, 0xE0, 0x10, 0xE0,
        0x70, 0x80, 0xE0, 0x90, 0xE0,
        0xF0, 0x10, 0x20, 0x40, 0x40,
        0x60, 0x90, 0x60, 0x90, 0x60,
        0x60, 0x90, 0x70, 0x10, 0xE0,
        0x60, 0x90, 0xF0, 0x90, 0x90,
        0xE0, 0x90, 0xE0, 0x90, 0xE0,
        0x70, 0x80, 0x80, 0x80, 0x70,
        0xE0, 0x90, 0x90, 0x90, 0xE0,
        0xF0, 0x80, 0xF0, 0x80, 0xF0,
        0xF0, 0x80, 0xF0, 0x80, 0x80,
    ]
}

/// The machine as it is built for `seed` and `profile`: the digit sprites at
/// the bottom of an otherwise empty memory, every register zero, no key
/// held, a dark display.
pub open spec fn initial_state(seed: u64, profile: Profile) -> ChipState {
    ChipState {
        mem: store_block(Seq::new(4096, |k: int| 0u8), 0, font_bytes()),
        v: Seq::new(16, |k: int| 0u8),
        i: 0,
        pc: 0,
        sp: 0,
        dt: 0,
        st: 0,
        stack: Seq::new(16, |k: int| 0u16),
        keys: Seq::new(16, |k: int| false),
        frame: crate::framebuffer::uniform_grid(0),
        sprite_addr: Seq::new(16, |d: int| (5 * d) as u16),
        rng: rand32_seeded(seed),
        profile,
    }
}

/// The seed that eight bytes of entropy make, the first byte lowest.
pub open spec fn seed_of(bytes: Seq<u8>) -> u64 {
    (bytes[0] + bytes[1] * 0x100 + bytes[2] * 0x1_0000 + bytes[3] * 0x100_0000 + bytes[4]
        * 0x1_0000_0000 + bytes[5] * 0x100_0000_0000 + bytes[6] * 0x1_0000_0000_0000 + bytes[7]
        * 0x100_0000_0000_0000) as u64
}

/// The number of bytes of `rom` that make whole 16-bit words.
pub open spec fn even_len(rom: Seq<u8>) -> int {
    2 * (rom.len() as int / 2)
}

/// The error that the `getrandom` crate reports.
#[verifier::external_type_specification]
#[verifier::external_body]
pub struct ExEntropyError(getrandom::Error);

/// Asks `getrandom::getrandom` for eight bytes. Nothing is claimed of the
/// bytes, nor of when the call succeeds.
#[verifier::external_body]
fn os_entropy() -> Result<[u8; 8], getrandom::Error> {
    let mut buf = [0u8; 8];
    match getrandom::getrandom(&mut buf) {
        Ok(()) => Ok(buf),
        Err(e) => Err(e),
    }
}

/// The font as the machine stores it.
fn font() -> (f: [u8; 80])
    ensures
        f@ == font_bytes(),
{
    let f: [u8; 80] = [
        0x60, 0x90, 0x90, 0x90, 0x60,
        0x20, 0x60, 0x20, 0x20, 0x70,
        0xF0, 0x10, 0xF0, 0x80, 0xF0,
        0xE0, 0x10, 0xE0, 0x10, 0xE0,
        0x90, 0x90, 0xF0, 0x10, 0x10,
        0xF0, 0x80, 0xE0, 0x10, 0xE0,
        0x70, 0x80, 0xE0, 0x90, 0xE0,
        0xF0, 0x10, 0x20, 0x40, 0x40,
        0x60, 0x90, 0x60, 0x90, 0x60,
        0x60, 0x90, 0x70, 0x10, 0xE0,
        0x60, 0x90, 0xF0, 0x90, 0x90,
        0xE0, 0x90, 0xE0, 0x90, 0xE0,
        0x70, 0x80, 0x80, 0x80, 0x70,
        0xE0, 0x90, 0x90, 0x90, 0xE0,
        0xF0, 0x80, 0xF0, 0x80, 0xF0,
        0xF0, 0x80, 0xF0, 0x80, 0x80,
    ];
    assert(f@ =~= font_bytes());
    f
}

/// Joins eight bytes into a seed, the first byte lowest.
pub fn seed_from_bytes(bytes: &[u8; 8]) -> (seed: u64)
    ensures
        seed == seed_of(bytes@),
{
    bytes[0] as u64 + bytes[1] as u64 * 0x100 + bytes[2] as u64 * 0x1_0000 + bytes[3] as u64
        * 0x100_0000 + bytes[4] as u64 * 0x1_0000_0000 + bytes[5] as u64 * 0x100_0000_0000
        + bytes[6] as u64 * 0x1_0000_0000_0000 + bytes[7] as u64 * 0x100_0000_0000_0000
}

/// The virtual machine.
pub struct Chip {
    /// The memory.
    pub ram: Ram,
    /// Where the sprite of each hex digit lies in memory.
    pub sprite_addr: [u16; 16],
    /// The registers.
    pub regs: RegMap,
    /// The call stack.
    pub stack: [u16; 16],
    /// Which keys are held down.
    pub keys: [bool; 16],
    /// The display.
    pub framebuffer: Framebuffer,
    /// The random generator.
    pub rnd: Rng,
    /// The quirk profile.
    pub profile: Profile,
}

impl View for Chip {
    type V = ChipState;

    open spec fn view(&self) -> ChipState {
        ChipState {
            mem: self.ram@,
            v: self.regs.vx@,
            i: self.regs.i,
            pc: self.regs.pc,
            sp: self.regs.sp,
            dt: self.regs.dt,
            st: self.regs.st,
            stack: self.stack@,
            keys: self.keys@,
            frame: self.framebuffer@,
            sprite_addr: self.sprite_addr@,
            rng: self.rnd@,
            profile: self.profile,
        }
    }
}

impl Chip {
    /// Whether the machine is well formed: every part has its size and the
    /// display holds only 0 and 1. This holds of every machine at all times.
    pub open spec fn wf(&self) -> bool {
        self@.wf()
    }

    /// A machine whose random generator is seeded from the operating
    /// system's entropy. It is the machine that `new_seed` builds for some
    /// seed; without entropy there is no machine.
    pub fn new(profile: Profile) -> (r: Result<Chip, ChipError>)
        ensures
            match r {
                Ok(chip) => chip.wf() && exists|seed: u64| chip@ == initial_state(seed, profile),
                Err(e) => e == ChipError::EntropyUnavailable,
            },
    {
        match os_entropy() {
            Ok(bytes) => {
                let seed = seed_from_bytes(&bytes);
                Ok(Chip::new_seed(seed, profile))
            },
            Err(_) => Err(ChipError::EntropyUnavailable),
        }
    }

    /// The machine for `seed` and `profile`, with the digit sprites loaded
    /// at the bottom of memory, five bytes each.
    pub fn new_seed(seed: u64, profile: Profile) -> (chip: Chip)
        ensures
            chip.wf(),
            chip@ == initial_state(seed, profile),
    {
        let sprites = font();
        let mut ram = Ram::new();
        let mut sprite_addr = [0u16; 16];
        let mut d: usize = 0;
        while d < 16
            invariant
                d <= 16,
                forall|k: int| 0 <= k < d ==> #[trigger] sprite_addr@[k] == 5 * k,
                forall|k: int| d <= k < 16 ==> #[trigger] sprite_addr@[k] == 0,
            decreases 16 - d,
        {
            sprite_addr[d] = (5 * d) as u16;
            d = d + 1;
        }
        let loaded = ram.load_block_u8(0, sprites.as_slice());
        assert(loaded is Ok);
        let chip = Chip {
            ram,
            sprite_addr,
            regs: RegMap::new(),
            stack: [0u16; 16],
            keys: [false; 16],
            framebuffer: Framebuffer::new(),
            rnd: Rng::new(seed),
            profile,
        };
        let ghost want = initial_state(seed, profile);
        assert(chip@.mem =~= want.mem);
        assert(chip@.v =~= want.v);
        assert(chip@.stack =~= want.stack);
        assert(chip@.keys =~= want.keys);
        assert(chip@.sprite_addr =~= want.sprite_addr);
        assert(chip@.frame == want.frame);
        assert(chip@.rng == want.rng);
        assert(chip@ == want);
        chip
    }

    /// Marks key `key` as held down.
    pub fn key_press(&mut self, key: u8)
        requires
            key < 16,
        ensures
            final(self)@ == (ChipState { keys: old(self)@.keys.update(key as int, true), ..old(self)@ }),
    {
        self.keys[key as usize] = true;
        assert(self@ =~= (ChipState { keys: old(self)@.keys.update(key as int, true), ..old(self)@ }));
    }

    /// Marks key `key` as released.
    pub fn key_unpress(&mut self, key: u8)
        requires
            key < 16,
        ensures
            final(self)@ == (ChipState { keys: old(self)@.keys.update(key as int, false), ..old(self)@ }),
    {
        self.keys[key as usize] = false;
        assert(self@ =~= (ChipState { keys: old(self)@.keys.update(key as int, false), ..old(self)@ }));
    }

    /// Whether key `key` is held down.
    pub fn is_key_pressed(&self, key: u8) -> (pressed: bool)
        requires
            key < 16,
        ensures
            pressed == self@.keys[key as int],
    {
        self.keys[key as usize]
    }

    /// Points the program counter at `pc`.
    pub fn set_pc(&mut self, pc: u16)
        ensures
            final(self)@ == old(self)@.with_pc(pc),
    {
        self.regs.pc = pc;
    }

    /// One tick of the two timers: each goes down by one unless it is zero.
    pub fn cycle_timers(&mut self)
        ensures
            final(self)@ == timers_ticked(old(self)@),
    {
        if self.regs.dt > 0 {
            self.regs.dt -= 1;
        }
        if self.regs.st > 0 {
            self.regs.st -= 1;
        }
    }

    /// Whether the tone should sound: the sound timer is running.
    pub fn is_sound_on(&self) -> (on: bool)
        ensures
            on == (self@.st > 0),
    {
        self.regs.st > 0
    }

    /// The display as it stands.
    pub fn get_frame(&self) -> (r: &Frame)
        ensures
            grid_of(*r) == self@.frame,
    {
        self.framebuffer.get_frame()
    }
}

impl Chip {
    /// Sets register `x`.
    fn set_v(&mut self, x: u8, val: u8)
        requires
            x < 16,
        ensures
            final(self)@ == old(self)@.with_v(x as int, val),
    {
        self.regs.vx[x as usize] = val;
    }

    /// Sets register `x`, and then VF to the byte that stands for `flag`.
    fn set_v_flag(&mut self, x: u8, val: u8, flag: bool)
        requires
            x < 16,
        ensures
            final(self)@ == old(self)@.with_v_flag(x as int, val, flag),
    {
        self.regs.vx[x as usize] = val;
        self.regs.vx[15] = if flag { 1 } else { 0 };
    }

    /// Skips the next instruction if `cond` holds.
    fn skip_if(&mut self, cond: bool)
        requires
            old(self)@.pc <= 0xFFFD,
        ensures
            final(self)@ == old(self)@.skip_if(cond),
    {
        if cond {
            self.regs.pc = self.regs.pc + 2;
        }
    }

    /// The lowest key that is held down, or 16 if none is.
    fn lowest_pressed_key(&self) -> (k: u8)
        ensures
            k == first_pressed(self@.keys, 0),
            k <= 16,
    {
        let mut k: u8 = 0;
        while k < 16 && !self.keys[k as usize]
            invariant
                k <= 16,
                first_pressed(self@.keys, 0) == first_pressed(self@.keys, k as int),
            decreases 16 - k,
        {
            k = k + 1;
        }
        k
    }

    /// Class 0: clears the display or returns from a subroutine.
    fn exec_system(&mut self, ins: Instr) -> (r: Result<(), ChipError>)
        ensures
            agrees(r, final(self)@, old(self)@, step_system(old(self)@, ins)),
    {
        if ins.opcode == 0x00E0 {
            self.framebuffer.clear();
            Ok(())
        } else if ins.opcode == 0x00EE {
            if self.regs.sp == 0 {
                Err(ChipError::StackUnderflow)
            } else if self.regs.sp > 16 {
                Err(ChipError::StackOverflow)
            } else {
                self.regs.sp = self.regs.sp - 1;
                self.regs.pc = self.stack[self.regs.sp as usize];
                Ok(())
            }
        } else {
            Err(ChipError::UnknownOpcode(ins.opcode))
        }
    }

    /// Class 2: calls the subroutine at `nnn`.
    fn exec_call(&mut self, ins: Instr) -> (r: Result<(), ChipError>)
        ensures
            agrees(r, final(self)@, old(self)@, step_call(old(self)@, ins)),
    {
        if self.regs.sp >= 16 {
            Err(ChipError::StackOverflow)
        } else {
            self.stack[self.regs.sp as usize] = self.regs.pc;
            self.regs.sp = self.regs.sp + 1;
            self.regs.pc = ins.nnn;
            Ok(())
        }
    }

    /// A shift of Vx, right or `left`, after Vy has been copied into it if
    /// `copies_vy` is set.
    fn exec_shift(&mut self, ins: Instr, copies_vy: bool, left: bool)
        requires
            ins.x < 16,
            ins.y < 16,
        ensures
            final(self)@ == (ChipState {
                v: shifted_regs(
                    old(self)@.v,
                    ins.x as int,
                    crate::model::shift_source(old(self)@, ins, copies_vy),
                    left,
                ),
                ..old(self)@
            }),
    {
        let x = ins.x as usize;
        if copies_vy {
            self.regs.vx[x] = self.regs.vx[ins.y as usize];
        }
        let src: u8 = self.regs.vx[x];
        if left {
            assert((src & 0x80 != 0) == (src >= 128)) by (bit_vector);
            self.regs.vx[15] = if src & 0x80 != 0 { 1 } else { 0 };
            let cur: u8 = self.regs.vx[x];
            assert(cur << 1 == (cur * 2) % 256) by (bit_vector);
            self.regs.vx[x] = cur << 1;
        } else {
            assert(src & 0x01 == src % 2) by (bit_vector);
            self.regs.vx[15] = src & 0x01;
            let cur: u8 = self.regs.vx[x];
            assert(cur >> 1 == cur / 2) by (bit_vector);
            self.regs.vx[x] = cur >> 1;
        }
        assert(self@.v =~= shifted_regs(
            old(self)@.v,
            ins.x as int,
            crate::model::shift_source(old(self)@, ins, copies_vy),
            left,
        ));
    }

    /// Class 8: arithmetic and logic between Vx and Vy.
    fn exec_alu(&mut self, ins: Instr) -> (r: Result<(), ChipError>)
        requires
            ins.x < 16,
            ins.y < 16,
        ensures
            agrees(r, final(self)@, old(self)@, step_alu(old(self)@, ins)),
    {
        let vx: u8 = self.regs.vx[ins.x as usize];
        let vy: u8 = self.regs.vx[ins.y as usize];
        if ins.n == 0x0 {
            self.set_v(ins.x, vy);
        } else if ins.n == 0x1 {
            self.set_v(ins.x, vx | vy);
        } else if ins.n == 0x2 {
            self.set_v(ins.x, vx & vy);
        } else if ins.n == 0x3 {
            self.set_v(ins.x, vx ^ vy);
        } else if ins.n == 0x4 {
            let sum: u16 = vx as u16 + vy as u16;
            self.set_v_flag(ins.x, (sum % 256) as u8, sum > 255);
        } else if ins.n == 0x5 {
            self.set_v_flag(ins.x, vx.wrapping_sub(vy), vx >= vy);
        } else if ins.n == 0x6 {
            let copies = self.profile.shr_copies_vy;
            self.exec_shift(ins, copies, false);
        } else if ins.n == 0x7 {
            self.set_v_flag(ins.x, vy.wrapping_sub(vx), vy >= vx);
        } else if ins.n == 0xE {
            let copies = self.profile.shl_copies_vy;
            self.exec_shift(ins, copies, true);
        } else {
            return Err(ChipError::UnknownOpcode(ins.opcode));
        }
        Ok(())
    }

    /// Class D: draws the sprite at I and sets VF to the collision flag.
    fn exec_draw(&mut self, ins: Instr) -> (r: Result<(), ChipError>)
        requires
            ins.x < 16,
            ins.y < 16,
        ensures
            agrees(r, final(self)@, old(self)@, step_draw(old(self)@, ins)),
    {
        let start: usize = self.regs.i as usize;
        let end: usize = start + ins.n as usize;
        if end > 4096 {
            return Err(ChipError::AddressOutOfRange);
        }
        let start_x: u32 = self.regs.vx[ins.x as usize] as u32;
        let start_y: u32 = self.regs.vx[ins.y as usize] as u32;
        let mut colisions: bool = false;
        let sprite = slice_subrange(self.ram.mem.as_slice(), start, end);
        self.framebuffer.draw_sprite(sprite, start_x, start_y, &mut colisions);
        self.regs.vx[15] = if colisions { 1u8 } else { 0u8 };
        Ok(())
    }

    /// Class E: skips on the state of the key that Vx names.
    fn exec_key(&mut self, ins: Instr) -> (r: Result<(), ChipError>)
        requires
            old(self)@.pc <= 0xFFFD,
            ins.x < 16,
        ensures
            agrees(r, final(self)@, old(self)@, step_key(old(self)@, ins)),
    {
        let vx: u8 = self.regs.vx[ins.x as usize];
        if ins.nn != 0x9E && ins.nn != 0xA1 {
            Err(ChipError::UnknownOpcode(ins.opcode))
        } else if vx >= 16 {
            Err(ChipError::KeyOutOfRange)
        } else {
            let pressed = self.is_key_pressed(vx);
            if ins.nn == 0x9E {
                self.skip_if(pressed);
            } else {
                self.skip_if(!pressed);
            }
            Ok(())
        }
    }

    /// Stores V0..Vx at I and moves I behind them if `advance` is set.
    fn exec_dump(&mut self, x: u8, advance: bool) -> (r: Result<(), ChipError>)
        requires
            x < 16,
        ensures
            in_range(old(self)@.i as int, x + 1) ==> r == Ok::<(), ChipError>(()) && final(self)@
                == (ChipState {
                mem: store_block(old(self)@.mem, old(self)@.i as int, old(self)@.v.take(x + 1)),
                i: index_after(old(self)@.i, x as int, advance),
                ..old(self)@
            }),
            !in_range(old(self)@.i as int, x + 1) ==> r == Err::<(), ChipError>(
                ChipError::AddressOutOfRange,
            ) && final(self)@ == old(self)@,
    {
        let base: u32 = self.regs.i as u32;
        let loaded = self.ram.load_block_u8(
            base,
            slice_subrange(self.regs.vx.as_slice(), 0, x as usize + 1),
        );
        match loaded {
            Ok(_) => {
                assert(old(self)@.v.subrange(0, x + 1) =~= old(self)@.v.take(x + 1));
                if advance {
                    self.regs.i = self.regs.i + (x as u16 + 1);
                }
                Ok(())
            },
            Err(e) => Err(e),
        }
    }

    /// Loads V0..Vx from I and moves I behind them if `advance` is set.
    fn exec_load(&mut self, x: u8, advance: bool) -> (r: Result<(), ChipError>)
        requires
            x < 16,
        ensures
            in_range(old(self)@.i as int, x + 1) ==> r == Ok::<(), ChipError>(()) && final(self)@
                == (ChipState {
                v: loaded_regs(old(self)@.v, old(self)@.mem, old(self)@.i as int, x as int),
                i: index_after(old(self)@.i, x as int, advance),
                ..old(self)@
            }),
            !in_range(old(self)@.i as int, x + 1) ==> r == Err::<(), ChipError>(
                ChipError::AddressOutOfRange,
            ) && final(self)@ == old(self)@,
    {
        let base: usize = self.regs.i as usize;
        if base + x as usize + 1 > 4096 {
            return Err(ChipError::AddressOutOfRange);
        }
        let mut k: usize = 0;
        assert(self@.v =~= loaded_regs(old(self)@.v, old(self)@.mem, base as int, -1));
        while k <= x as usize
            invariant
                x < 16,
                k <= x + 1,
                base == old(self)@.i,
                base + x + 1 <= 4096,
                self@ == (ChipState {
                    v: loaded_regs(old(self)@.v, old(self)@.mem, base as int, k - 1),
                    ..old(self)@
                }),
            decreases x + 1 - k,
        {
            self.regs.vx[k] = self.ram.mem[base + k];
            k = k + 1;
            assert(self@.v =~= loaded_regs(old(self)@.v, old(self)@.mem, base as int, k - 1));
        }
        if advance {
            self.regs.i = self.regs.i + (x as u16 + 1);
        }
        Ok(())
    }

    /// Class F: timers, the keypad wait, the index register and the
    /// transfers between registers and memory.
    fn exec_misc(&mut self, ins: Instr) -> (r: Result<(), ChipError>)
        requires
            2 <= old(self)@.pc,
            ins.x < 16,
        ensures
            agrees(r, final(self)@, old(self)@, step_misc(old(self)@, ins)),
    {
        let x = ins.x;
        let vx: u8 = self.regs.vx[x as usize];
        if ins.nn == 0x07 {
            let dt = self.regs.dt;
            self.set_v(x, dt);
            Ok(())
        } else if ins.nn == 0x0A {
            let k = self.lowest_pressed_key();
            if k < 16 {
                self.set_v(x, k);
            } else {
                self.regs.pc = self.regs.pc - 2;
            }
            Ok(())
        } else if ins.nn == 0x15 {
            self.regs.dt = vx;
            Ok(())
        } else if ins.nn == 0x18 {
            self.regs.st = vx;
            Ok(())
        } else if ins.nn == 0x1E {
            if self.regs.i > 0xFFFF - vx as u16 {
                Err(ChipError::AddressOutOfRange)
            } else {
                self.regs.i = self.regs.i + vx as u16;
                Ok(())
            }
        } else if ins.nn == 0x29 {
            if vx >= 16 {
                Err(ChipError::DigitOutOfRange)
            } else {
                self.regs.i = self.sprite_addr[vx as usize];
                Ok(())
            }
        } else if ins.nn == 0x33 {
            let digits: [u8; 3] = [vx / 100, (vx / 10) % 10, vx % 10];
            assert(digits@ =~= bcd(vx));
            match self.ram.load_block_u8(self.regs.i as u32, digits.as_slice()) {
                Ok(_) => Ok(()),
                Err(e) => Err(e),
            }
        } else if ins.nn == 0x55 {
            let advance = self.profile.store_dump_advances_i;
            self.exec_dump(x, advance)
        } else if ins.nn == 0x65 {
            let advance = self.profile.store_load_advances_i;
            self.exec_load(x, advance)
        } else {
            Err(ChipError::UnknownOpcode(ins.opcode))
        }
    }

    /// Carries out `ins` once the program counter has moved behind it.
    fn exec_dispatch(&mut self, ins: Instr, rnd: u8) -> (r: Result<(), ChipError>)
        requires
            2 <= old(self)@.pc <= 4096,
            ins.x < 16,
            ins.y < 16,
            ins.nnn < 4096,
        ensures
            agrees(r, final(self)@, old(self)@, dispatch(old(self)@, ins, rnd)),
    {
        let x = ins.x;
        let vx: u8 = self.regs.vx[ins.x as usize];
        let vy: u8 = self.regs.vx[ins.y as usize];
        if ins.c == 0x0 {
            self.exec_system(ins)
        } else if ins.c == 0x1 {
            self.regs.pc = ins.nnn;
            Ok(())
        } else if ins.c == 0x2 {
            self.exec_call(ins)
        } else if ins.c == 0x3 {
            self.skip_if(vx == ins.nn);
            Ok(())
        } else if ins.c == 0x4 {
            self.skip_if(vx != ins.nn);
            Ok(())
        } else if ins.c == 0x5 {
            if ins.n == 0 {
                self.skip_if(vx == vy);
                Ok(())
            } else {
                Err(ChipError::UnknownOpcode(ins.opcode))
            }
        } else if ins.c == 0x6 {
            self.set_v(x, ins.nn);
            Ok(())
        } else if ins.c == 0x7 {
            self.set_v(x, vx.wrapping_add(ins.nn));
            Ok(())
        } else if ins.c == 0x8 {
            self.exec_alu(ins)
        } else if ins.c == 0x9 {
            if ins.n == 0 {
                self.skip_if(vx != vy);
                Ok(())
            } else {
                Err(ChipError::UnknownOpcode(ins.opcode))
            }
        } else if ins.c == 0xA {
            self.regs.i = ins.nnn;
            Ok(())
        } else if ins.c == 0xB {
            self.regs.pc = self.regs.vx[0] as u16 + ins.nnn;
            Ok(())
        } else if ins.c == 0xC {
            self.set_v(x, rnd & ins.nn);
            Ok(())
        } else if ins.c == 0xD {
            self.exec_draw(ins)
        } else if ins.c == 0xE {
            self.exec_key(ins)
        } else {
            self.exec_misc(ins)
        }
    }

    /// Executes the word `opcode` as the instruction at the program counter:
    /// moves the program counter behind it, then applies its effect. `rnd`
    /// is the random byte that the RND instruction uses; no other
    /// instruction reads it. An instruction that cannot be carried out is
    /// refused and leaves the machine, program counter included, as it was.
    pub fn execute(&mut self, opcode: u16, rnd: u8) -> (r: Result<(), ChipError>)
        ensures
            final(self).wf(),
            agrees(r, final(self)@, old(self)@, step(old(self)@, opcode, rnd)),
            old(self)@.sp <= 16 ==> final(self)@.sp <= 16,
    {
        proof {
            use_type_invariant(&self.framebuffer);
        }
        let pc: u16 = self.regs.pc;
        if pc >= 4095 {
            return Err(ChipError::AddressOutOfRange);
        }
        let ins = Instr::new(opcode);
        proof {
            lemma_field_ranges(opcode);
        }
        self.regs.pc = pc + 2;
        let r = self.exec_dispatch(ins, rnd);
        if r.is_err() {
            self.regs.pc = pc;
        }
        proof {
            crate::model::lemma_step_wf(old(self)@, opcode, rnd);
            if step(old(self)@, opcode, rnd) is Ok {
                crate::laws::lemma_stack_pointer(old(self)@, opcode, rnd);
            }
        }
        r
    }

    /// One cycle: fetches the big-endian word at the program counter and
    /// executes it. A cycle that fails reports why and changes nothing.
    pub fn cycle(&mut self) -> (r: Result<(), ChipError>)
        ensures
            final(self).wf(),
            agrees(r, final(self)@, old(self)@, cycle_step(old(self)@)),
            old(self)@.sp <= 16 ==> final(self)@.sp <= 16,
    {
        proof {
            use_type_invariant(&self.framebuffer);
        }
        match self.ram.read_u16(self.regs.pc as u32) {
            Err(e) => Err(e),
            Ok(opcode) => {
                let ins = Instr::new(opcode);
                if ins.c == 0xC {
                    let rnd = self.rnd.next_byte();
                    proof {
                        lemma_field_ranges(opcode);
                    }
                    self.execute(opcode, rnd)
                } else {
                    self.execute(opcode, 0)
                }
            },
        }
    }

    /// Copies `rom` into memory from `start` on, read as big-endian 16-bit
    /// words: a last byte without a partner is left out. A program that
    /// does not fit is refused whole.
    pub fn load_rom(&mut self, rom: &[u8], start: u32) -> (r: Result<(), ChipError>)
        ensures
            in_range(start as int, even_len(rom@)) ==> r == Ok::<(), ChipError>(())
                && final(self)@ == (ChipState {
                mem: store_block(old(self)@.mem, start as int, rom@.take(even_len(rom@))),
                ..old(self)@
            }),
            !in_range(start as int, even_len(rom@)) ==> r == Err::<(), ChipError>(
                ChipError::AddressOutOfRange,
            ) && final(self)@ == old(self)@,
    {
        let mut code: Vec<u16> = Vec::new();
        let words: usize = rom.len() / 2;
        let mut k: usize = 0;
        while k < words
            invariant
                words == rom@.len() / 2,
                rom@.len() <= usize::MAX,
                k <= words,
                code@.len() == k,
                forall|j: int|
                    0 <= j < k ==> #[trigger] code@[j] == word_of(rom@[2 * j], rom@[2 * j + 1]),
            decreases words - k,
        {
            let op: u16 = rom[2 * k] as u16 * 256 + rom[2 * k + 1] as u16;
            code.push(op);
            k = k + 1;
        }
        assert(bytes_of_words(code@) =~= rom@.take(even_len(rom@))) by {
            assert forall|j: int| 0 <= j < 2 * words implies bytes_of_words(code@)[j] == rom@[j] by {
                lemma_bytes_word(rom@[2 * (j / 2)], rom@[2 * (j / 2) + 1]);
            }
        }
        match self.ram.load_block_u16(start, code.as_slice()) {
            Ok(_) => Ok(()),
            Err(e) => Err(e),
        }
    }
}

} // verus!
