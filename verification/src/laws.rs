//! What holds of every instruction of a kind, proved from the model of the
//! machine.

use vstd::prelude::*;
use crate::error::ChipError;
use crate::instr::{lemma_field_ranges, Instr};
use crate::model::{
    cycle_step, draws_random, fetch, first_pressed, flag_byte, step, ChipState,
};
use crate::ram::in_range;
use crate::rng::{next_byte_of, state_after_byte};

verus! {

/// Whether `ins` sets the program counter to a target of its own: a jump, a
/// call, a return, or a jump relative to V0.
pub open spec fn is_transfer(ins: Instr) -> bool {
    ins.c == 0x1 || ins.c == 0x2 || ins.c == 0xB || ins.opcode == 0x00EE
}

/// The target of the transfer `ins` in state `s`.
pub open spec fn transfer_target(s: ChipState, ins: Instr) -> int {
    if ins.c == 0x1 || ins.c == 0x2 {
        ins.nnn as int
    } else if ins.c == 0xB {
        s.v[0] + ins.nnn
    } else {
        s.stack[s.sp - 1] as int
    }
}

/// Whether `ins` is a skip instruction whose condition holds in state `s`.
pub open spec fn skip_taken(s: ChipState, ins: Instr) -> bool {
    let vx = s.v[ins.x as int];
    let vy = s.v[ins.y as int];
    ||| ins.c == 0x3 && vx == ins.nn
    ||| ins.c == 0x4 && vx != ins.nn
    ||| ins.c == 0x5 && vx == vy
    ||| ins.c == 0x9 && vx != vy
    ||| ins.c == 0xE && ins.nn == 0x9E && s.keys[vx as int]
    ||| ins.c == 0xE && ins.nn == 0xA1 && !s.keys[vx as int]
}

/// Whether `ins` waits for a key while none is held in state `s`.
pub open spec fn waits_for_key(s: ChipState, ins: Instr) -> bool {
    ins.c == 0xF && ins.nn == 0x0A && first_pressed(s.keys, 0) >= 16
}

/// Where the program counter stands after `ins` has been executed at
/// program counter `s.pc`.
pub open spec fn pc_after(s: ChipState, ins: Instr) -> int {
    if is_transfer(ins) {
        transfer_target(s, ins)
    } else if skip_taken(s, ins) {
        s.pc + 4
    } else if waits_for_key(s, ins) {
        s.pc as int
    } else {
        s.pc + 2
    }
}

/// The first key held down, if `first_pressed` finds one, is held down and
/// no key below it is; if it finds none, no key is held down.
pub proof fn lemma_first_pressed(keys: Seq<bool>, from: int)
    requires
        keys.len() == 16,
        0 <= from <= 16,
    ensures
        from <= first_pressed(keys, from) <= 16,
        first_pressed(keys, from) < 16 ==> keys[first_pressed(keys, from)],
        forall|k: int| from <= k < first_pressed(keys, from) ==> !#[trigger] keys[k],
    decreases 16 - from,
{
    if from < 16 && !keys[from] {
        lemma_first_pressed(keys, from + 1);
    }
}

/// An instruction that executes leaves the program counter two behind where
/// it was, unless it is a transfer, which sets it to its target, a skip that
/// is taken, which leaves it four behind, or a wait for a key with no key
/// held, which leaves it where it was.
pub proof fn lemma_pc_after_step(s: ChipState, opcode: u16, rnd: u8)
    requires
        s.wf(),
        step(s, opcode, rnd) is Ok,
    ensures
        step(s, opcode, rnd)->Ok_0.pc == pc_after(s, Instr::decode(opcode)),
{
    lemma_field_ranges(opcode);
    assert(opcode == 0x00EE ==> (opcode >> 12) & 0xf == 0) by (bit_vector);
}

/// The same of a whole cycle, for the word that the cycle fetches.
pub proof fn lemma_pc_after_cycle(s: ChipState)
    requires
        s.wf(),
        cycle_step(s) is Ok,
    ensures
        fetch(s) is Ok,
        cycle_step(s)->Ok_0.pc == pc_after(s, Instr::decode(fetch(s)->Ok_0)),
{
    let opcode = fetch(s)->Ok_0;
    if draws_random(opcode) {
        let drawn = ChipState { rng: state_after_byte(s.rng), ..s };
        lemma_pc_after_step(drawn, opcode, next_byte_of(s.rng));
    } else {
        lemma_pc_after_step(s, opcode, 0);
    }
}

/// Whether `opcode` is of class 8 with the low nibble `n`, executed in a
/// state whose program counter points into memory.
pub open spec fn runs_alu(s: ChipState, opcode: u16, n: u8) -> bool {
    &&& s.wf()
    &&& in_range(s.pc as int, 2)
    &&& Instr::decode(opcode).c == 0x8
    &&& Instr::decode(opcode).n == n
}

/// ADD Vx, Vy: VF is 1 exactly if the sum exceeds 255, and Vx, unless it is
/// VF itself, is the sum modulo 256.
pub proof fn lemma_add_carry(s: ChipState, opcode: u16, rnd: u8)
    requires
        runs_alu(s, opcode, 0x4),
    ensures
        step(s, opcode, rnd) is Ok,
        ({
            let ins = Instr::decode(opcode);
            let t = step(s, opcode, rnd)->Ok_0;
            let sum = s.v[ins.x as int] + s.v[ins.y as int];
            &&& t.v[15] == flag_byte(sum > 255)
            &&& ins.x != 15 ==> t.v[ins.x as int] == sum % 256
        }),
{
    lemma_field_ranges(opcode);
}

/// SUB Vx, Vy: VF is 1 exactly if Vx is at least Vy, and Vx, unless it is VF
/// itself, is the difference modulo 256.
pub proof fn lemma_sub_borrow(s: ChipState, opcode: u16, rnd: u8)
    requires
        runs_alu(s, opcode, 0x5),
    ensures
        step(s, opcode, rnd) is Ok,
        ({
            let ins = Instr::decode(opcode);
            let t = step(s, opcode, rnd)->Ok_0;
            let vx = s.v[ins.x as int];
            let vy = s.v[ins.y as int];
            &&& t.v[15] == flag_byte(vx >= vy)
            &&& ins.x != 15 ==> t.v[ins.x as int] == (vx - vy) % 256
        }),
{
    lemma_field_ranges(opcode);
}

/// SUBN Vx, Vy: as SUB with the operands exchanged.
pub proof fn lemma_subn_borrow(s: ChipState, opcode: u16, rnd: u8)
    requires
        runs_alu(s, opcode, 0x7),
    ensures
        step(s, opcode, rnd) is Ok,
        ({
            let ins = Instr::decode(opcode);
            let t = step(s, opcode, rnd)->Ok_0;
            let vx = s.v[ins.x as int];
            let vy = s.v[ins.y as int];
            &&& t.v[15] == flag_byte(vy >= vx)
            &&& ins.x != 15 ==> t.v[ins.x as int] == (vy - vx) % 256
        }),
{
    lemma_field_ranges(opcode);
}

/// SHR with the copying quirk: Vx, unless it is VF itself, becomes Vy
/// shifted right by one, and VF the bit of Vy that was shifted out.
pub proof fn lemma_shr_copies_vy(s: ChipState, opcode: u16, rnd: u8)
    requires
        runs_alu(s, opcode, 0x6),
        s.profile.shr_copies_vy,
        Instr::decode(opcode).x != 15,
    ensures
        step(s, opcode, rnd) is Ok,
        ({
            let ins = Instr::decode(opcode);
            let t = step(s, opcode, rnd)->Ok_0;
            let vy = s.v[ins.y as int];
            &&& t.v[ins.x as int] == vy >> 1
            &&& t.v[15] == vy & 1
        }),
{
    lemma_field_ranges(opcode);
    let vy = s.v[Instr::decode(opcode).y as int];
    assert(vy >> 1 == vy / 2) by (bit_vector);
    assert(vy & 1 == vy % 2) by (bit_vector);
}

/// SHL with the copying quirk: Vx, unless it is VF itself, becomes Vy
/// shifted left by one, and VF the bit of Vy that was shifted out.
pub proof fn lemma_shl_copies_vy(s: ChipState, opcode: u16, rnd: u8)
    requires
        runs_alu(s, opcode, 0xE),
        s.profile.shl_copies_vy,
        Instr::decode(opcode).x != 15,
    ensures
        step(s, opcode, rnd) is Ok,
        ({
            let ins = Instr::decode(opcode);
            let t = step(s, opcode, rnd)->Ok_0;
            let vy = s.v[ins.y as int];
            &&& t.v[ins.x as int] == vy << 1
            &&& t.v[15] == flag_byte(vy & 0x80 != 0)
        }),
{
    lemma_field_ranges(opcode);
    let vy = s.v[Instr::decode(opcode).y as int];
    assert(vy << 1 == (vy * 2) % 256) by (bit_vector);
    assert((vy & 0x80 != 0) == (vy >= 128)) by (bit_vector);
}

/// SHR without the copying quirk shifts Vx in place and never reads Vy:
/// Vx, unless it is VF itself, becomes Vx shifted right by one and VF the
/// bit shifted out, whatever Vy holds, and Vy, if another register than Vx
/// and VF, keeps what it held.
pub proof fn lemma_shr_in_place(s: ChipState, opcode: u16, rnd: u8, other: u8)
    requires
        runs_alu(s, opcode, 0x6),
        !s.profile.shr_copies_vy,
        Instr::decode(opcode).x != 15,
    ensures
        step(s, opcode, rnd) is Ok,
        ({
            let ins = Instr::decode(opcode);
            let t = step(s, opcode, rnd)->Ok_0;
            let vx = s.v[ins.x as int];
            &&& t.v[ins.x as int] == vx >> 1
            &&& t.v[15] == vx & 1
            &&& ins.y != ins.x && ins.y != 15 ==> t.v[ins.y as int] == s.v[ins.y as int]
            &&& ins.y != ins.x ==> {
                let u = step(s.with_v(ins.y as int, other), opcode, rnd)->Ok_0;
                u.v[ins.x as int] == t.v[ins.x as int] && u.v[15] == t.v[15]
            }
        }),
{
    lemma_field_ranges(opcode);
    let vx = s.v[Instr::decode(opcode).x as int];
    assert(vx >> 1 == vx / 2) by (bit_vector);
    assert(vx & 1 == vx % 2) by (bit_vector);
}

/// SHL without the copying quirk shifts Vx in place and never reads Vy.
pub proof fn lemma_shl_in_place(s: ChipState, opcode: u16, rnd: u8, other: u8)
    requires
        runs_alu(s, opcode, 0xE),
        !s.profile.shl_copies_vy,
        Instr::decode(opcode).x != 15,
    ensures
        step(s, opcode, rnd) is Ok,
        ({
            let ins = Instr::decode(opcode);
            let t = step(s, opcode, rnd)->Ok_0;
            let vx = s.v[ins.x as int];
            &&& t.v[ins.x as int] == vx << 1
            &&& t.v[15] == flag_byte(vx & 0x80 != 0)
            &&& ins.y != ins.x && ins.y != 15 ==> t.v[ins.y as int] == s.v[ins.y as int]
            &&& ins.y != ins.x ==> {
                let u = step(s.with_v(ins.y as int, other), opcode, rnd)->Ok_0;
                u.v[ins.x as int] == t.v[ins.x as int] && u.v[15] == t.v[15]
            }
        }),
{
    lemma_field_ranges(opcode);
    let vx = s.v[Instr::decode(opcode).x as int];
    assert(vx << 1 == (vx * 2) % 256) by (bit_vector);
    assert((vx & 0x80 != 0) == (vx >= 128)) by (bit_vector);
}

/// Whether `opcode` is the register dump (`nn` 0x55) or the register load
/// (`nn` 0x65), executed in a state in which it succeeds.
pub open spec fn runs_transfer(s: ChipState, opcode: u16, nn: u8) -> bool {
    &&& s.wf()
    &&& in_range(s.pc as int, 2)
    &&& Instr::decode(opcode).c == 0xF
    &&& Instr::decode(opcode).nn == nn
    &&& in_range(s.i as int, Instr::decode(opcode).x + 1)
}

/// The register dump stores V0..Vx at I, changes no other byte, and leaves
/// I behind the block if the quirk is set and where it was if not.
pub proof fn lemma_dump_index(s: ChipState, opcode: u16, rnd: u8)
    requires
        runs_transfer(s, opcode, 0x55),
    ensures
        step(s, opcode, rnd) is Ok,
        ({
            let ins = Instr::decode(opcode);
            let t = step(s, opcode, rnd)->Ok_0;
            &&& s.profile.store_dump_advances_i ==> t.i == s.i + ins.x + 1
            &&& !s.profile.store_dump_advances_i ==> t.i == s.i
            &&& t.v == s.v
            &&& forall|k: int| 0 <= k <= ins.x ==> t.mem[s.i + k] == s.v[k]
            &&& forall|a: int|
                0 <= a < 4096 && !(s.i <= a <= s.i + ins.x) ==> t.mem[a] == s.mem[a]
        }),
{
    lemma_field_ranges(opcode);
}

/// The register load fills V0..Vx from I, changes no other register, and
/// leaves I behind the block if the quirk is set and where it was if not.
pub proof fn lemma_load_index(s: ChipState, opcode: u16, rnd: u8)
    requires
        runs_transfer(s, opcode, 0x65),
    ensures
        step(s, opcode, rnd) is Ok,
        ({
            let ins = Instr::decode(opcode);
            let t = step(s, opcode, rnd)->Ok_0;
            &&& s.profile.store_load_advances_i ==> t.i == s.i + ins.x + 1
            &&& !s.profile.store_load_advances_i ==> t.i == s.i
            &&& t.mem == s.mem
            &&& forall|k: int| 0 <= k <= ins.x ==> t.v[k] == s.mem[s.i + k]
            &&& forall|k: int| ins.x < k < 16 ==> t.v[k] == s.v[k]
        }),
{
    lemma_field_ranges(opcode);
}

/// Whether `opcode` is a draw instruction that names neither VF as a
/// coordinate, executed in a state in which it succeeds twice in a row.
pub open spec fn runs_draw_twice(s: ChipState, opcode: u16) -> bool {
    &&& s.wf()
    &&& in_range(s.pc as int, 4)
    &&& Instr::decode(opcode).c == 0xD
    &&& Instr::decode(opcode).x != 15
    &&& Instr::decode(opcode).y != 15
    &&& in_range(s.i as int, Instr::decode(opcode).n as int)
}

/// The same draw instruction executed twice in a row restores the display
/// and leaves memory alone. (With VF as a coordinate the second draw may
/// start elsewhere, since the first one has written its flag there.)
pub proof fn lemma_draw_twice(s: ChipState, opcode: u16, rnd: u8)
    requires
        runs_draw_twice(s, opcode),
    ensures
        step(s, opcode, rnd) is Ok,
        step(step(s, opcode, rnd)->Ok_0, opcode, rnd) is Ok,
        step(step(s, opcode, rnd)->Ok_0, opcode, rnd)->Ok_0.frame == s.frame,
        step(step(s, opcode, rnd)->Ok_0, opcode, rnd)->Ok_0.mem == s.mem,
{
    lemma_field_ranges(opcode);
    let ins = Instr::decode(opcode);
    let sprite = s.mem.subrange(s.i as int, s.i + ins.n);
    crate::framebuffer::lemma_draw_twice_restores(
        s.frame,
        sprite,
        s.v[ins.x as int] as int,
        s.v[ins.y as int] as int,
    );
}

/// Whether `ins` is a call.
pub open spec fn is_call(ins: Instr) -> bool {
    ins.c == 0x2
}

/// Whether `ins` is a return.
pub open spec fn is_return(ins: Instr) -> bool {
    ins.opcode == 0x00EE
}

/// The stack pointer counts the return addresses on the call stack: a call
/// that executes stores the address behind itself in the first free slot
/// and raises the pointer by one, a return lowers it by one and continues
/// at the address in the slot that it frees, and no other instruction
/// touches pointer or stack. So a stack pointer that is at most 16, the
/// capacity of the stack, stays at most 16.
pub proof fn lemma_stack_pointer(s: ChipState, opcode: u16, rnd: u8)
    requires
        s.wf(),
        step(s, opcode, rnd) is Ok,
    ensures
        ({
            let ins = Instr::decode(opcode);
            let t = step(s, opcode, rnd)->Ok_0;
            &&& is_call(ins) ==> s.sp < 16 && t.sp == s.sp + 1 && t.stack == s.stack.update(
                s.sp as int,
                (s.pc + 2) as u16,
            )
            &&& is_return(ins) ==> 0 < s.sp <= 16 && t.sp == s.sp - 1 && t.stack == s.stack
                && t.pc == s.stack[s.sp - 1]
            &&& !is_call(ins) && !is_return(ins) ==> t.sp == s.sp && t.stack == s.stack
            &&& s.sp <= 16 ==> t.sp <= 16
        }),
{
    lemma_field_ranges(opcode);
    assert(opcode == 0x00EE ==> (opcode >> 12) & 0xf == 0) by (bit_vector);
}

/// A machine whose stack pointer is at most 16 is refused an instruction
/// for the stack's sake only at its two ends: a call with all 16 slots
/// taken overflows, and a return with none taken underflows.
pub proof fn lemma_stack_errors(s: ChipState, opcode: u16, rnd: u8)
    requires
        s.wf(),
        s.sp <= 16,
    ensures
        step(s, opcode, rnd) == Err::<ChipState, ChipError>(ChipError::StackOverflow) <==> in_range(
            s.pc as int,
            2,
        ) && is_call(Instr::decode(opcode)) && s.sp == 16,
        step(s, opcode, rnd) == Err::<ChipState, ChipError>(ChipError::StackUnderflow)
            <==> in_range(s.pc as int, 2) && is_return(Instr::decode(opcode)) && s.sp == 0,
{
    lemma_field_ranges(opcode);
    assert(opcode == 0x00EE ==> (opcode >> 12) & 0xf == 0) by (bit_vector);
}

/// The stack pointer of a machine stays at most 16 over a whole cycle,
/// whether the cycle succeeds or is refused.
pub proof fn lemma_cycle_keeps_stack_bound(s: ChipState)
    requires
        s.wf(),
        s.sp <= 16,
    ensures
        cycle_step(s) matches Ok(t) ==> t.sp <= 16,
{
    if cycle_step(s) is Ok {
        let opcode = fetch(s)->Ok_0;
        if draws_random(opcode) {
            let drawn = ChipState { rng: state_after_byte(s.rng), ..s };
            lemma_stack_pointer(drawn, opcode, next_byte_of(s.rng));
        } else {
            lemma_stack_pointer(s, opcode, 0);
        }
    }
}

/// No instruction changes the quirk profile or the table of sprite
/// addresses, and only RND depends on the random byte.
pub proof fn lemma_step_keeps_configuration(s: ChipState, opcode: u16, rnd: u8, other: u8)
    requires
        s.wf(),
        step(s, opcode, rnd) is Ok,
    ensures
        step(s, opcode, rnd)->Ok_0.profile == s.profile,
        step(s, opcode, rnd)->Ok_0.sprite_addr == s.sprite_addr,
        step(s, opcode, rnd)->Ok_0.rng == s.rng,
        step(s, opcode, rnd)->Ok_0.keys == s.keys,
        !draws_random(opcode) ==> step(s, opcode, other) == step(s, opcode, rnd),
{
    lemma_field_ranges(opcode);
}

} // verus!
