//! Decoding of a 16-bit instruction word into its fields.

use vstd::prelude::*;

verus! {

/// An instruction word together with every field an instruction may read.
#[derive(Clone, Copy, Debug, PartialEq, Eq, Structural)]
pub struct Instr {
    /// The word as fetched.
    pub opcode: u16,
    /// Bits 15-12: the instruction class.
    pub c: u8,
    /// Bits 11-8: the first register operand.
    pub x: u8,
    /// Bits 7-4: the second register operand.
    pub y: u8,
    /// Bits 3-0: a 4-bit immediate.
    pub n: u8,
    /// Bits 7-0: an 8-bit immediate.
    pub nn: u8,
    /// Bits 11-0: a 12-bit address.
    pub nnn: u16,
}

impl Instr {
    /// The fields of the word `opcode`, as a mathematical value.
    pub open spec fn decode(opcode: u16) -> Instr {
        Instr {
            opcode,
            c: ((opcode >> 12) & 0xf) as u8,
            x: ((opcode >> 8) & 0xf) as u8,
            y: ((opcode >> 4) & 0xf) as u8,
            n: (opcode & 0xf) as u8,
            nn: (opcode & 0xff) as u8,
            nnn: opcode & 0xfff,
        }
    }

    /// Decodes `opcode`. Every word decodes.
    pub fn new(opcode: u16) -> (r: Instr)
        ensures
            r == Instr::decode(opcode),
            r.opcode == opcode,
            r.c == (opcode >> 12) & 0xf,
            r.x == (opcode >> 8) & 0xf,
            r.y == (opcode >> 4) & 0xf,
            r.n == opcode & 0xf,
            r.nn == opcode & 0xff,
            r.nnn == opcode & 0xfff,
    {
        proof {
            lemma_field_ranges(opcode);
            assert((opcode & 0xf000) >> 12 == (opcode >> 12) & 0xf) by (bit_vector);
            assert((opcode & 0x0f00) >> 8 == (opcode >> 8) & 0xf) by (bit_vector);
            assert((opcode & 0x00f0) >> 4 == (opcode >> 4) & 0xf) by (bit_vector);
        }
        Instr {
            opcode,
            c: ((opcode & 0xf000) >> 12) as u8,
            x: ((opcode & 0x0f00) >> 8) as u8,
            y: ((opcode & 0x00f0) >> 4) as u8,
            n: (opcode & 0x000f) as u8,
            nn: (opcode & 0x00ff) as u8,
            nnn: opcode & 0x0fff,
        }
    }
}

/// Every field of a word fits the width that its name promises.
pub proof fn lemma_field_ranges(opcode: u16)
    ensures
        (opcode >> 12) & 0xf < 16,
        (opcode >> 8) & 0xf < 16,
        (opcode >> 4) & 0xf < 16,
        opcode & 0xf < 16,
        opcode & 0xff < 256,
        opcode & 0xfff < 4096,
        Instr::decode(opcode).c < 16,
        Instr::decode(opcode).x < 16,
        Instr::decode(opcode).y < 16,
        Instr::decode(opcode).n < 16,
        Instr::decode(opcode).nnn < 4096,
{
    assert((opcode >> 12) & 0xf < 16) by (bit_vector);
    assert((opcode >> 8) & 0xf < 16) by (bit_vector);
    assert((opcode >> 4) & 0xf < 16) by (bit_vector);
    assert(opcode & 0xf < 16) by (bit_vector);
    assert(opcode & 0xff < 256) by (bit_vector);
    assert(opcode & 0xfff < 4096) by (bit_vector);
}

/// The fields overlap as the bit layout says: `nn` is `y` above `n`, and
/// `nnn` is `x` above `nn`.
pub proof fn lemma_fields_compose(opcode: u16)
    ensures
        Instr::decode(opcode).nn == Instr::decode(opcode).y * 16 + Instr::decode(opcode).n,
        Instr::decode(opcode).nnn == Instr::decode(opcode).x * 256 + Instr::decode(opcode).nn,
        opcode == Instr::decode(opcode).c * 4096 + Instr::decode(opcode).nnn,
{
    lemma_field_ranges(opcode);
    assert(opcode & 0xff == ((opcode >> 4) & 0xf) * 16 + (opcode & 0xf)) by (bit_vector);
    assert(opcode & 0xfff == ((opcode >> 8) & 0xf) * 256 + (opcode & 0xff)) by (bit_vector);
    assert(opcode == ((opcode >> 12) & 0xf) * 4096 + (opcode & 0xfff)) by (bit_vector);
}

} // verus!
