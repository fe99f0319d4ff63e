//! The flat, byte-addressable memory of the machine.

use vstd::prelude::*;
use crate::arch::RAMSIZE;
use crate::error::ChipError;

verus! {

/// The big-endian 16-bit word whose high byte is `hi`.
pub open spec fn word_of(hi: u8, lo: u8) -> u16 {
    (hi as int * 256 + lo as int) as u16
}

/// The high byte of `w`.
pub open spec fn high_byte(w: u16) -> u8 {
    (w / 256) as u8
}

/// The low byte of `w`.
pub open spec fn low_byte(w: u16) -> u8 {
    (w % 256) as u8
}

/// The bytes of `words`, each word high byte first.
pub open spec fn bytes_of_words(words: Seq<u16>) -> Seq<u8> {
    Seq::new(
        2 * words.len(),
        |k: int|
            if k % 2 == 0 {
                high_byte(words[k / 2])
            } else {
                low_byte(words[k / 2])
            },
    )
}

/// The memory `mem` with `block` laid over it from address `addr` on.
pub open spec fn store_block(mem: Seq<u8>, addr: int, block: Seq<u8>) -> Seq<u8> {
    Seq::new(
        mem.len(),
        |k: int|
            if addr <= k < addr + block.len() {
                block[k - addr]
            } else {
                mem[k]
            },
    )
}

/// Whether `len` bytes from `addr` on lie inside the address space.
pub open spec fn in_range(addr: int, len: int) -> bool {
    0 <= addr && 0 <= len && addr + len <= RAMSIZE
}

/// Splitting a word into its bytes and joining them again gives the word.
pub proof fn lemma_word_bytes(w: u16)
    ensures
        word_of(high_byte(w), low_byte(w)) == w,
        high_byte(w) == (w >> 8),
        low_byte(w) == (w & 0xff),
{
    assert(w >> 8 == w / 256) by (bit_vector);
    assert(w & 0xff == w % 256) by (bit_vector);
}

/// Joining two bytes and splitting the word again gives the bytes.
pub proof fn lemma_bytes_word(hi: u8, lo: u8)
    ensures
        high_byte(word_of(hi, lo)) == hi,
        low_byte(word_of(hi, lo)) == lo,
{
}

/// 4096 bytes, addressed from 0. The address space never grows; an access
/// outside it is refused and changes nothing.
#[derive(Debug)]
pub struct Ram {
    /// The bytes, by address.
    pub mem: [u8; 4096],
}

impl View for Ram {
    type V = Seq<u8>;

    open spec fn view(&self) -> Seq<u8> {
        self.mem@
    }
}

impl Ram {
    /// A memory of zeros.
    pub fn new() -> (r: Ram)
        ensures
            r@ =~= Seq::new(4096, |k: int| 0u8),
    {
        Ram { mem: [0u8; 4096] }
    }

    /// Stores `value` at `addr`.
    pub fn write_u8(&mut self, addr: u32, value: u8) -> (r: Result<(), ChipError>)
        ensures
            in_range(addr as int, 1) ==> r == Ok::<(), ChipError>(()) && final(self)@
                == old(self)@.update(addr as int, value),
            !in_range(addr as int, 1) ==> r == Err::<(), ChipError>(ChipError::AddressOutOfRange)
                && *final(self) == *old(self),
    {
        if addr >= RAMSIZE {
            return Err(ChipError::AddressOutOfRange);
        }
        self.mem[addr as usize] = value;
        Ok(())
    }

    /// The byte at `addr`.
    pub fn read_u8(&self, addr: u32) -> (r: Result<u8, ChipError>)
        ensures
            in_range(addr as int, 1) ==> r == Ok::<u8, ChipError>(self@[addr as int]),
            !in_range(addr as int, 1) ==> r == Err::<u8, ChipError>(ChipError::AddressOutOfRange),
    {
        if addr >= RAMSIZE {
            return Err(ChipError::AddressOutOfRange);
        }
        Ok(self.mem[addr as usize])
    }

    /// The big-endian word whose bytes lie at `addr` and `addr + 1`.
    pub fn read_u16(&self, addr: u32) -> (r: Result<u16, ChipError>)
        ensures
            in_range(addr as int, 2) ==> r == Ok::<u16, ChipError>(
                word_of(self@[addr as int], self@[addr as int + 1]),
            ),
            !in_range(addr as int, 2) ==> r == Err::<u16, ChipError>(ChipError::AddressOutOfRange),
    {
        if addr >= RAMSIZE - 1 {
            return Err(ChipError::AddressOutOfRange);
        }
        let hi: u16 = self.mem[addr as usize] as u16;
        let lo: u16 = self.mem[addr as usize + 1] as u16;
        Ok(hi * 256 + lo)
    }

    /// Stores `v` big-endian at `addr` and `addr + 1`.
    pub fn write_u16(&mut self, addr: u32, v: u16) -> (r: Result<(), ChipError>)
        ensures
            in_range(addr as int, 2) ==> r == Ok::<(), ChipError>(()) && final(self)@ == old(
                self,
            )@.update(addr as int, high_byte(v)).update(addr as int + 1, low_byte(v)),
            !in_range(addr as int, 2) ==> r == Err::<(), ChipError>(ChipError::AddressOutOfRange)
                && *final(self) == *old(self),
    {
        if addr >= RAMSIZE - 1 {
            return Err(ChipError::AddressOutOfRange);
        }
        proof {
            lemma_word_bytes(v);
        }
        self.mem[addr as usize] = (v >> 8) as u8;
        self.mem[addr as usize + 1] = (v & 0xff) as u8;
        Ok(())
    }

    /// Stores the words of `buf` big-endian from `addr` on, and returns the
    /// address behind the last byte stored. A block that does not fit is
    /// refused whole.
    pub fn load_block_u16(&mut self, addr: u32, buf: &[u16]) -> (r: Result<u32, ChipError>)
        ensures
            in_range(addr as int, 2 * (buf@.len() as int)) ==> r == Ok::<u32, ChipError>(
                (addr + 2 * buf@.len()) as u32,
            ) && final(self)@ == store_block(old(self)@, addr as int, bytes_of_words(buf@)),
            !in_range(addr as int, 2 * (buf@.len() as int)) ==> r == Err::<u32, ChipError>(
                ChipError::AddressOutOfRange,
            ) && *final(self) == *old(self),
    {
        if addr > 4096 || buf.len() > (4096 - addr as usize) / 2 {
            return Err(ChipError::AddressOutOfRange);
        }
        let ghost before = self@;
        let ghost block = bytes_of_words(buf@);
        let mut next: u32 = addr;
        let mut k: usize = 0;
        while k < buf.len()
            invariant
                k <= buf@.len(),
                in_range(addr as int, 2 * (buf@.len() as int)),
                next == addr + 2 * k,
                block == bytes_of_words(buf@),
                self@ =~= store_block(before, addr as int, block.take(2 * k)),
            decreases buf@.len() - k,
        {
            let ghost prev = self@;
            proof {
                lemma_word_bytes(buf@[k as int]);
            }
            let w: u16 = buf[k];
            self.mem[next as usize] = (w >> 8) as u8;
            self.mem[next as usize + 1] = (w & 0xff) as u8;
            next = next + 2;
            k = k + 1;
            assert(self@ =~= store_block(before, addr as int, block.take(2 * k)));
        }
        assert(block.take(2 * k) =~= block);
        Ok(next)
    }

    /// Stores the bytes of `buf` from `addr` on, and returns the address
    /// behind the last byte stored. A block that does not fit is refused
    /// whole.
    pub fn load_block_u8(&mut self, addr: u32, buf: &[u8]) -> (r: Result<u32, ChipError>)
        ensures
            in_range(addr as int, buf@.len() as int) ==> r == Ok::<u32, ChipError>(
                (addr + buf@.len()) as u32,
            ) && final(self)@ == store_block(old(self)@, addr as int, buf@),
            !in_range(addr as int, buf@.len() as int) ==> r == Err::<u32, ChipError>(
                ChipError::AddressOutOfRange,
            ) && *final(self) == *old(self),
    {
        if addr > 4096 || buf.len() > 4096 - addr as usize {
            return Err(ChipError::AddressOutOfRange);
        }
        let ghost before = self@;
        let mut next: u32 = addr;
        let mut k: usize = 0;
        while k < buf.len()
            invariant
                k <= buf@.len(),
                in_range(addr as int, buf@.len() as int),
                next == addr + k,
                self@ =~= store_block(before, addr as int, buf@.take(k as int)),
            decreases buf@.len() - k,
        {
            self.mem[next as usize] = buf[k];
            next = next + 1;
            k = k + 1;
            assert(self@ =~= store_block(before, addr as int, buf@.take(k as int)));
        }
        assert(buf@.take(k as int) =~= buf@);
        Ok(next)
    }
}

/// A word written is the word read back from the same address.
pub proof fn lemma_write_then_read_u16(mem: Seq<u8>, addr: int, v: u16)
    requires
        mem.len() == 4096,
        in_range(addr, 2),
    ensures
        ({
            let after = mem.update(addr, high_byte(v)).update(addr + 1, low_byte(v));
            word_of(after[addr], after[addr + 1]) == v
        }),
{
    lemma_word_bytes(v);
}

/// A block stored is found again byte for byte, and nothing outside it
/// changes.
pub proof fn lemma_store_block(mem: Seq<u8>, addr: int, block: Seq<u8>, k: int)
    requires
        in_range(addr, block.len() as int),
        mem.len() == 4096,
        0 <= k < 4096,
    ensures
        store_block(mem, addr, block).len() == 4096,
        addr <= k < addr + block.len() ==> store_block(mem, addr, block)[k] == block[k - addr],
        !(addr <= k < addr + block.len()) ==> store_block(mem, addr, block)[k] == mem[k],
{
}

} // verus!
