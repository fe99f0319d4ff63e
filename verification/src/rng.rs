//! The pseudo-random byte source behind the RND instruction.
//!
//! The numbers come from the permuted congruential generator of the
//! `oorandom` crate. Its state is two 64-bit words; the machine keeps them
//! as plain values and hands them to the generator for every draw, so that
//! the whole machine state can be written down and compared.

use vstd::prelude::*;

verus! {

/// The state that `oorandom::Rand32::new` sets up for `seed`.
pub uninterp spec fn rand32_seeded(seed: u64) -> (u64, u64);

/// What `oorandom::Rand32::rand_range` does on a generator in state
/// `state`, asked for a number from `start` up to but not including `end`:
/// the number it returns, and the state it leaves the generator in.
pub uninterp spec fn rand32_range(state: (u64, u64), start: u32, end: u32) -> (u32, (u64, u64));

/// Makes a generator with `oorandom::Rand32::new` and reads its state with
/// `Rand32::state`. The contract only gives that state its name: the same
/// seed always sets up the same state.
#[verifier::external_body]
fn rand32_new(seed: u64) -> (r: (u64, u64))
    ensures
        r == rand32_seeded(seed),
{
    oorandom::Rand32::new(seed).state()
}

/// Whether `width` is a power of two: it has exactly one bit set.
pub open spec fn is_power_of_two(width: u32) -> bool {
    width > 0 && width & ((width - 1) as u32) == 0
}

/// Restores a generator with `oorandom::Rand32::from_state`, draws once with
/// `Rand32::rand_range` and reads the state back. The contract names the
/// outcome, which the state and the bounds determine, and claims what the
/// crate documents of every draw: the number lies in the range asked for.
///
/// Two kinds of input are left out. On an empty range the crate asserts.
/// On a range whose width is no power of two the crate rejects some draws
/// and draws again, and a restored state need not be one from which the
/// generator ever moves on, so the call need not return. For a width that
/// is a power of two the crate's rejection threshold is zero: it draws
/// once, whatever the state.
#[verifier::external_body]
fn rand32_rand_range(state: (u64, u64), start: u32, end: u32) -> (r: (u32, (u64, u64)))
    requires
        start < end,
        is_power_of_two((end - start) as u32),
    ensures
        r == rand32_range(state, start, end),
        start <= r.0 < end,
{
    let mut rng = oorandom::Rand32::from_state(state);
    let n = rng.rand_range(start..end);
    (n, rng.state())
}

/// The byte that a generator in state `state` produces next.
pub open spec fn next_byte_of(state: (u64, u64)) -> u8 {
    rand32_range(state, 0, 256).0 as u8
}

/// The state in which a generator in state `state` is left by producing a
/// byte.
pub open spec fn state_after_byte(state: (u64, u64)) -> (u64, u64) {
    rand32_range(state, 0, 256).1
}

/// A seedable source of bytes. A seed determines the whole sequence.
#[derive(Clone, Copy, Debug)]
pub struct Rng {
    /// The generator's position in its sequence.
    pub state: u64,
    /// The increment that selects the sequence.
    pub inc: u64,
}

impl View for Rng {
    type V = (u64, u64);

    open spec fn view(&self) -> (u64, u64) {
        (self.state, self.inc)
    }
}

impl Rng {
    /// The generator for `seed`.
    pub fn new(seed: u64) -> (r: Rng)
        ensures
            r@ == rand32_seeded(seed),
    {
        let s = rand32_new(seed);
        Rng { state: s.0, inc: s.1 }
    }

    /// Produces the next byte, each value from 0 to 255 being as likely as
    /// any other, and moves on in the sequence.
    pub fn next_byte(&mut self) -> (b: u8)
        ensures
            b == next_byte_of(old(self)@),
            final(self)@ == state_after_byte(old(self)@),
    {
        assert(is_power_of_two(0x100u32)) by {
            assert(0x100u32 & 0xffu32 == 0) by (bit_vector);
        }
        let r = rand32_rand_range((self.state, self.inc), 0, 0x100);
        self.state = r.1.0;
        self.inc = r.1.1;
        r.0 as u8
    }
}

} // verus!
