//! The conditions on which the machine refuses to go on.

use vstd::prelude::*;

verus! {

/// Why an operation of the machine was refused. A refused operation leaves
/// the machine as it was.
#[derive(Clone, Copy, Debug, PartialEq, Eq, Structural)]
pub enum ChipError {
    /// The fetched word matches no instruction; the word is carried along.
    UnknownOpcode(u16),
    /// A fetch, a transfer or a draw would have touched a byte outside the
    /// 4096 bytes of memory, or an addition to the index register would have
    /// passed 0xFFFF. The index register itself may hold any 16-bit value:
    /// only an access through it is held to the size of memory.
    AddressOutOfRange,
    /// A call was made with the call stack full.
    StackOverflow,
    /// A return was made with the call stack empty.
    StackUnderflow,
    /// An instruction named a key that the keypad does not have.
    KeyOutOfRange,
    /// An instruction asked for the sprite of a value that is no hex digit.
    DigitOutOfRange,
    /// The operating system gave no entropy to seed the generator with.
    EntropyUnavailable,
}

} // verus!
