//! Error taxonomy of the interpreter and the outcome of one cycle.

use vstd::prelude::*;

verus! {

/// Everything that can go wrong while driving the machine.
///
/// Decode failures and stack misuse are fatal to the cycle that raised
/// them but recoverable for the driver: the machine state is left exactly
/// as it was, and the driver decides whether to halt or to go on.
#[derive(Clone, Copy, Debug, PartialEq, Eq, Structural)]
pub enum ErrorKind {
    /// The fetched 16-bit word matches no instruction pattern; carries the
    /// raw opcode.
    InvalidOpcode(u16),
    /// A return instruction ran with an empty call stack.
    StackUnderflow,
    /// A call instruction ran with the call stack already at its 16-entry
    /// bound.
    StackOverflow,
    /// A ROM longer than the 3584 bytes of program memory was offered.
    ProgramTooLarge,
    /// A keypad index outside 0..=15 was offered.
    InvalidKeyIndex,
}

/// What one successfully executed cycle reports back to the driver.
#[derive(Clone, Copy, Debug, PartialEq, Eq, Structural)]
pub struct CycleOutcome {
    /// True when the sound timer stood at exactly 1 before this cycle's
    /// timer tick: the driver should sound a tone for this cycle.
    pub beep: bool,
}

} // verus!
