//! Basic vocabulary: register indices, labels, instruction addresses, flags.

use vstd::prelude::*;

verus! {

/// Index of a register in the register file.
pub type RegIndex = usize;

/// Name of a jump target.
pub type Label = String;

/// Address of an instruction: its index in the program's instruction sequence.
pub type IP = usize;

/// The comparison flags, read by conditional jumps.
#[derive(Debug, Copy, Clone, PartialEq, Eq, Structural)]
pub struct Flags {
    pub is_zero: bool,
    pub is_sign: bool,
}

impl Flags {
    /// The flags that describe `value`: whether it is zero, whether it is negative.
    pub open spec fn of(value: int) -> Flags {
        Flags { is_zero: value == 0, is_sign: value < 0 }
    }
}

/// Why a run stopped before the instruction pointer left the program.
#[derive(Debug, Copy, Clone, PartialEq, Eq, Structural)]
pub enum FaultKind {
    /// A jump, loop or call was taken to a label that the program never declares.
    UnresolvedLabel,
    /// `pop` or `ret` found the stack empty.
    StackUnderflow,
    /// The divisor of `div` was zero.
    DivisionByZero,
    /// A result, or the return address of a `call`, does not fit a 32-bit signed integer.
    Overflow,
    /// `read` was executed and no input value was supplied.
    NoInput,
}

/// A fault, with the address of the instruction that raised it.
#[derive(Debug, Copy, Clone, PartialEq, Eq, Structural)]
pub struct Fault {
    pub kind: FaultKind,
    pub address: IP,
}

} // verus!
