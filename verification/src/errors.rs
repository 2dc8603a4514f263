//! Failures that the program counter reports to the interpreter.

use vstd::prelude::*;

verus! {

/// Why an operation on the program counter was refused. A refused operation
/// leaves the counter as it was.
#[derive(Clone, Copy, Debug, PartialEq, Eq, Structural)]
pub enum ExecutionError {
    /// The offset read from, or jumped to, lies at or beyond the end of the code.
    PCOverflow,
    /// The jump target lies inside the code but is not a jump destination that
    /// starts an instruction.
    PCBadJumpDest,
    /// The position cannot be advanced by the requested amount within `usize`.
    PCTooLarge,
}

/// Outcome of an operation that may be refused.
pub type ExecutionResult<T> = Result<T, ExecutionError>;

} // verus!
