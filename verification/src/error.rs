use vstd::prelude::*;

verus! {

/// Every way a decode or a run can fail.
///
/// Errors raised while decoding the raw code stream
/// ([`UnknownOpcode`](VmError::UnknownOpcode),
/// [`TruncatedInstruction`](VmError::TruncatedInstruction)) carry the
/// position in that stream at which the offending opcode stands; errors
/// raised while executing carry the program counter at the point of
/// failure. [`InvalidInstruction`](VmError::InvalidInstruction) is a
/// construction-time consistency failure — an argument was present or
/// absent against the operation's arity — and carries no position.
///
/// An error aborts the current run at once; nothing is recovered or
/// retried, and the engine's state is left exactly as it was before the
/// failing instruction.
#[derive(Debug, Clone, Copy, PartialEq, Eq, Structural)]
pub enum VmError {
    /// A raw code outside the valid opcode space was read at stream
    /// position `at`.
    UnknownOpcode { at: usize },
    /// A one-argument opcode at stream position `at` was the last
    /// element of the stream, so its argument is missing.
    TruncatedInstruction { at: usize },
    /// An instruction's argument does not match its operation's arity.
    InvalidInstruction,
    /// An operation at program counter `pc` needed more operand-stack
    /// values than were present.
    StackUnderflow { pc: usize },
    /// A divide or modulo at program counter `pc` found a zero divisor
    /// on top of the stack.
    DivisionByZero { pc: usize },
    /// A recognized but unimplemented operation was dispatched at
    /// program counter `pc`.
    UnsupportedOperation { pc: usize },
}

} // verus!
