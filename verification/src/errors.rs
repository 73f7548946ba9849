use vstd::prelude::*;

verus! {

/// The closed set of failures that decoding, label resolution, or execution
/// can raise. Every fallible operation of the crate reports one of these
/// instead of panicking.
#[derive(Debug, PartialEq)]
pub enum VMError {
    /// A mnemonic that requires an argument was given none; carries the mnemonic.
    MissingArgument(String),
    /// The argument of `push` is not a decimal numeral in `0..=65535`; carries the text.
    InvalidPushValue(String),
    /// An unrecognized mnemonic; carries the offending text.
    InvalidInstruction(String),
    /// A control-flow instruction refers to a label that was never declared.
    UndefinedLabel(String),
    /// A pop or read from an empty operand stack.
    StackUnderflow,
    /// `div` with a zero divisor.
    DivisionByZero,
    /// `ret` with an empty call stack.
    CallStackUnderflow,
    /// A store would grow memory past its maximum capacity; carries the address.
    MemoryAccessOutOfBounds(usize),
    /// A taken jump or call whose target index lies past the end of the program.
    JumpOutOfBounds(usize),
    /// An unresolved control-flow instruction reached the execution engine;
    /// carries the label name. This signals a resolver defect, not user error.
    UnresolvedInstruction(String),
}

} // verus!
