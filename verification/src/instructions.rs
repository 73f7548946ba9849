use vstd::prelude::*;

verus! {

/// One instruction of the virtual machine.
///
/// The `Jump`/`JumpZ`/`JumpNotZ`/`Call` variants carry a label name and exist
/// only between decoding and label resolution; resolution rewrites each into
/// its `...Resolved` counterpart carrying an absolute instruction index. The
/// execution engine treats a surviving unresolved variant as an internal
/// consistency error.
#[derive(Clone, Debug, PartialEq)]
pub enum Instruction {
    // stack operations
    Swap,
    Push(u16),
    Pop,
    Print,
    // arithmetic operations
    Add,
    Sub,
    Mul,
    Div,
    // memory operations
    Load,
    Store,
    // control flow, by label name (assembler-time only)
    Jump(String),
    JumpZ(String),
    JumpNotZ(String),
    Call(String),
    Ret,
    // control flow, by absolute instruction index (after label resolution)
    JumpResolved(usize),
    JumpZResolved(usize),
    JumpNotZResolved(usize),
    CallResolved(usize),
    // program control
    Halt,
    // a label declaration kept as a no-op marker
    Label(String),
}

/// True of the control-flow variants that still refer to a label by name.
pub open spec fn is_unresolved(i: Instruction) -> bool {
    match i {
        Instruction::Jump(_) => true,
        Instruction::JumpZ(_) => true,
        Instruction::JumpNotZ(_) => true,
        Instruction::Call(_) => true,
        _ => false,
    }
}

} // verus!
