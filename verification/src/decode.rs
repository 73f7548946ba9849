//! The instruction decoder: one (mnemonic, optional argument) token pair is
//! mapped to a typed [`Instruction`] or to a decode error.

use vstd::prelude::*;

use crate::errors::VMError;
use crate::instructions::Instruction;
use crate::strnum::{is_u16_numeral, parse_u16, str_eq, u16_numeral};

verus! {

/// The mnemonics that take no argument.
pub open spec fn is_plain_mnemonic(op: Seq<char>) -> bool {
    ||| op == "pop"@
    ||| op == "print"@
    ||| op == "add"@
    ||| op == "sub"@
    ||| op == "mul"@
    ||| op == "div"@
    ||| op == "load"@
    ||| op == "store"@
    ||| op == "swap"@
    ||| op == "ret"@
    ||| op == "halt"@
}

/// The mnemonics whose argument is a label name.
pub open spec fn is_branch_mnemonic(op: Seq<char>) -> bool {
    ||| op == "jump"@
    ||| op == "jumpz"@
    ||| op == "jumpnotz"@
    ||| op == "call"@
}

/// Every mnemonic the decoder recognizes.
pub open spec fn is_known_mnemonic(op: Seq<char>) -> bool {
    op == "push"@ || is_plain_mnemonic(op) || is_branch_mnemonic(op)
}

/// True when a (mnemonic, argument) pair decodes successfully: the mnemonic
/// is known, an argument is present where one is required, and the argument
/// of `push` is a decimal numeral in `0..=65535`.
pub open spec fn decodable(op: Seq<char>, arg: Option<Seq<char>>) -> bool {
    if op == "push"@ {
        arg matches Some(a) && is_u16_numeral(a)
    } else if is_plain_mnemonic(op) {
        true
    } else if is_branch_mnemonic(op) {
        arg is Some
    } else {
        false
    }
}

/// Relates a (mnemonic, argument) pair to the instruction it decodes to.
pub open spec fn decoded(op: Seq<char>, arg: Option<Seq<char>>, i: Instruction) -> bool {
    match i {
        Instruction::Push(v) => op == "push"@ && (arg matches Some(a) && is_u16_numeral(a)
            && v as int == u16_numeral(a)),
        Instruction::Pop => op == "pop"@,
        Instruction::Print => op == "print"@,
        Instruction::Add => op == "add"@,
        Instruction::Sub => op == "sub"@,
        Instruction::Mul => op == "mul"@,
        Instruction::Div => op == "div"@,
        Instruction::Load => op == "load"@,
        Instruction::Store => op == "store"@,
        Instruction::Swap => op == "swap"@,
        Instruction::Jump(l) => op == "jump"@ && arg == Some(l@),
        Instruction::JumpZ(l) => op == "jumpz"@ && arg == Some(l@),
        Instruction::JumpNotZ(l) => op == "jumpnotz"@ && arg == Some(l@),
        Instruction::Call(l) => op == "call"@ && arg == Some(l@),
        Instruction::Ret => op == "ret"@,
        Instruction::Halt => op == "halt"@,
        _ => false,
    }
}

/// Relates a (mnemonic, argument) pair to the error its decoding raises.
pub open spec fn decode_fails(op: Seq<char>, arg: Option<Seq<char>>, e: VMError) -> bool {
    match e {
        VMError::MissingArgument(m) => m@ == op && arg is None && (op == "push"@
            || is_branch_mnemonic(op)),
        VMError::InvalidPushValue(t) => op == "push"@ && arg == Some(t@) && !is_u16_numeral(t@),
        VMError::InvalidInstruction(m) => m@ == op && !is_known_mnemonic(op),
        _ => false,
    }
}

/// Decodes one (mnemonic, optional argument) token pair.
///
/// `push` requires a decimal numeral in `0..=65535`; `jump`, `jumpz`,
/// `jumpnotz` and `call` require a label name; the remaining mnemonics take
/// no argument and ignore one if present.
pub fn map_op(s: (&str, Option<&str>)) -> (r: Result<Instruction, VMError>)
    ensures
        match r {
            Ok(i) => decoded(s.0@, view_arg(s.1), i),
            Err(e) => decode_fails(s.0@, view_arg(s.1), e),
        },
        r is Ok <==> decodable(s.0@, view_arg(s.1)),
{
    let op = s.0;
    let arg = s.1;
    if str_eq(op, "push") {
        match arg {
            Some(a) => match parse_u16(a) {
                Some(v) => Ok(Instruction::Push(v)),
                None => Err(VMError::InvalidPushValue(a.to_owned())),
            },
            None => Err(VMError::MissingArgument(op.to_owned())),
        }
    } else if str_eq(op, "pop") {
        Ok(Instruction::Pop)
    } else if str_eq(op, "print") {
        Ok(Instruction::Print)
    } else if str_eq(op, "add") {
        Ok(Instruction::Add)
    } else if str_eq(op, "sub") {
        Ok(Instruction::Sub)
    } else if str_eq(op, "mul") {
        Ok(Instruction::Mul)
    } else if str_eq(op, "div") {
        Ok(Instruction::Div)
    } else if str_eq(op, "load") {
        Ok(Instruction::Load)
    } else if str_eq(op, "store") {
        Ok(Instruction::Store)
    } else if str_eq(op, "swap") {
        Ok(Instruction::Swap)
    } else if str_eq(op, "ret") {
        Ok(Instruction::Ret)
    } else if str_eq(op, "halt") {
        Ok(Instruction::Halt)
    } else if str_eq(op, "jump") {
        match arg {
            Some(a) => Ok(Instruction::Jump(a.to_owned())),
            None => Err(VMError::MissingArgument(op.to_owned())),
        }
    } else if str_eq(op, "jumpz") {
        match arg {
            Some(a) => Ok(Instruction::JumpZ(a.to_owned())),
            None => Err(VMError::MissingArgument(op.to_owned())),
        }
    } else if str_eq(op, "jumpnotz") {
        match arg {
            Some(a) => Ok(Instruction::JumpNotZ(a.to_owned())),
            None => Err(VMError::MissingArgument(op.to_owned())),
        }
    } else if str_eq(op, "call") {
        match arg {
            Some(a) => Ok(Instruction::Call(a.to_owned())),
            None => Err(VMError::MissingArgument(op.to_owned())),
        }
    } else {
        Err(VMError::InvalidInstruction(op.to_owned()))
    }
}

/// The view of an optional `&str` argument.
pub open spec fn view_arg(a: Option<&str>) -> Option<Seq<char>> {
    match a {
        Some(t) => Some(t@),
        None => None,
    }
}

} // verus!
