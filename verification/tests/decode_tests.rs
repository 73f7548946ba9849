use dessert::{map_op, Instruction, VMError};

#[test]
fn decode_push_value() {
    assert_eq!(map_op(("push", Some("5"))).unwrap(), Instruction::Push(5));
    assert_eq!(map_op(("push", Some("0"))).unwrap(), Instruction::Push(0));
    assert_eq!(
        map_op(("push", Some("65535"))).unwrap(),
        Instruction::Push(65535)
    );
    assert_eq!(map_op(("push", Some("+42"))).unwrap(), Instruction::Push(42));
    assert_eq!(
        map_op(("push", Some("007"))).unwrap(),
        Instruction::Push(7)
    );
}

#[test]
fn decode_push_rejects_bad_values() {
    assert_eq!(
        map_op(("push", Some("65536"))),
        Err(VMError::InvalidPushValue("65536".to_string()))
    );
    assert_eq!(
        map_op(("push", Some("abc"))),
        Err(VMError::InvalidPushValue("abc".to_string()))
    );
    assert_eq!(
        map_op(("push", Some("-1"))),
        Err(VMError::InvalidPushValue("-1".to_string()))
    );
    assert_eq!(
        map_op(("push", Some("+"))),
        Err(VMError::InvalidPushValue("+".to_string()))
    );
    assert_eq!(
        map_op(("push", Some(""))),
        Err(VMError::InvalidPushValue("".to_string()))
    );
    assert_eq!(
        map_op(("push", Some("99999999999999999999"))),
        Err(VMError::InvalidPushValue("99999999999999999999".to_string()))
    );
}

#[test]
fn decode_push_requires_argument() {
    assert_eq!(
        map_op(("push", None)),
        Err(VMError::MissingArgument("push".to_string()))
    );
}

#[test]
fn decode_plain_mnemonics() {
    assert_eq!(map_op(("pop", None)).unwrap(), Instruction::Pop);
    assert_eq!(map_op(("print", None)).unwrap(), Instruction::Print);
    assert_eq!(map_op(("add", None)).unwrap(), Instruction::Add);
    assert_eq!(map_op(("sub", None)).unwrap(), Instruction::Sub);
    assert_eq!(map_op(("mul", None)).unwrap(), Instruction::Mul);
    assert_eq!(map_op(("div", None)).unwrap(), Instruction::Div);
    assert_eq!(map_op(("load", None)).unwrap(), Instruction::Load);
    assert_eq!(map_op(("store", None)).unwrap(), Instruction::Store);
    assert_eq!(map_op(("swap", None)).unwrap(), Instruction::Swap);
    assert_eq!(map_op(("ret", None)).unwrap(), Instruction::Ret);
    assert_eq!(map_op(("halt", None)).unwrap(), Instruction::Halt);
}

#[test]
fn decode_plain_mnemonics_ignore_extra_argument() {
    assert_eq!(map_op(("pop", Some("junk"))).unwrap(), Instruction::Pop);
    assert_eq!(map_op(("halt", Some("now"))).unwrap(), Instruction::Halt);
}

#[test]
fn decode_branch_mnemonics() {
    assert_eq!(
        map_op(("jump", Some("loop"))).unwrap(),
        Instruction::Jump("loop".to_string())
    );
    assert_eq!(
        map_op(("jumpz", Some("end"))).unwrap(),
        Instruction::JumpZ("end".to_string())
    );
    assert_eq!(
        map_op(("jumpnotz", Some("top"))).unwrap(),
        Instruction::JumpNotZ("top".to_string())
    );
    assert_eq!(
        map_op(("call", Some("f"))).unwrap(),
        Instruction::Call("f".to_string())
    );
}

#[test]
fn decode_branch_mnemonics_require_argument() {
    assert_eq!(
        map_op(("jump", None)),
        Err(VMError::MissingArgument("jump".to_string()))
    );
    assert_eq!(
        map_op(("jumpz", None)),
        Err(VMError::MissingArgument("jumpz".to_string()))
    );
    assert_eq!(
        map_op(("jumpnotz", None)),
        Err(VMError::MissingArgument("jumpnotz".to_string()))
    );
    assert_eq!(
        map_op(("call", None)),
        Err(VMError::MissingArgument("call".to_string()))
    );
}

#[test]
fn decode_rejects_unknown_mnemonic() {
    assert_eq!(
        map_op(("nope", None)),
        Err(VMError::InvalidInstruction("nope".to_string()))
    );
    assert_eq!(
        map_op(("PUSH", Some("1"))),
        Err(VMError::InvalidInstruction("PUSH".to_string()))
    );
    assert_eq!(
        map_op(("", None)),
        Err(VMError::InvalidInstruction("".to_string()))
    );
}
