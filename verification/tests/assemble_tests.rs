use dessert::labels::LabelTable;
use dessert::{build_program, first_pass, resolve, Instruction, VMError};

fn line(op: &str, arg: Option<&str>) -> (String, Option<String>) {
    (op.to_string(), arg.map(|a| a.to_string()))
}

#[test]
fn label_table_lookup() {
    let mut t = LabelTable::new();
    assert_eq!(t.lookup("a"), None);
    t.insert("a".to_string(), 3);
    t.insert("b".to_string(), 7);
    assert_eq!(t.lookup("a"), Some(3));
    assert_eq!(t.lookup("b"), Some(7));
    assert_eq!(t.lookup("c"), None);
}

#[test]
fn label_table_later_declaration_wins() {
    let mut t = LabelTable::new();
    t.insert("a".to_string(), 1);
    t.insert("a".to_string(), 9);
    assert_eq!(t.lookup("a"), Some(9));
}

#[test]
fn first_pass_records_labels_without_counting_them() {
    let lines = vec![
        line("push", Some("1")),
        line("top:", None),
        line("push", Some("2")),
        line("end:", None),
        line("halt", None),
    ];
    let (raw, table) = first_pass(&lines).unwrap();
    assert_eq!(
        raw,
        vec![
            Instruction::Push(1),
            Instruction::Push(2),
            Instruction::Halt
        ]
    );
    assert_eq!(table.lookup("top"), Some(1));
    assert_eq!(table.lookup("end"), Some(2));
}

#[test]
fn first_pass_reports_first_bad_line() {
    let lines = vec![
        line("push", Some("1")),
        line("frobnicate", None),
        line("push", None),
    ];
    assert_eq!(
        first_pass(&lines),
        Err(VMError::InvalidInstruction("frobnicate".to_string()))
    );
}

#[test]
fn first_pass_token_with_second_word_is_not_a_label() {
    // "x:" followed by another token is decoded, not treated as a label
    let lines = vec![line("x:", Some("y"))];
    assert_eq!(
        first_pass(&lines),
        Err(VMError::InvalidInstruction("x:".to_string()))
    );
}

#[test]
fn resolve_rewrites_label_references() {
    let mut table = LabelTable::new();
    table.insert("top".to_string(), 0);
    table.insert("end".to_string(), 4);
    let raw = vec![
        Instruction::Push(1),
        Instruction::JumpZ("end".to_string()),
        Instruction::Call("top".to_string()),
        Instruction::Jump("top".to_string()),
        Instruction::Halt,
    ];
    let out = resolve(&raw, &table).unwrap();
    assert_eq!(
        out,
        vec![
            Instruction::Push(1),
            Instruction::JumpZResolved(4),
            Instruction::CallResolved(0),
            Instruction::JumpResolved(0),
            Instruction::Halt,
        ]
    );
}

#[test]
fn resolve_fails_on_undeclared_label() {
    let table = LabelTable::new();
    let raw = vec![Instruction::Jump("nowhere".to_string())];
    assert_eq!(
        resolve(&raw, &table),
        Err(VMError::UndefinedLabel("nowhere".to_string()))
    );
}

#[test]
fn build_program_resolves_forward_reference() {
    // the call site precedes the label declaration
    let lines = vec![
        line("call", Some("target")),
        line("halt", None),
        line("target:", None),
        line("push", Some("9")),
        line("ret", None),
    ];
    let prog = build_program(&lines).unwrap();
    assert_eq!(
        prog,
        vec![
            Instruction::CallResolved(2),
            Instruction::Halt,
            Instruction::Push(9),
            Instruction::Ret,
        ]
    );
}

#[test]
fn build_program_fails_before_execution_on_undeclared_label() {
    let lines = vec![line("jump", Some("nowhere")), line("halt", None)];
    assert_eq!(
        build_program(&lines),
        Err(VMError::UndefinedLabel("nowhere".to_string()))
    );
}

#[test]
fn build_program_duplicate_label_uses_later_declaration() {
    let lines = vec![
        line("a:", None),
        line("push", Some("1")),
        line("a:", None),
        line("jump", Some("a")),
    ];
    let prog = build_program(&lines).unwrap();
    assert_eq!(
        prog,
        vec![Instruction::Push(1), Instruction::JumpResolved(1)]
    );
}

#[test]
fn build_program_empty_source() {
    let lines: Vec<(String, Option<String>)> = vec![];
    assert_eq!(build_program(&lines).unwrap(), vec![]);
}

#[test]
fn jump_to_label_at_end_of_program_targets_past_the_end() {
    // a label declared after the last instruction resolves to the index one
    // past the end; taking that jump is an out-of-bounds failure at run time
    let lines = vec![line("jump", Some("end")), line("end:", None)];
    let prog = build_program(&lines).unwrap();
    assert_eq!(prog, vec![Instruction::JumpResolved(1)]);
    let (_, status) = dessert::run_vm(prog, 100);
    assert_eq!(
        status,
        dessert::RunStatus::Crashed(VMError::JumpOutOfBounds(1))
    );
}
