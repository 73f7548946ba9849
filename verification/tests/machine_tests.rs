use dessert::{
    build_program, mem_read, mem_write, run_vm, Instruction, Machine, RunStatus, VMError,
    MAX_MEMORY_SIZE,
};

const FUEL: usize = 10000;

fn line(op: &str, arg: Option<&str>) -> (String, Option<String>) {
    (op.to_string(), arg.map(|a| a.to_string()))
}

#[test]
fn push_print_outputs_the_value() {
    for v in [0u16, 1, 7, 12345, 65535] {
        let (out, status) = run_vm(vec![Instruction::Push(v), Instruction::Print], FUEL);
        assert_eq!(status, RunStatus::Halted);
        assert_eq!(out, vec![v]);
    }
}

#[test]
fn add_pops_right_operand_first() {
    let (out, status) = run_vm(
        vec![
            Instruction::Push(3),
            Instruction::Push(4),
            Instruction::Add,
            Instruction::Print,
        ],
        FUEL,
    );
    assert_eq!(status, RunStatus::Halted);
    assert_eq!(out, vec![7]);
}

#[test]
fn sub_takes_left_operand_from_below() {
    let (out, status) = run_vm(
        vec![
            Instruction::Push(9),
            Instruction::Push(4),
            Instruction::Sub,
            Instruction::Print,
        ],
        FUEL,
    );
    assert_eq!(status, RunStatus::Halted);
    assert_eq!(out, vec![5]);
}

#[test]
fn arithmetic_wraps_modulo_two_to_the_sixteen() {
    let (out, _) = run_vm(
        vec![
            Instruction::Push(65535),
            Instruction::Push(1),
            Instruction::Add,
            Instruction::Print,
        ],
        FUEL,
    );
    assert_eq!(out, vec![0]);
    let (out, _) = run_vm(
        vec![
            Instruction::Push(0),
            Instruction::Push(1),
            Instruction::Sub,
            Instruction::Print,
        ],
        FUEL,
    );
    assert_eq!(out, vec![65535]);
    let (out, _) = run_vm(
        vec![
            Instruction::Push(256),
            Instruction::Push(256),
            Instruction::Mul,
            Instruction::Print,
        ],
        FUEL,
    );
    assert_eq!(out, vec![0]);
}

#[test]
fn div_truncates() {
    let (out, status) = run_vm(
        vec![
            Instruction::Push(7),
            Instruction::Push(2),
            Instruction::Div,
            Instruction::Print,
        ],
        FUEL,
    );
    assert_eq!(status, RunStatus::Halted);
    assert_eq!(out, vec![3]);
}

#[test]
fn div_by_zero_fails_with_no_output() {
    let (out, status) = run_vm(
        vec![
            Instruction::Push(5),
            Instruction::Push(0),
            Instruction::Div,
            Instruction::Print,
        ],
        FUEL,
    );
    assert_eq!(status, RunStatus::Crashed(VMError::DivisionByZero));
    assert_eq!(out, Vec::<u16>::new());
}

#[test]
fn pop_on_empty_stack_underflows() {
    let (out, status) = run_vm(vec![Instruction::Pop], FUEL);
    assert_eq!(status, RunStatus::Crashed(VMError::StackUnderflow));
    assert_eq!(out, Vec::<u16>::new());
}

#[test]
fn print_on_empty_stack_underflows() {
    let (_, status) = run_vm(vec![Instruction::Print], FUEL);
    assert_eq!(status, RunStatus::Crashed(VMError::StackUnderflow));
}

#[test]
fn swap_exchanges_top_two() {
    let (out, status) = run_vm(
        vec![
            Instruction::Push(1),
            Instruction::Push(2),
            Instruction::Swap,
            Instruction::Print,
        ],
        FUEL,
    );
    assert_eq!(status, RunStatus::Halted);
    assert_eq!(out, vec![1]);
}

#[test]
fn swap_with_one_value_underflows() {
    let (_, status) = run_vm(vec![Instruction::Push(1), Instruction::Swap], FUEL);
    assert_eq!(status, RunStatus::Crashed(VMError::StackUnderflow));
}

#[test]
fn store_then_load_round_trips() {
    let (out, status) = run_vm(
        vec![
            Instruction::Push(10),
            Instruction::Push(0),
            Instruction::Store,
            Instruction::Push(0),
            Instruction::Load,
            Instruction::Print,
        ],
        FUEL,
    );
    assert_eq!(status, RunStatus::Halted);
    assert_eq!(out, vec![10]);
}

#[test]
fn load_of_unwritten_cell_reads_zero() {
    let (out, status) = run_vm(
        vec![Instruction::Push(0), Instruction::Load, Instruction::Print],
        FUEL,
    );
    assert_eq!(status, RunStatus::Halted);
    assert_eq!(out, vec![0]);
}

#[test]
fn store_with_one_value_underflows() {
    let (_, status) = run_vm(vec![Instruction::Push(1), Instruction::Store], FUEL);
    assert_eq!(status, RunStatus::Crashed(VMError::StackUnderflow));
}

#[test]
fn memory_grows_with_zero_fill_up_to_the_address() {
    let mut memory: Vec<u16> = Vec::new();
    assert_eq!(mem_write(&mut memory, 4, 99), Ok(()));
    assert_eq!(memory, vec![0, 0, 0, 0, 99]);
    assert_eq!(mem_read(&memory, 4), 99);
    assert_eq!(mem_read(&memory, 2), 0);
    assert_eq!(mem_read(&memory, 100), 0);
}

#[test]
fn store_at_capacity_is_out_of_bounds() {
    let mut memory: Vec<u16> = Vec::new();
    assert_eq!(
        mem_write(&mut memory, MAX_MEMORY_SIZE, 1),
        Err(VMError::MemoryAccessOutOfBounds(MAX_MEMORY_SIZE))
    );
    assert_eq!(
        mem_write(&mut memory, 5000000, 1),
        Err(VMError::MemoryAccessOutOfBounds(5000000))
    );
    assert!(memory.is_empty());
    // the last cell under the capacity is still writable
    assert_eq!(mem_write(&mut memory, MAX_MEMORY_SIZE - 1, 7), Ok(()));
    assert_eq!(mem_read(&memory, MAX_MEMORY_SIZE - 1), 7);
}

#[test]
fn jumpz_taken_and_untaken() {
    let prog = |cond: u16| {
        vec![
            Instruction::Push(cond),
            Instruction::JumpZResolved(4),
            Instruction::Push(1),
            Instruction::Print,
            Instruction::Push(2),
            Instruction::Print,
        ]
    };
    let (out, _) = run_vm(prog(0), FUEL);
    assert_eq!(out, vec![2]);
    let (out, _) = run_vm(prog(1), FUEL);
    assert_eq!(out, vec![1, 2]);
}

#[test]
fn jump_target_past_the_program_fails() {
    let (_, status) = run_vm(vec![Instruction::JumpResolved(5)], FUEL);
    assert_eq!(status, RunStatus::Crashed(VMError::JumpOutOfBounds(5)));
}

#[test]
fn ret_on_empty_call_stack_underflows() {
    let (_, status) = run_vm(vec![Instruction::Ret], FUEL);
    assert_eq!(status, RunStatus::Crashed(VMError::CallStackUnderflow));
}

#[test]
fn halt_stops_before_later_instructions() {
    let (out, status) = run_vm(
        vec![
            Instruction::Push(1),
            Instruction::Print,
            Instruction::Halt,
            Instruction::Push(2),
            Instruction::Print,
        ],
        FUEL,
    );
    assert_eq!(status, RunStatus::Halted);
    assert_eq!(out, vec![1]);
}

#[test]
fn unresolved_instruction_is_an_internal_error() {
    let (_, status) = run_vm(vec![Instruction::Jump("x".to_string())], FUEL);
    assert_eq!(
        status,
        RunStatus::Crashed(VMError::UnresolvedInstruction("x".to_string()))
    );
}

#[test]
fn label_marker_is_a_no_op() {
    let (out, status) = run_vm(
        vec![
            Instruction::Label("here".to_string()),
            Instruction::Push(4),
            Instruction::Print,
        ],
        FUEL,
    );
    assert_eq!(status, RunStatus::Halted);
    assert_eq!(out, vec![4]);
}

#[test]
fn run_out_of_fuel_and_resume() {
    // a tight loop never halts: each budget runs out, and the machine
    // continues from where it paused
    let prog = vec![Instruction::JumpResolved(0)];
    let mut m = Machine::new();
    assert_eq!(m.run(&prog, 3), RunStatus::OutOfFuel);
    assert_eq!(m.run(&prog, 5), RunStatus::OutOfFuel);
    // a halting program finishes once given enough fuel
    let prog2 = vec![Instruction::Push(8), Instruction::Print];
    let mut m2 = Machine::new();
    assert_eq!(m2.run(&prog2, FUEL), RunStatus::Halted);
    assert_eq!(m2.output, vec![8]);
}

#[test]
fn forward_call_returns_to_instruction_after_the_call() {
    let lines = vec![
        line("call", Some("target")),
        line("push", Some("1")),
        line("print", None),
        line("halt", None),
        line("target:", None),
        line("push", Some("2")),
        line("print", None),
        line("ret", None),
    ];
    let prog = build_program(&lines).unwrap();
    let (out, status) = run_vm(prog, FUEL);
    assert_eq!(status, RunStatus::Halted);
    // the callee prints first, then control returns to the line after the call
    assert_eq!(out, vec![2, 1]);
}

#[test]
fn assembled_countdown_loop() {
    // the counter lives in memory cell 0, since the conditional jump
    // consumes the value it tests
    let lines = vec![
        line("push", Some("3")),
        line("push", Some("0")),
        line("store", None),
        line("loop:", None),
        line("push", Some("0")),
        line("load", None),
        line("print", None),
        line("push", Some("1")),
        line("sub", None),
        line("push", Some("0")),
        line("store", None),
        line("push", Some("0")),
        line("load", None),
        line("jumpnotz", Some("loop")),
        line("halt", None),
    ];
    let prog = build_program(&lines).unwrap();
    let (out, status) = run_vm(prog, FUEL);
    assert_eq!(status, RunStatus::Halted);
    assert_eq!(out, vec![3, 2, 1]);
}
