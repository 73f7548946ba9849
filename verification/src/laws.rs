//! Laws of the machine, proved once and for all inputs: what a completed
//! `push`/`print` run prints, how `pop` fails on an empty stack, and how the
//! memory answers loads after stores.

use vstd::prelude::*;

use crate::errors::VMError;
use crate::instructions::Instruction;
use crate::machine::{
    crashed, halted, init_state, lemma_run_n_snoc, lemma_terminal_unique, mem_can_store,
    mem_load_spec, mem_store_spec, reaches, run_n, step, wrap16, FailKind, StateSpec,
    StepSpecResult,
};

verus! {

/// The two-instruction program `push v; print`.
pub open spec fn push_print_prog(v: u16) -> Seq<Instruction> {
    seq![Instruction::Push(v), Instruction::Print]
}

/// Law: a completed run of `push v; print` prints exactly `v`, for every
/// value `v`.
pub proof fn lemma_push_print_output(v: u16, s: StateSpec)
    requires
        reaches(push_print_prog(v), init_state(), s),
        halted(push_print_prog(v), s),
    ensures
        s.output == seq![v],
{
    let prog = push_print_prog(v);
    let s0 = init_state();
    lemma_push_print_halts(v);
    let t = choose|t: StateSpec|
        {
            &&& #[trigger] reaches(prog, s0, t)
            &&& halted(prog, t)
            &&& t.output == seq![v]
        };
    let n = choose|n: nat| run_n(prog, s0, n) == Some(s);
    let m = choose|m: nat| run_n(prog, s0, m) == Some(t);
    lemma_terminal_unique(prog, s0, n, m, s, t);
}

/// Law: `push v; print` does complete: some number of steps leads the fresh
/// machine to a halted state whose output is exactly `v`.
pub proof fn lemma_push_print_halts(v: u16)
    ensures
        exists|s: StateSpec|
            {
                &&& #[trigger] reaches(push_print_prog(v), init_state(), s)
                &&& halted(push_print_prog(v), s)
                &&& s.output == seq![v]
            },
{
    let prog = push_print_prog(v);
    let s0 = init_state();
    let s1 = StateSpec { stack: seq![v], pc: 1, ..s0 };
    let s2 = StateSpec { stack: seq![v], pc: 2, output: seq![v], ..s0 };
    assert(prog.len() == 2);
    assert(prog[0] == Instruction::Push(v));
    assert(prog[1] == Instruction::Print);
    assert(s0.stack.push(v) =~= seq![v]);
    assert(step(prog, s0) == StepSpecResult::KeepGoing(s1));
    assert(s1.stack.last() == v);
    assert(s1.output.push(v) =~= seq![v]);
    assert(step(prog, s1) == StepSpecResult::KeepGoing(s2));
    assert(run_n(prog, s0, 0) == Some(s0));
    lemma_run_n_snoc(prog, s0, 0, s0, s1);
    lemma_run_n_snoc(prog, s0, 1, s1, s2);
    assert(run_n(prog, s0, 2) == Some(s2));
    assert(reaches(prog, s0, s2));
    assert(halted(prog, s2));
}

/// Law: `pop` on an empty operand stack fails with a stack underflow, in
/// every state and program; no other error can be reported for it.
pub proof fn lemma_pop_empty_underflows(prog: Seq<Instruction>, s: StateSpec)
    requires
        s.pc < prog.len(),
        prog[s.pc as int] == Instruction::Pop,
        s.stack.len() == 0,
    ensures
        step(prog, s) == StepSpecResult::Failure(FailKind::StackUnderflow),
        forall|e: VMError| #[trigger] crashed(prog, s, e) <==> e == VMError::StackUnderflow,
{
}

/// Law: the binary arithmetic ops take their left operand from below the
/// top of the stack and their right operand from the top, so the value
/// pushed first is consumed as the left one: with `a` pushed before `b`,
/// `add` leaves `a + b` and `sub` leaves `a - b`, each modulo 2^16.
pub proof fn lemma_arith_operand_order(
    prog: Seq<Instruction>,
    s: StateSpec,
    rest: Seq<u16>,
    a: u16,
    b: u16,
)
    requires
        s.pc < prog.len(),
        s.stack == rest.push(a).push(b),
    ensures
        prog[s.pc as int] == Instruction::Add ==> step(prog, s)
            == StepSpecResult::KeepGoing(StateSpec {
            stack: rest.push(wrap16(a + b)),
            pc: (s.pc + 1) as usize,
            ..s
        }),
        prog[s.pc as int] == Instruction::Sub ==> step(prog, s)
            == StepSpecResult::KeepGoing(StateSpec {
            stack: rest.push(wrap16(a - b)),
            pc: (s.pc + 1) as usize,
            ..s
        }),
        prog[s.pc as int] == Instruction::Mul ==> step(prog, s)
            == StepSpecResult::KeepGoing(StateSpec {
            stack: rest.push(wrap16(a * b)),
            pc: (s.pc + 1) as usize,
            ..s
        }),
{
    assert(s.stack.len() == rest.len() + 2);
    assert(s.stack.last() == b);
    assert(s.stack[s.stack.len() - 2] == a);
    assert(s.stack.drop_last() =~= rest.push(a));
    assert(s.stack.drop_last().drop_last() =~= rest);
}

/// Law: `div` with a zero divisor fails with a division-by-zero error, in
/// every state with two operands; no other error is reported for it.
pub proof fn lemma_div_by_zero(prog: Seq<Instruction>, s: StateSpec)
    requires
        s.pc < prog.len(),
        prog[s.pc as int] == Instruction::Div,
        s.stack.len() >= 2,
        s.stack.last() == 0,
    ensures
        step(prog, s) == StepSpecResult::Failure(FailKind::DivisionByZero),
        forall|e: VMError| #[trigger] crashed(prog, s, e) <==> e == VMError::DivisionByZero,
{
}

/// Law: storing a value and loading the same address reads it back, for
/// every memory, address under the capacity, and value.
pub proof fn lemma_store_load_round_trip(m: Seq<u16>, addr: int, v: u16)
    requires
        0 <= addr,
        addr < m.len() || mem_can_store(addr),
    ensures
        mem_load_spec(mem_store_spec(m, addr, v), addr) == v,
{
}

/// Law: a cell that lies past everything stored so far reads zero.
pub proof fn lemma_fresh_cell_reads_zero(m: Seq<u16>, addr: int)
    requires
        m.len() <= addr,
    ensures
        mem_load_spec(m, addr) == 0,
{
}

} // verus!
