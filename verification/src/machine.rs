//! The execution engine: a fetch-decode-execute loop over a resolved
//! instruction sequence, driving an explicitly-owned machine state.
//!
//! The meaning of one step is given by the specification function [`step`];
//! the executable engine is proved to follow it exactly. `print` appends the
//! printed value to an output sequence instead of writing to a device, so
//! that the whole run is a function from program to output.

use vstd::prelude::*;

use crate::errors::VMError;
use crate::instructions::Instruction;

verus! {

/// The maximum number of memory cells a program may occupy.
pub const MAX_MEMORY_SIZE: usize = 1000000;

/// The mathematical state of the machine: operand stack, memory, program
/// counter, call stack, and everything printed so far.
#[verifier::ext_equal]
pub ghost struct StateSpec {
    pub stack: Seq<u16>,
    pub memory: Seq<u16>,
    pub pc: usize,
    pub call_stack: Seq<usize>,
    pub output: Seq<u16>,
}

/// The state a run starts from: everything empty, the program counter at 0.
pub open spec fn init_state() -> StateSpec {
    StateSpec { stack: Seq::empty(), memory: Seq::empty(), pc: 0, call_stack: Seq::empty(), output: Seq::empty() }
}

/// The ways one step can fail.
pub ghost enum FailKind {
    StackUnderflow,
    DivisionByZero,
    CallStackUnderflow,
    MemoryOut(usize),
    JumpOut(usize),
    Unresolved(Seq<char>),
}

/// The outcome of one step: a successor state, a successful halt, or a failure.
pub ghost enum StepSpecResult {
    KeepGoing(StateSpec),
    Stopped,
    Failure(FailKind),
}

/// Relates a failure kind to the error the engine reports for it.
pub open spec fn fail_matches(k: FailKind, e: VMError) -> bool {
    match (k, e) {
        (FailKind::StackUnderflow, VMError::StackUnderflow) => true,
        (FailKind::DivisionByZero, VMError::DivisionByZero) => true,
        (FailKind::CallStackUnderflow, VMError::CallStackUnderflow) => true,
        (FailKind::MemoryOut(a), VMError::MemoryAccessOutOfBounds(b)) => a == b,
        (FailKind::JumpOut(a), VMError::JumpOutOfBounds(b)) => a == b,
        (FailKind::Unresolved(l), VMError::UnresolvedInstruction(m)) => m@ == l,
        _ => false,
    }
}

/// A value reduced modulo 2^16, the wraparound rule of the arithmetic ops.
pub open spec fn wrap16(x: int) -> u16 {
    (x % 65536) as u16
}

/// The value read from memory: a cell past the current length reads as 0.
pub open spec fn mem_load_spec(m: Seq<u16>, addr: int) -> u16 {
    if 0 <= addr < m.len() {
        m[addr]
    } else {
        0
    }
}

/// Whether a store at `addr` fits under the memory capacity.
pub open spec fn mem_can_store(addr: int) -> bool {
    addr + 1 <= MAX_MEMORY_SIZE
}

/// Memory after a store: grown with zero-filled cells if `addr` lies past
/// the current length, then updated at `addr`.
pub open spec fn mem_store_spec(m: Seq<u16>, addr: int, v: u16) -> Seq<u16>
    recommends
        0 <= addr,
        addr < m.len() || mem_can_store(addr),
{
    if addr < m.len() {
        m.update(addr, v)
    } else {
        (m + Seq::new((addr + 1 - m.len()) as nat, |i: int| 0u16)).update(addr, v)
    }
}

/// The meaning of executing the instruction at `s.pc`.
pub open spec fn step(prog: Seq<Instruction>, s: StateSpec) -> StepSpecResult
    recommends
        s.pc < prog.len(),
{
    match prog[s.pc as int] {
        Instruction::Swap => {
            if s.stack.len() < 2 {
                StepSpecResult::Failure(FailKind::StackUnderflow)
            } else {
                StepSpecResult::KeepGoing(StateSpec {
                    stack: s.stack.drop_last().drop_last().push(s.stack.last()).push(
                        s.stack[s.stack.len() - 2],
                    ),
                    pc: (s.pc + 1) as usize,
                    ..s
                })
            }
        },
        Instruction::Push(v) => StepSpecResult::KeepGoing(StateSpec {
            stack: s.stack.push(v),
            pc: (s.pc + 1) as usize,
            ..s
        }),
        Instruction::Pop => {
            if s.stack.len() < 1 {
                StepSpecResult::Failure(FailKind::StackUnderflow)
            } else {
                StepSpecResult::KeepGoing(StateSpec {
                    stack: s.stack.drop_last(),
                    pc: (s.pc + 1) as usize,
                    ..s
                })
            }
        },
        Instruction::Print => {
            if s.stack.len() < 1 {
                StepSpecResult::Failure(FailKind::StackUnderflow)
            } else {
                StepSpecResult::KeepGoing(StateSpec {
                    output: s.output.push(s.stack.last()),
                    pc: (s.pc + 1) as usize,
                    ..s
                })
            }
        },
        Instruction::Add => step_arith(s, (s.stack[s.stack.len() - 2] + s.stack.last()) as int),
        Instruction::Sub => step_arith(s, s.stack[s.stack.len() - 2] - s.stack.last()),
        Instruction::Mul => step_arith(s, (s.stack[s.stack.len() - 2] * s.stack.last()) as int),
        Instruction::Div => {
            if s.stack.len() < 2 {
                StepSpecResult::Failure(FailKind::StackUnderflow)
            } else if s.stack.last() == 0 {
                StepSpecResult::Failure(FailKind::DivisionByZero)
            } else {
                StepSpecResult::KeepGoing(StateSpec {
                    stack: s.stack.drop_last().drop_last().push(
                        (s.stack[s.stack.len() - 2] / s.stack.last()) as u16,
                    ),
                    pc: (s.pc + 1) as usize,
                    ..s
                })
            }
        },
        Instruction::Load => {
            if s.stack.len() < 1 {
                StepSpecResult::Failure(FailKind::StackUnderflow)
            } else {
                StepSpecResult::KeepGoing(StateSpec {
                    stack: s.stack.drop_last().push(
                        mem_load_spec(s.memory, s.stack.last() as int),
                    ),
                    pc: (s.pc + 1) as usize,
                    ..s
                })
            }
        },
        Instruction::Store => {
            if s.stack.len() < 2 {
                StepSpecResult::Failure(FailKind::StackUnderflow)
            } else if !mem_can_store(s.stack.last() as int) {
                StepSpecResult::Failure(FailKind::MemoryOut(s.stack.last() as usize))
            } else {
                StepSpecResult::KeepGoing(StateSpec {
                    stack: s.stack.drop_last().drop_last(),
                    memory: mem_store_spec(
                        s.memory,
                        s.stack.last() as int,
                        s.stack[s.stack.len() - 2],
                    ),
                    pc: (s.pc + 1) as usize,
                    ..s
                })
            }
        },
        Instruction::JumpResolved(a) => {
            if a >= prog.len() {
                StepSpecResult::Failure(FailKind::JumpOut(a))
            } else {
                StepSpecResult::KeepGoing(StateSpec { pc: a, ..s })
            }
        },
        Instruction::JumpZResolved(a) => {
            if s.stack.len() < 1 {
                StepSpecResult::Failure(FailKind::StackUnderflow)
            } else if s.stack.last() == 0 {
                if a >= prog.len() {
                    StepSpecResult::Failure(FailKind::JumpOut(a))
                } else {
                    StepSpecResult::KeepGoing(StateSpec { stack: s.stack.drop_last(), pc: a, ..s })
                }
            } else {
                StepSpecResult::KeepGoing(StateSpec {
                    stack: s.stack.drop_last(),
                    pc: (s.pc + 1) as usize,
                    ..s
                })
            }
        },
        Instruction::JumpNotZResolved(a) => {
            if s.stack.len() < 1 {
                StepSpecResult::Failure(FailKind::StackUnderflow)
            } else if s.stack.last() != 0 {
                if a >= prog.len() {
                    StepSpecResult::Failure(FailKind::JumpOut(a))
                } else {
                    StepSpecResult::KeepGoing(StateSpec { stack: s.stack.drop_last(), pc: a, ..s })
                }
            } else {
                StepSpecResult::KeepGoing(StateSpec {
                    stack: s.stack.drop_last(),
                    pc: (s.pc + 1) as usize,
                    ..s
                })
            }
        },
        Instruction::CallResolved(a) => {
            if a >= prog.len() {
                StepSpecResult::Failure(FailKind::JumpOut(a))
            } else {
                StepSpecResult::KeepGoing(StateSpec {
                    call_stack: s.call_stack.push((s.pc + 1) as usize),
                    pc: a,
                    ..s
                })
            }
        },
        Instruction::Ret => {
            if s.call_stack.len() < 1 {
                StepSpecResult::Failure(FailKind::CallStackUnderflow)
            } else {
                StepSpecResult::KeepGoing(StateSpec {
                    call_stack: s.call_stack.drop_last(),
                    pc: s.call_stack.last(),
                    ..s
                })
            }
        },
        Instruction::Halt => StepSpecResult::Stopped,
        Instruction::Label(_) => StepSpecResult::KeepGoing(StateSpec {
            pc: (s.pc + 1) as usize,
            ..s
        }),
        Instruction::Jump(l) => StepSpecResult::Failure(FailKind::Unresolved(l@)),
        Instruction::JumpZ(l) => StepSpecResult::Failure(FailKind::Unresolved(l@)),
        Instruction::JumpNotZ(l) => StepSpecResult::Failure(FailKind::Unresolved(l@)),
        Instruction::Call(l) => StepSpecResult::Failure(FailKind::Unresolved(l@)),
    }
}

/// The shared shape of the wraparound binary arithmetic steps: both operands
/// leave the stack and `x` modulo 2^16 replaces them.
pub open spec fn step_arith(s: StateSpec, x: int) -> StepSpecResult {
    if s.stack.len() < 2 {
        StepSpecResult::Failure(FailKind::StackUnderflow)
    } else {
        StepSpecResult::KeepGoing(StateSpec {
            stack: s.stack.drop_last().drop_last().push(wrap16(x)),
            pc: (s.pc + 1) as usize,
            ..s
        })
    }
}

/// One machine, exclusively owned by a run: operand stack, memory, program
/// counter, call stack, and the values printed so far.
pub struct Machine {
    pub stack: Vec<u16>,
    pub memory: Vec<u16>,
    pub pc: usize,
    pub call_stack: Vec<usize>,
    pub output: Vec<u16>,
}

impl View for Machine {
    type V = StateSpec;

    open spec fn view(&self) -> StateSpec {
        StateSpec {
            stack: self.stack@,
            memory: self.memory@,
            pc: self.pc,
            call_stack: self.call_stack@,
            output: self.output@,
        }
    }
}

/// The observable outcome of one executed step.
#[derive(Debug, PartialEq)]
pub enum StepOutcome {
    KeepRunning,
    Finished,
    Crashed(VMError),
}

/// Reads the memory cell at `addr`; a cell past the current length reads 0.
pub fn mem_read(memory: &Vec<u16>, addr: usize) -> (v: u16)
    ensures
        v == mem_load_spec(memory@, addr as int),
{
    if addr < memory.len() {
        memory[addr]
    } else {
        0
    }
}

/// Writes `v` at `addr`, growing the memory with zero-filled cells up to the
/// capacity; an address at or past the capacity is rejected unchanged.
pub fn mem_write(memory: &mut Vec<u16>, addr: usize, v: u16) -> (r: Result<(), VMError>)
    ensures
        match r {
            Ok(()) => (addr < old(memory)@.len() || mem_can_store(addr as int)) && final(memory)@
                == mem_store_spec(old(memory)@, addr as int, v),
            Err(e) => {
                &&& addr >= old(memory)@.len()
                &&& !mem_can_store(addr as int)
                &&& e == VMError::MemoryAccessOutOfBounds(addr)
                &&& final(memory)@ == old(memory)@
            },
        },
{
    if addr >= memory.len() {
        if addr >= MAX_MEMORY_SIZE {
            return Err(VMError::MemoryAccessOutOfBounds(addr));
        }
        let ghost before = memory@;
        while memory.len() < addr + 1
            invariant
                before.len() <= memory@.len() <= addr + 1,
                addr + 1 <= MAX_MEMORY_SIZE,
                memory@ =~= before + Seq::new((memory@.len() - before.len()) as nat, |i: int| 0u16),
            decreases addr + 1 - memory@.len(),
        {
            memory.push(0);
        }
        proof {
            assert(memory@ =~= before + Seq::new((addr + 1 - before.len()) as nat, |i: int| 0u16));
        }
    }
    memory[addr] = v;
    proof {
        assert(memory@ =~= mem_store_spec(old(memory)@, addr as int, v));
    }
    Ok(())
}

/// The sum modulo 2^16.
fn wrap_add16(a: u16, b: u16) -> (r: u16)
    ensures
        r == wrap16(a + b),
{
    (((a as u32) + (b as u32)) % 65536) as u16
}

/// The difference modulo 2^16.
fn wrap_sub16(a: u16, b: u16) -> (r: u16)
    ensures
        r == wrap16(a - b),
{
    proof {
        vstd::arithmetic::div_mod::lemma_mod_multiples_vanish(1, a - b, 65536);
    }
    ((65536u32 + (a as u32) - (b as u32)) % 65536) as u16
}

/// The product modulo 2^16.
fn wrap_mul16(a: u16, b: u16) -> (r: u16)
    ensures
        r == wrap16(a * b),
{
    proof {
        assert((a as int) * (b as int) <= 65535 * 65535) by (nonlinear_arith)
            requires
                a <= 65535,
                b <= 65535,
        ;
    }
    (((a as u32) * (b as u32)) % 65536) as u16
}

impl Machine {
    /// A fresh machine in the initial state.
    pub fn new() -> (m: Machine)
        ensures
            m@ == init_state(),
    {
        let m = Machine {
            stack: Vec::new(),
            memory: Vec::new(),
            pc: 0,
            call_stack: Vec::new(),
            output: Vec::new(),
        };
        proof {
            assert(m@ =~= init_state());
        }
        m
    }

    /// Executes the instruction at the current program counter, exactly as
    /// [`step`] describes: on a successor state the machine takes it, and on
    /// a halt or a failure the machine is left unchanged.
    pub fn step_once(&mut self, prog: &Vec<Instruction>) -> (r: StepOutcome)
        requires
            old(self)@.pc < prog@.len(),
        ensures
            match step(prog@, old(self)@) {
                StepSpecResult::KeepGoing(s2) => r is KeepRunning && final(self)@ == s2,
                StepSpecResult::Stopped => r is Finished && final(self)@ == old(self)@,
                StepSpecResult::Failure(k) => (r matches StepOutcome::Crashed(e) && fail_matches(
                    k,
                    e,
                )) && final(self)@ == old(self)@,
            },
    {
        let ghost pre = self@;
        // the executable length bounds the view's length by usize, so the
        // program-counter increments below cannot overflow
        let bound = prog.len();
        proof {
            assert(pre.pc < bound);
        }
        match &prog[self.pc] {
            Instruction::Swap => {
                if self.stack.len() < 2 {
                    return StepOutcome::Crashed(VMError::StackUnderflow);
                }
                let a = self.stack.pop().unwrap();
                let b = self.stack.pop().unwrap();
                self.stack.push(a);
                self.stack.push(b);
                self.pc = self.pc + 1;
                proof {
                    assert(self@ =~= (match step(prog@, pre) {
                        StepSpecResult::KeepGoing(s2) => s2,
                        _ => pre,
                    }));
                }
                StepOutcome::KeepRunning
            },
            Instruction::Push(v) => {
                self.stack.push(*v);
                self.pc = self.pc + 1;
                proof {
                    assert(self@ =~= (match step(prog@, pre) {
                        StepSpecResult::KeepGoing(s2) => s2,
                        _ => pre,
                    }));
                }
                StepOutcome::KeepRunning
            },
            Instruction::Pop => {
                if self.stack.len() < 1 {
                    return StepOutcome::Crashed(VMError::StackUnderflow);
                }
                self.stack.pop().unwrap();
                self.pc = self.pc + 1;
                proof {
                    assert(self@ =~= (match step(prog@, pre) {
                        StepSpecResult::KeepGoing(s2) => s2,
                        _ => pre,
                    }));
                }
                StepOutcome::KeepRunning
            },
            Instruction::Print => {
                if self.stack.len() < 1 {
                    return StepOutcome::Crashed(VMError::StackUnderflow);
                }
                let top = self.stack[self.stack.len() - 1];
                self.output.push(top);
                self.pc = self.pc + 1;
                proof {
                    assert(pre.stack.last() == top);
                    assert(self@ =~= (match step(prog@, pre) {
                        StepSpecResult::KeepGoing(s2) => s2,
                        _ => pre,
                    }));
                }
                StepOutcome::KeepRunning
            },
            Instruction::Add => {
                if self.stack.len() < 2 {
                    return StepOutcome::Crashed(VMError::StackUnderflow);
                }
                let b = self.stack.pop().unwrap();
                let a = self.stack.pop().unwrap();
                self.stack.push(wrap_add16(a, b));
                self.pc = self.pc + 1;
                proof {
                    assert(self@ =~= (match step(prog@, pre) {
                        StepSpecResult::KeepGoing(s2) => s2,
                        _ => pre,
                    }));
                }
                StepOutcome::KeepRunning
            },
            Instruction::Sub => {
                if self.stack.len() < 2 {
                    return StepOutcome::Crashed(VMError::StackUnderflow);
                }
                let b = self.stack.pop().unwrap();
                let a = self.stack.pop().unwrap();
                self.stack.push(wrap_sub16(a, b));
                self.pc = self.pc + 1;
                proof {
                    assert(self@ =~= (match step(prog@, pre) {
                        StepSpecResult::KeepGoing(s2) => s2,
                        _ => pre,
                    }));
                }
                StepOutcome::KeepRunning
            },
            Instruction::Mul => {
                if self.stack.len() < 2 {
                    return StepOutcome::Crashed(VMError::StackUnderflow);
                }
                let b = self.stack.pop().unwrap();
                let a = self.stack.pop().unwrap();
                self.stack.push(wrap_mul16(a, b));
                self.pc = self.pc + 1;
                proof {
                    assert(self@ =~= (match step(prog@, pre) {
                        StepSpecResult::KeepGoing(s2) => s2,
                        _ => pre,
                    }));
                }
                StepOutcome::KeepRunning
            },
            Instruction::Div => {
                if self.stack.len() < 2 {
                    return StepOutcome::Crashed(VMError::StackUnderflow);
                }
                let b = self.stack[self.stack.len() - 1];
                if b == 0 {
                    return StepOutcome::Crashed(VMError::DivisionByZero);
                }
                self.stack.pop().unwrap();
                let a = self.stack.pop().unwrap();
                self.stack.push(a / b);
                self.pc = self.pc + 1;
                proof {
                    assert(self@ =~= (match step(prog@, pre) {
                        StepSpecResult::KeepGoing(s2) => s2,
                        _ => pre,
                    }));
                }
                StepOutcome::KeepRunning
            },
            Instruction::Load => {
                if self.stack.len() < 1 {
                    return StepOutcome::Crashed(VMError::StackUnderflow);
                }
                let addr = self.stack.pop().unwrap();
                let value = mem_read(&self.memory, addr as usize);
                self.stack.push(value);
                self.pc = self.pc + 1;
                proof {
                    assert(self@ =~= (match step(prog@, pre) {
                        StepSpecResult::KeepGoing(s2) => s2,
                        _ => pre,
                    }));
                }
                StepOutcome::KeepRunning
            },
            Instruction::Store => {
                if self.stack.len() < 2 {
                    return StepOutcome::Crashed(VMError::StackUnderflow);
                }
                let addr = self.stack[self.stack.len() - 1];
                proof {
                    assert(mem_can_store(addr as int));
                }
                self.stack.pop().unwrap();
                let value = self.stack.pop().unwrap();
                match mem_write(&mut self.memory, addr as usize, value) {
                    Ok(()) => {
                        self.pc = self.pc + 1;
                        proof {
                            assert(self@ =~= (match step(prog@, pre) {
                                StepSpecResult::KeepGoing(s2) => s2,
                                _ => pre,
                            }));
                        }
                        StepOutcome::KeepRunning
                    },
                    Err(e) => {
                        proof {
                            assert(false);
                        }
                        StepOutcome::Crashed(e)
                    },
                }
            },
            Instruction::JumpResolved(a) => {
                if *a >= prog.len() {
                    return StepOutcome::Crashed(VMError::JumpOutOfBounds(*a));
                }
                self.pc = *a;
                proof {
                    assert(self@ =~= (match step(prog@, pre) {
                        StepSpecResult::KeepGoing(s2) => s2,
                        _ => pre,
                    }));
                }
                StepOutcome::KeepRunning
            },
            Instruction::JumpZResolved(a) => {
                if self.stack.len() < 1 {
                    return StepOutcome::Crashed(VMError::StackUnderflow);
                }
                let cond = self.stack[self.stack.len() - 1];
                if cond == 0 && *a >= prog.len() {
                    return StepOutcome::Crashed(VMError::JumpOutOfBounds(*a));
                }
                self.stack.pop().unwrap();
                if cond == 0 {
                    self.pc = *a;
                } else {
                    self.pc = self.pc + 1;
                }
                proof {
                    assert(self@ =~= (match step(prog@, pre) {
                        StepSpecResult::KeepGoing(s2) => s2,
                        _ => pre,
                    }));
                }
                StepOutcome::KeepRunning
            },
            Instruction::JumpNotZResolved(a) => {
                if self.stack.len() < 1 {
                    return StepOutcome::Crashed(VMError::StackUnderflow);
                }
                let cond = self.stack[self.stack.len() - 1];
                if cond != 0 && *a >= prog.len() {
                    return StepOutcome::Crashed(VMError::JumpOutOfBounds(*a));
                }
                self.stack.pop().unwrap();
                if cond != 0 {
                    self.pc = *a;
                } else {
                    self.pc = self.pc + 1;
                }
                proof {
                    assert(self@ =~= (match step(prog@, pre) {
                        StepSpecResult::KeepGoing(s2) => s2,
                        _ => pre,
                    }));
                }
                StepOutcome::KeepRunning
            },
            Instruction::CallResolved(a) => {
                if *a >= prog.len() {
                    return StepOutcome::Crashed(VMError::JumpOutOfBounds(*a));
                }
                self.call_stack.push(self.pc + 1);
                self.pc = *a;
                proof {
                    assert(self@ =~= (match step(prog@, pre) {
                        StepSpecResult::KeepGoing(s2) => s2,
                        _ => pre,
                    }));
                }
                StepOutcome::KeepRunning
            },
            Instruction::Ret => {
                if self.call_stack.len() < 1 {
                    return StepOutcome::Crashed(VMError::CallStackUnderflow);
                }
                self.pc = self.call_stack.pop().unwrap();
                proof {
                    assert(self@ =~= (match step(prog@, pre) {
                        StepSpecResult::KeepGoing(s2) => s2,
                        _ => pre,
                    }));
                }
                StepOutcome::KeepRunning
            },
            Instruction::Halt => StepOutcome::Finished,
            Instruction::Label(_) => {
                self.pc = self.pc + 1;
                proof {
                    assert(self@ =~= (match step(prog@, pre) {
                        StepSpecResult::KeepGoing(s2) => s2,
                        _ => pre,
                    }));
                }
                StepOutcome::KeepRunning
            },
            Instruction::Jump(l) => StepOutcome::Crashed(
                VMError::UnresolvedInstruction(l.clone()),
            ),
            Instruction::JumpZ(l) => StepOutcome::Crashed(
                VMError::UnresolvedInstruction(l.clone()),
            ),
            Instruction::JumpNotZ(l) => StepOutcome::Crashed(
                VMError::UnresolvedInstruction(l.clone()),
            ),
            Instruction::Call(l) => StepOutcome::Crashed(
                VMError::UnresolvedInstruction(l.clone()),
            ),
        }
    }
}

/// The state after `n` successful steps, or `None` if the run halts, fails,
/// or leaves the program within those steps.
pub open spec fn run_n(prog: Seq<Instruction>, s: StateSpec, n: nat) -> Option<StateSpec>
    decreases n,
{
    if n == 0 {
        Some(s)
    } else if s.pc >= prog.len() {
        None
    } else {
        match step(prog, s) {
            StepSpecResult::KeepGoing(s2) => run_n(prog, s2, (n - 1) as nat),
            _ => None,
        }
    }
}

/// True when some number of steps leads from `s0` to `s`.
pub open spec fn reaches(prog: Seq<Instruction>, s0: StateSpec, s: StateSpec) -> bool {
    exists|n: nat| run_n(prog, s0, n) == Some(s)
}

/// True of a state in which a run ends successfully: the program counter has
/// left the program, or the next instruction is `halt`.
pub open spec fn halted(prog: Seq<Instruction>, s: StateSpec) -> bool {
    s.pc >= prog.len() || step(prog, s) is Stopped
}

/// True of a state in which a run ends by raising `e`.
pub open spec fn crashed(prog: Seq<Instruction>, s: StateSpec, e: VMError) -> bool {
    s.pc < prog.len() && (step(prog, s) matches StepSpecResult::Failure(k) && fail_matches(k, e))
}

/// True of a state no successful step leaves: the run is over, well or badly.
pub open spec fn terminal(prog: Seq<Instruction>, s: StateSpec) -> bool {
    s.pc >= prog.len() || !(step(prog, s) is KeepGoing)
}

/// Extending a run by one successful step.
pub proof fn lemma_run_n_snoc(prog: Seq<Instruction>, s0: StateSpec, n: nat, s: StateSpec, s2: StateSpec)
    requires
        run_n(prog, s0, n) == Some(s),
        s.pc < prog.len(),
        step(prog, s) == StepSpecResult::KeepGoing(s2),
    ensures
        run_n(prog, s0, n + 1) == Some(s2),
    decreases n,
{
    if n == 0 {
        assert(s0 == s);
        assert(run_n(prog, s0, 1) == run_n(prog, s2, 0));
    } else {
        assert(s0.pc < prog.len());
        match step(prog, s0) {
            StepSpecResult::KeepGoing(m) => {
                assert(run_n(prog, m, (n - 1) as nat) == Some(s));
                lemma_run_n_snoc(prog, m, (n - 1) as nat, s, s2);
                assert(run_n(prog, m, n) == Some(s2));
                assert(run_n(prog, s0, n + 1) == run_n(prog, m, n));
            },
            _ => {
                assert(false);
            },
        }
    }
}

/// A run of `a + b` steps is a run of `a` steps followed by one of `b`.
pub proof fn lemma_run_n_split(prog: Seq<Instruction>, s0: StateSpec, a: nat, b: nat)
    requires
        run_n(prog, s0, a) is Some,
    ensures
        run_n(prog, s0, a + b) == run_n(prog, run_n(prog, s0, a).unwrap(), b),
    decreases a,
{
    if a > 0 {
        match step(prog, s0) {
            StepSpecResult::KeepGoing(m) => {
                lemma_run_n_split(prog, m, (a - 1) as nat, b);
            },
            _ => {
                assert(false);
            },
        }
    }
}

/// A run has at most one terminal state: two step counts that both land in
/// a state the run cannot leave land in the same state.
pub proof fn lemma_terminal_unique(
    prog: Seq<Instruction>,
    s0: StateSpec,
    n: nat,
    m: nat,
    s: StateSpec,
    t: StateSpec,
)
    requires
        run_n(prog, s0, n) == Some(s),
        run_n(prog, s0, m) == Some(t),
        terminal(prog, s),
        terminal(prog, t),
    ensures
        s == t,
        n == m,
{
    if n < m {
        lemma_run_n_split(prog, s0, n, (m - n) as nat);
        assert(run_n(prog, s, (m - n) as nat) == Some(t));
        assert(false);
    } else if m < n {
        lemma_run_n_split(prog, s0, m, (n - m) as nat);
        assert(run_n(prog, t, (n - m) as nat) == Some(s));
        assert(false);
    }
}

impl Machine {
    /// Runs the program from the machine's current state for at most `fuel`
    /// instructions, until it halts, runs off the end, or fails. The final
    /// state is reachable from the starting state by successful steps; it is
    /// halted on `Halted` and failed with exactly the returned error on
    /// `Crashed`. `OutOfFuel` reports that all `fuel` steps succeeded; the
    /// run continues from the state it paused in, so a caller may supply
    /// more fuel and go on indefinitely, as a program with no halt demands.
    pub fn run(&mut self, prog: &Vec<Instruction>, fuel: usize) -> (r: RunStatus)
        ensures
            reaches(prog@, old(self)@, final(self)@),
            match r {
                RunStatus::Halted => halted(prog@, final(self)@),
                RunStatus::Crashed(e) => crashed(prog@, final(self)@, e),
                RunStatus::OutOfFuel => run_n(prog@, old(self)@, fuel as nat) == Some(
                    final(self)@,
                ),
            },
    {
        let mut used: usize = 0;
        while used < fuel
            invariant
                used <= fuel,
                run_n(prog@, old(self)@, used as nat) == Some(self@),
            decreases fuel - used,
        {
            if self.pc >= prog.len() {
                return RunStatus::Halted;
            }
            let ghost pre = self@;
            match self.step_once(prog) {
                StepOutcome::KeepRunning => {
                    proof {
                        match step(prog@, pre) {
                            StepSpecResult::KeepGoing(s2) => {
                                lemma_run_n_snoc(prog@, old(self)@, used as nat, pre, s2);
                            },
                            _ => {
                                assert(false);
                            },
                        }
                    }
                    used = used + 1;
                },
                StepOutcome::Finished => {
                    return RunStatus::Halted;
                },
                StepOutcome::Crashed(e) => {
                    return RunStatus::Crashed(e);
                },
            }
        }
        RunStatus::OutOfFuel
    }
}

/// How a bounded run ended: a successful halt or end of program, a failure,
/// or an exhausted step budget with the machine ready to continue.
#[derive(Debug, PartialEq)]
pub enum RunStatus {
    Halted,
    Crashed(VMError),
    OutOfFuel,
}

/// Runs a program on a fresh machine for at most `fuel` instructions and
/// returns everything it printed, paired with how the run ended. The values
/// printed before a failure are kept.
pub fn run_vm(instructions: Vec<Instruction>, fuel: usize) -> (r: (Vec<u16>, RunStatus))
    ensures
        exists|s: StateSpec|
            {
                &&& #[trigger] reaches(instructions@, init_state(), s)
                &&& r.0@ == s.output
                &&& match r.1 {
                    RunStatus::Halted => halted(instructions@, s),
                    RunStatus::Crashed(e) => crashed(instructions@, s, e),
                    RunStatus::OutOfFuel => run_n(instructions@, init_state(), fuel as nat)
                        == Some(s),
                }
            },
{
    let mut m = Machine::new();
    let status = m.run(&instructions, fuel);
    proof {
        assert(reaches(instructions@, init_state(), m@));
    }
    (m.output, status)
}

} // verus!
