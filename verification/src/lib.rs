//! A small stack-based bytecode virtual machine.
//!
//! Source programs are decoded into [`Instruction`] values, label references
//! are rewritten to absolute instruction indices by a two-pass assembler, and
//! the resolved program is interpreted against an explicit operand stack, a
//! growable word memory, and a call-return stack.

pub mod assembler;
pub mod decode;
pub mod errors;
pub mod instructions;
pub mod labels;
pub mod laws;
pub mod machine;
pub mod strnum;

pub use assembler::{build_program, first_pass, resolve};
pub use decode::map_op;
pub use errors::VMError;
pub use instructions::Instruction;
pub use machine::{mem_read, mem_write, run_vm, Machine, RunStatus, StepOutcome, MAX_MEMORY_SIZE};
