//! A user-space virtual machine for a 32-bit RISC-style instruction set,
//! with a paged sparse memory, a two-pass assembler and a thin system-call
//! surface. The instruction codec, the memory and the execution core carry
//! machine-checked contracts.

pub mod assembler;
pub mod error;
pub mod instr;
pub mod mem;
pub mod vm;

pub use assembler::parse;
pub use assembler::AsmError;
pub use assembler::ImmediatePlaceholder;
pub use assembler::InstructionPlaceholder;
pub use error::Error;
pub use instr::Instruction;
pub use instr::OpCode;
pub use mem::Memory;
pub use vm::IoTarget;
pub use vm::StepOutcome;
pub use vm::VirtualMachine;
