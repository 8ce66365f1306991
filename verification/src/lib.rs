//! An MMIX toolchain: the machine and its instruction set, an assembler for
//! MMIXAL source text, the `.mmb` program image, and the debugger's state.

pub mod instruction;
pub mod op;
pub mod opcodes;
pub mod register;
pub mod memory;
pub mod machine;
pub mod execute;
pub mod basic;
pub mod text;
pub mod parse;
pub mod encode;
pub mod assembler;
pub mod binary;
pub mod debugger;

pub use assembler::{assemble, AssembleError, AssembleResult, Segment};
pub use binary::DebugInfo;
pub use debugger::{App, InputMode};
pub use instruction::RawInst;
pub use machine::Machine;
pub use memory::Memory;
pub use opcodes::{name, timing, OperandFormat, Timing};
pub use register::{GeneralRegisters, SpecialRegister, SpecialRegisters};
