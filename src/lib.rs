//! Disassembler and simulator for a subset of the 16-bit 8086 instruction
//! set: a pattern-indexed decoder from bytes to an instruction IR, assembler
//! text for that IR, and an execution engine over registers, flags and a
//! 1 MiB memory.
pub mod text;
pub mod ops;
pub mod decode;
pub mod lookup;
pub mod decoder;
pub mod flag_registers;
pub mod arithmetic;
pub mod memory;
pub mod cpu;
pub mod sim;
pub mod disasm;
pub mod json;
pub mod machine_code;
