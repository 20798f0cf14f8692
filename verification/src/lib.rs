//! A CHIP-8 virtual machine and a small assembler for it.
pub mod machine;
pub mod cpu;
pub mod opcodes;
pub mod assembler;
pub mod laws;
pub mod effects;

pub use cpu::{Chip8, Instruction, LoadError, RandomSourceError};
