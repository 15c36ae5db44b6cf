//! Instruction-level model of a Cortex-M4 core executing Thumb code.
#![allow(non_snake_case)]
#![allow(non_camel_case_types)]

pub mod arch;
pub mod bits;
pub mod bus;
pub mod context;
pub mod memory;
pub mod cpu;
pub mod exceptions;
pub mod text;
pub mod opcodes;
pub mod jit_engine;
pub mod disassembler;
