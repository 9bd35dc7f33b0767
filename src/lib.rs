//! A small stack machine: registers, byte-addressable memory, an instruction
//! codec and a fetch-decode-execute engine.

pub mod memory;
pub mod register;
pub mod op;
pub mod vm;
pub mod text;

pub use memory::{Addressable, LinearMemory};
pub use vm::Machine;
