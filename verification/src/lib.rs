//! An emulator for a small 16-bit word-addressed instruction-set computer:
//! a 65,536-word memory with two memory-mapped keyboard registers, eight
//! general-purpose registers plus program counter and condition flags, a
//! fetch-decode-execute loop over sixteen opcodes, trap-based character I/O,
//! and an event bus that reports every state access to registered plugins.

pub mod cli;
pub mod command;
pub mod condition_flags;
pub mod error;
pub mod handler;
pub mod io;
pub mod op;
pub mod plugin;
pub mod register;
pub mod trap;
pub mod vm;
