//! A small CHIP-8 style virtual machine core.
//!
//! The crate is split in three parts:
//! - [`opcodes`]: the instruction decoder, a pure function from a 16-bit
//!   instruction word to a structured operation;
//! - [`cpu`]: the machine state (registers, memory, program counter, call
//!   stack, display) and the fetch-decode-execute loop;
//! - [`loader`]: turning hex-encoded program text into the raw bytes that the
//!   machine loads.

pub mod cpu;
pub mod loader;
pub mod opcodes;
