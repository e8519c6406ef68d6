//! A verified emulation core for a 16-bit word-addressed virtual CPU.
//!
//! The core owns a register file, a flat word-addressed memory, and the
//! fetch-decode-execute engine: operand-addressing-mode resolution, opcode
//! dispatch, and a strict state machine for faults.  Loading from disk,
//! printing, and the interactive shell live outside the core; they talk to it
//! through plain values.

pub mod alu;
pub mod cpu;
pub mod decode;
pub mod laws;
