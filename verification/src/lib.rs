//! A verified CHIP-8 virtual machine core with the CHIP-48/SCHIP extensions:
//! a 4096-byte memory with a reserved interpreter region, a register file,
//! a fixed-depth call stack, a bit-packed monochrome display with two
//! resolutions, deadline-style delay/sound timers, a 16-key pad snapshot,
//! and a fetch-decode-execute step function paced to a configurable
//! instruction rate.
//!
//! The engine itself performs no I/O: the caller supplies the current
//! monotonic time in nanoseconds to the functions that need it, drives the
//! key-pad snapshot, and renders the framebuffer.

pub mod buffer;
pub mod clock;
pub mod display;
pub mod engine;
pub mod errors;
pub mod opcode;
pub mod registers;
pub mod vm;
