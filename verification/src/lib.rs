//! A verified CHIP-8 virtual machine core.
//!
//! The crate models the classic CHIP-8 architecture: a 4096-byte memory, a
//! sixteen-register file, a call stack, two 60 Hz timers, a sixteen-key
//! keypad and a 64x32 monochrome frame buffer.  The CPU engine decodes and
//! executes one instruction per step; the draw instruction XOR-blits sprites
//! onto the frame buffer with wraparound and collision detection.

pub mod chip8;
pub mod display;
pub mod instruction;
pub mod laws;
