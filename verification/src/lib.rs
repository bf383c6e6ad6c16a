//! A CHIP-8 style virtual machine: a byte-addressable memory with a built-in
//! font table, sixteen 8-bit registers, an index register, a bounded call
//! stack, two countdown timers, a monochrome XOR-drawn framebuffer and a
//! sixteen-key input matrix.
//!
//! The interpreter consumes program bytes, key transitions and timer ticks,
//! and exposes its memory, registers, framebuffer and run-state for a host
//! to read; it never performs I/O itself.

pub mod display;
pub mod keyboard;
pub mod cpu;
