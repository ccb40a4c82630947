//! A verified CHIP-8 virtual-machine core: a byte-addressable memory, a
//! register file, a program counter and a monochrome framebuffer, advanced
//! one instruction per step by a fetch-decode-execute pipeline.

pub mod display;
pub mod draw;
pub mod instruction;
pub mod interpreter;
pub mod laws;
pub mod nibble;
