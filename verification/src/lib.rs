//! A verified CHIP-8 virtual machine core.
//!
//! The machine interprets an 8-bit byte stream (a program image loaded at
//! address 0x200) against a small architectural state: 4096 bytes of memory,
//! sixteen 8-bit registers, a 16-bit index register, a call stack of up to
//! sixteen return addresses, two countdown timers, a 64x32 monochrome
//! framebuffer, and a 16-key input state. One `cycle` call performs exactly
//! one fetch-decode-execute-timer-tick; every instruction is a pure state
//! transition whose semantics are stated as spec functions and proved.

pub mod decode;
pub mod error;
pub mod laws;
pub mod machine;
mod ops;
pub mod sem;
pub mod view;

pub use error::Chip8Error;
