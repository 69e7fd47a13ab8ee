//! A verified core for a small 8-bit virtual machine with a monochrome
//! pixel display.
//!
//! The crate holds the instruction decoder, the memory model (address
//! space, register file, index register, program counter, call stack),
//! the framebuffer compositor with its XOR sprite blit, and the
//! fetch-decode-execute engine. Terminal rendering and file loading are
//! left to the embedding program; the engine reports what happened each
//! step so the embedder can flush the affected part of the screen.

pub mod decoder;
pub mod display;
pub mod interpreter;
pub mod mem;
pub mod util;
