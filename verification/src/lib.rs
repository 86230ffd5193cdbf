//! A verified CHIP-8 virtual machine core: a 4096-byte memory with the
//! built-in font, a register file with a bounded call stack, a wrapping
//! monochrome framebuffer with a 16-key pad, and a fetch/decode/execute
//! cycle whose per-instruction semantics are stated as a specification-level
//! transition function and proved of the executable code.

pub mod cpu;
pub mod errors;
pub mod io;
