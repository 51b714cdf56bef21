//! A CHIP-8 virtual machine: instruction decoding, a monochrome framebuffer
//! with XOR sprite plotting and collision detection, and the
//! fetch-decode-execute cycle with its timers.
pub mod display;
pub mod instruction;
pub mod interpreter;
pub mod machine;
pub mod util;
