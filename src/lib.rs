//! A CHIP-8 virtual machine: registers, memory, screen, keys and timers,
//! with every instruction specified over an abstract state.

pub mod chip8;
pub mod laws;
pub mod model;

pub use chip8::Chip8;
