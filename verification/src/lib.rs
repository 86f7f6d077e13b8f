//! A CHIP-8 virtual machine core with machine-checked contracts.
//!
//! The parts, leaves first:
//!
//! - `memory`: 4096 bytes behind bounds-checked reads and writes;
//! - `registers`: `V0..VF`, the index register and the program counter;
//! - `stack`: the bounded stack of return addresses;
//! - `timers`: the delay and sound down-counters;
//! - `input`: the latch that holds the one key held down;
//! - `keymap`: the keyboard keys that stand for the keys of the pad;
//! - `display`: the packed pixel grid and sprite drawing by exclusive-or;
//! - `opcodes`: the instruction set, its decoder and its encoder;
//! - `state`: the engine as a transition function on a mathematical
//!   machine state, and the laws that hold of it;
//! - `machine`: the machine itself, whose operations perform those
//!   transitions.
//!
//! A host drives a machine through `Chip8::step` at the instruction rate
//! and `Chip8::tick_timers` at the slower timer rate.

pub mod display;
pub mod input;
pub mod keymap;
pub mod machine;
pub mod memory;
pub mod opcodes;
pub mod registers;
pub mod stack;
pub mod state;
pub mod timers;

pub use machine::{Chip8, Chip8Error};
