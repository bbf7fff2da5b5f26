//! A CHIP-8 virtual machine, verified with Verus.
//!
//! [`Chip8`] holds the state of one machine: memory, registers, call stack,
//! timers, display and keypad. The host loads a program, runs cycles with
//! [`Chip8::cycle`] or [`Chip8::step`], ticks the timers sixty times a
//! second, and passes key presses on. What each operation does is stated
//! over [`model::Machine`], the state as sequences and integers; module
//! [`semantics`] gives the effect of every instruction there, and module
//! [`laws`] proves what follows from it.

pub mod alu;
pub mod decode;
pub mod error;
pub mod execute;
pub mod font;
pub mod interface;
pub mod keypad;
pub mod laws;
pub mod machine;
pub mod model;
mod random;
pub mod semantics;
pub mod sprite;

pub use error::Error;
pub use interface::Interface;
pub use keypad::Key;
pub use machine::Chip8;
pub use model::Quirks;
