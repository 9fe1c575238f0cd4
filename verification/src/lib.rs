//! An interpreter for the CHIP-8 instruction set.
//!
//! `machine` holds the state of the machine as mathematical values and
//! says, operation by operation, what each instruction does to it.
//! `chip8` holds the machine that runs, whose every operation is proved to
//! do what `machine` says. `opcode` decodes instruction words, `program`
//! reads a program text, `input` maps keyboard events to the keypad,
//! `screen` lays the display out for a texture, and `laws` proves what
//! holds of all of them together.

pub mod chip8;
pub mod constants;
pub mod input;
pub mod laws;
pub mod machine;
pub mod opcode;
pub mod program;
pub mod screen;
pub mod utils;
