//! A CHIP-8 virtual machine: a decoder from 16-bit instruction words to typed
//! instructions, and an interpreter that runs them, one per cycle, against
//! registers, memory, a call stack, two timers and a 64x32 framebuffer.
//!
//! Every executable function carries a contract over a mathematical model of
//! the machine, and Verus proves the code against it.

pub mod cpu;
pub mod debugger;
pub mod display;
pub mod fastrand;
pub mod machine;
pub mod opcodes;
pub mod parser;
