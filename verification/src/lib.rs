//! A CHIP-8 virtual machine: registers, memory, call stack, framebuffer,
//! countdown timers and the full instruction set, with every operation
//! stated as a contract over a mathematical model of the machine.

pub mod chip8;
pub mod display_input;
