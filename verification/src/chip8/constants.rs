//! The fixed sizes and addresses of the machine.

use crate::chip8::types::{Address, Register};
use vstd::prelude::*;

verus! {

/// Number of general-purpose registers.
pub const CHIP8_REGISTER_COUNT: usize = 16;

/// Index of the flag register VF.
pub const CHIP8_REGISTER_VF: Register = 0xF;

/// Default instruction rate, in Hz.
pub const CHIP8_CPU_CLOCK_SPEED: u16 = 500;

/// Bytes by which the program counter advances per instruction.
pub const CHIP8_PROGRAM_COUNTER_INC: u16 = 2;

/// Address at which a program is loaded and starts.
pub const CHIP8_MEMORY_START: Address = 0x200;

/// Addressable bytes of memory.
pub const CHIP8_MEMORY_SIZE: usize = 4096;

/// Number of return addresses that the call stack holds.
pub const CHIP8_STACK_COUNT: usize = 16;

/// Largest program that is accepted, in bytes.
pub const CHIP8_MAX_EXECUTABLE_SIZE: u16 = 3072;

/// Width of the screen, in pixels.
pub const CHIP8_SCREEN_WIDTH: usize = 64;

/// Height of the screen, in pixels.
pub const CHIP8_SCREEN_HEIGHT: usize = 32;

/// Number of pixels of the screen.
pub const CHIP8_PIXEL_COUNT: usize = 2048;

/// Address of the first byte of the built-in font.
pub const CHIP8_FONT_START: Address = 0x050;

/// Bytes of one glyph of the built-in font.
pub const CHIP8_FONT_GLYPH_SIZE: u16 = 5;

/// Bytes of the whole built-in font.
pub const CHIP8_FONT_SIZE: usize = 80;

/// Number of keys of the keypad.
pub const CHIP8_KEY_COUNT: u8 = 16;

/// State that the random source starts from, and that a seed of zero
/// stands for.
pub const CHIP8_RANDOM_SEED: u16 = 0xACE1;

} // verus!
