//! Putting the font and a program into memory.

use crate::chip8::constants::{
    CHIP8_FONT_SIZE, CHIP8_FONT_START, CHIP8_MAX_EXECUTABLE_SIZE, CHIP8_MEMORY_START,
};
use crate::chip8::display::Display;
use crate::chip8::error::Chip8Error;
use crate::chip8::input::KeyInput;
use crate::chip8::model::{font_set, outcome, MachineView};
use crate::chip8::Chip8;
use vstd::prelude::*;

verus! {

impl<Screen, Input> Chip8<Screen, Input> where Screen: Display, Input: KeyInput {
    /// Copies the built-in font to 0x050 to 0x09F: five bytes for each of
    /// the glyphs 0 to F.
    pub fn load_fontset(&mut self)
        requires
            old(self).wf(),
        ensures
            old(self).becomes(final(self), old(self)@.load_fontset()),
    {
        let font: [u8; 80] = [
            0xF0, 0x90, 0x90, 0x90, 0xF0,  // 0
            0x20, 0x60, 0x20, 0x20, 0x70,  // 1
            0xF0, 0x10, 0xF0, 0x80, 0xF0,  // 2
            0xF0, 0x10, 0xF0, 0x10, 0xF0,  // 3
            0x90, 0x90, 0xF0, 0x10, 0x10,  // 4
            0xF0, 0x80, 0xF0, 0x10, 0xF0,  // 5
            0xF0, 0x80, 0xF0, 0x90, 0xF0,  // 6
            0xF0, 0x10, 0x20, 0x40, 0x40,  // 7
            0xF0, 0x90, 0xF0, 0x90, 0xF0,  // 8
            0xF0, 0x90, 0xF0, 0x10, 0xF0,  // 9
            0xF0, 0x90, 0xF0, 0x90, 0x90,  // A
            0xE0, 0x90, 0xE0, 0x90, 0xE0,  // B
            0xF0, 0x80, 0x80, 0x80, 0xF0,  // C
            0xE0, 0x90, 0x90, 0x90, 0xE0,  // D
            0xF0, 0x80, 0xF0, 0x80, 0xF0,  // E
            0xF0, 0x80, 0xF0, 0x80, 0x80,  // F
        ];
        assert(font@ =~= font_set());
        let start: usize = CHIP8_FONT_START as usize;
        let mut i: usize = 0;
        while i < CHIP8_FONT_SIZE
            invariant
                i <= 80,
                start == 0x050,
                font@ == font_set(),
                self.memory@.len() == 4096,
                forall|a: int|
                    0 <= a < 4096 ==> self.memory@[a] == if start <= a < start + i {
                        font_set()[a - start]
                    } else {
                        old(self).memory@[a]
                    },
                old(self).becomes(self, MachineView { memory: self.memory@, ..old(self)@ }),
            decreases 80 - i,
        {
            self.memory[start + i] = font[i];
            i += 1;
        }
        assert(self@.memory =~= old(self)@.load_fontset().memory);
    }

    /// Copies the program `rom` to memory at 0x200 and after, and notes its
    /// length. A program of more than 3072 bytes is refused and nothing
    /// changes.
    pub fn load_rom(&mut self, rom: &[u8]) -> (result: Result<(), Chip8Error>)
        requires
            old(self).wf(),
        ensures
            old(self).becomes(final(self), final(self)@),
            outcome(old(self)@, final(self)@, result, old(self)@.load_rom(rom@)),
            result is Err <==> rom@.len() > 3072,
    {
        let size: usize = rom.len();
        if size > CHIP8_MAX_EXECUTABLE_SIZE as usize {
            return Err(Chip8Error::RomTooLarge);
        }
        let start: usize = CHIP8_MEMORY_START as usize;
        let mut i: usize = 0;
        while i < size
            invariant
                i <= size,
                size == rom@.len(),
                size <= 3072,
                start == 0x200,
                self.memory@.len() == 4096,
                forall|a: int|
                    0 <= a < 4096 ==> self.memory@[a] == if start <= a < start + i {
                        rom@[a - start]
                    } else {
                        old(self).memory@[a]
                    },
                old(self).becomes(self, MachineView { memory: self.memory@, ..old(self)@ }),
            decreases size - i,
        {
            self.memory[start + i] = rom[i];
            i += 1;
        }
        self.rom_size = size as u16;
        assert(self@.memory =~= old(self)@.load_rom(rom@)->Ok_0.memory);
        Ok(())
    }
}

} // verus!
