//! The operand fields of an instruction word, and the instructions.

use crate::chip8::constants::{
    CHIP8_FONT_GLYPH_SIZE, CHIP8_FONT_START, CHIP8_KEY_COUNT, CHIP8_MEMORY_SIZE,
    CHIP8_PROGRAM_COUNTER_INC, CHIP8_REGISTER_VF, CHIP8_SCREEN_HEIGHT, CHIP8_SCREEN_WIDTH,
    CHIP8_STACK_COUNT,
};
use crate::chip8::display::Display;
use crate::chip8::error::Chip8Error;
use crate::chip8::input::KeyInput;
use crate::chip8::laws::{lemma_flip, lemma_next_random_nonzero, lemma_target_pixel};
use crate::chip8::model::{
    collides, flag, outcome, sprite_bit, sprite_column, sprite_row, target_pixel, touches_screen,
    waits_for_key, xor_sprite, KeyReading, MachineView,
};
use crate::chip8::types::{Address, OpCode, Register};
use crate::chip8::Chip8;
use vstd::prelude::*;

verus! {

/// The 12-bit address operand `NNN`.
pub open spec fn addr_of(opcode: OpCode) -> Address {
    opcode & 0x0FFF
}

/// The register index `X`: the second nibble.
pub open spec fn reg_x_of(opcode: OpCode) -> int {
    ((opcode >> 8) & 0x000F) as int
}

/// The register index `Y`: the third nibble.
pub open spec fn reg_y_of(opcode: OpCode) -> int {
    ((opcode >> 4) & 0x000F) as int
}

/// The 8-bit immediate `NN`.
pub open spec fn imm8_of(opcode: OpCode) -> u8 {
    (opcode & 0x00FF) as u8
}

/// The 4-bit immediate `N`.
pub open spec fn imm4_of(opcode: OpCode) -> u8 {
    (opcode & 0x000F) as u8
}

/// The family of an instruction: its first nibble.
pub open spec fn family_of(opcode: OpCode) -> u16 {
    opcode >> 12
}

/// The operand fields written with division and remainder, and their ranges.
pub proof fn lemma_fields(opcode: OpCode)
    ensures
        addr_of(opcode) == opcode % 0x1000,
        reg_x_of(opcode) == (opcode / 0x100) % 0x10,
        reg_y_of(opcode) == (opcode / 0x10) % 0x10,
        imm8_of(opcode) == opcode % 0x100,
        imm4_of(opcode) == opcode % 0x10,
        family_of(opcode) == opcode / 0x1000,
        0 <= reg_x_of(opcode) < 16,
        0 <= reg_y_of(opcode) < 16,
        opcode == 0x1000 * family_of(opcode) + 0x100 * reg_x_of(opcode) + imm8_of(opcode),
        imm8_of(opcode) == 0x10 * reg_y_of(opcode) + imm4_of(opcode),
{
    assert(opcode & 0x0FFF == opcode % 0x1000) by (bit_vector);
    assert((opcode >> 8) & 0x000F == (opcode / 0x100) % 0x10) by (bit_vector);
    assert((opcode >> 4) & 0x000F == (opcode / 0x10) % 0x10) by (bit_vector);
    assert(opcode & 0x00FF == opcode % 0x100) by (bit_vector);
    assert(opcode & 0x000F == opcode % 0x10) by (bit_vector);
    assert(opcode >> 12 == opcode / 0x1000) by (bit_vector);
    assert(opcode & 0x00FF < 0x100) by (bit_vector);
    assert(opcode & 0x000F < 0x10) by (bit_vector);
}

/// The address operand of an instruction.
pub fn get_addr_from_opcode(opcode: OpCode) -> (addr: Address)
    ensures
        addr == addr_of(opcode),
        addr < 0x1000,
{
    proof {
        lemma_fields(opcode);
    }
    opcode & 0x0FFF
}

/// The register index `X` of an instruction.
pub fn get_reg_from_opcode(opcode: OpCode) -> (reg: Register)
    ensures
        reg == reg_x_of(opcode),
        reg < 16,
{
    proof {
        lemma_fields(opcode);
    }
    ((opcode >> 8) & 0x000F) as Register
}

/// The register index `X` and the immediate `NN` of an instruction.
pub fn get_reg_and_value_from_opcode(opcode: OpCode) -> (fields: (Register, u8))
    ensures
        fields.0 == reg_x_of(opcode),
        fields.1 == imm8_of(opcode),
        fields.0 < 16,
{
    proof {
        lemma_fields(opcode);
    }
    (get_reg_from_opcode(opcode), (opcode & 0x00FF) as u8)
}

/// The register indices `X` and `Y` of an instruction.
pub fn get_reg_and_reg_from_opcode(opcode: OpCode) -> (fields: (Register, Register))
    ensures
        fields.0 == reg_x_of(opcode),
        fields.1 == reg_y_of(opcode),
        fields.0 < 16,
        fields.1 < 16,
{
    proof {
        lemma_fields(opcode);
    }
    (get_reg_from_opcode(opcode), ((opcode >> 4) & 0x000F) as Register)
}

/// The register indices `X` and `Y` and the immediate `N` of an instruction.
pub fn get_reg_and_reg_and_value_from_opcode(opcode: OpCode) -> (fields: (Register, Register, u8))
    ensures
        fields.0 == reg_x_of(opcode),
        fields.1 == reg_y_of(opcode),
        fields.2 == imm4_of(opcode),
        fields.0 < 16,
        fields.1 < 16,
        fields.2 < 16,
{
    proof {
        lemma_fields(opcode);
    }
    (
        get_reg_from_opcode(opcode),
        ((opcode >> 4) & 0x000F) as Register,
        (opcode & 0x000F) as u8,
    )
}

impl<Screen, Input> Chip8<Screen, Input> where Screen: Display, Input: KeyInput {
    /// Decodes `opcode` and carries it out at the instant `now`: the family
    /// is the first nibble, and the families 0, 8, E and F are told apart
    /// further by their low bits. On an error the machine is as before.
    ///
    /// What the keypad answers is not known beforehand, so the new state is
    /// the one that the model gives for some answer; instructions that do
    /// not ask the keypad do not depend on it.
    pub fn execute_opcode(&mut self, opcode: OpCode, now: u64) -> (result: Result<(), Chip8Error>)
        requires
            old(self).wf(),
            old(self)@.fetchable(),
        ensures
            final(self).wf(),
            exists|keys: KeyReading|
                outcome(
                    old(self)@,
                    final(self)@,
                    result,
                    old(self)@.execute_opcode(opcode, now, keys),
                ),
            !touches_screen(opcode) || result is Err ==> final(self).screen_value() == old(
                self,
            ).screen_value(),
            !waits_for_key(opcode) ==> final(self).key_input_value() == old(
                self,
            ).key_input_value(),
    {
        proof {
            lemma_fields(opcode);
        }
        let family: u16 = opcode >> 12;
        let low: u8 = (opcode & 0x00FF) as u8;
        let nibble: u8 = (opcode & 0x000F) as u8;
        let ghost mut keys = KeyReading { pressed: false, key: 0 };
        let result = match family {
            0x0 => {
                if opcode == 0x00E0 {
                    self.clear_screen();
                    Ok(())
                } else if opcode == 0x00EE {
                    self.return_from_subroutine()
                } else {
                    Err(Chip8Error::UnknownOpcode(opcode))
                }
            },
            0x1 => {
                self.goto(opcode);
                Ok(())
            },
            0x2 => self.call_subroutine(opcode),
            0x3 => {
                self.if_eq_const_skip(opcode);
                Ok(())
            },
            0x4 => {
                self.if_neq_const_skip(opcode);
                Ok(())
            },
            0x5 => {
                self.if_eq_reg_skip(opcode);
                Ok(())
            },
            0x6 => {
                self.set_reg(opcode);
                Ok(())
            },
            0x7 => {
                self.add_const_to_reg(opcode);
                Ok(())
            },
            0x8 => match nibble {
                0x0 => {
                    self.copy_reg(opcode);
                    Ok(())
                },
                0x1 => {
                    self.or_reg(opcode);
                    Ok(())
                },
                0x2 => {
                    self.and_reg(opcode);
                    Ok(())
                },
                0x3 => {
                    self.xor_reg(opcode);
                    Ok(())
                },
                0x4 => {
                    self.add_reg_to_reg(opcode);
                    Ok(())
                },
                0x5 => {
                    self.sub_reg1_to_reg0(opcode);
                    Ok(())
                },
                0x6 => {
                    self.shift_right_reg(opcode);
                    Ok(())
                },
                0x7 => {
                    self.sub_reg0_to_reg1(opcode);
                    Ok(())
                },
                0xE => {
                    self.shift_left_reg(opcode);
                    Ok(())
                },
                _ => Err(Chip8Error::UnknownOpcode(opcode)),
            },
            0x9 => {
                self.if_neq_reg_skip(opcode);
                Ok(())
            },
            0xA => {
                self.set_addr(opcode);
                Ok(())
            },
            0xB => {
                self.jump_to_addr(opcode);
                Ok(())
            },
            0xC => {
                self.rand(opcode);
                Ok(())
            },
            0xD => self.draw(opcode),
            0xE => match low {
                0x9E => {
                    self.if_eq_key_skip(opcode);
                    proof {
                        let pressed = choose|pressed: bool|
                            old(self).becomes(self, old(self)@.if_eq_key_skip(opcode, pressed));
                        keys = KeyReading { pressed, key: 0 };
                    }
                    Ok(())
                },
                0xA1 => {
                    self.if_neq_key_skip(opcode);
                    proof {
                        let pressed = choose|pressed: bool|
                            old(self).becomes(self, old(self)@.if_neq_key_skip(opcode, pressed));
                        keys = KeyReading { pressed, key: 0 };
                    }
                    Ok(())
                },
                _ => Err(Chip8Error::UnknownOpcode(opcode)),
            },
            0xF => match low {
                0x07 => {
                    self.get_delay_timer_value(opcode);
                    Ok(())
                },
                0x0A => {
                    self.get_key_value(opcode);
                    proof {
                        let key = choose|key: u8| self@ == old(self)@.get_key_value(opcode, key);
                        keys = KeyReading { pressed: false, key };
                    }
                    Ok(())
                },
                0x15 => {
                    self.set_delay_timer(opcode, now);
                    Ok(())
                },
                0x18 => {
                    self.set_sound_timer(opcode, now);
                    Ok(())
                },
                0x1E => {
                    self.add_reg_to_addr(opcode);
                    Ok(())
                },
                0x29 => {
                    self.set_sprite_to_addr(opcode);
                    Ok(())
                },
                0x33 => self.set_bcd(opcode),
                0x55 => self.reg_dump(opcode),
                0x65 => self.reg_load(opcode),
                _ => Err(Chip8Error::UnknownOpcode(opcode)),
            },
            _ => Err(Chip8Error::UnknownOpcode(opcode)),
        };
        assert(outcome(
            old(self)@,
            self@,
            result,
            old(self)@.execute_opcode(opcode, now, keys),
        ));
        result
    }

    /// Puts `value` into the register `register` and moves on to the next
    /// instruction.
    fn store_and_advance(&mut self, register: Register, value: u8)
        requires
            old(self).wf(),
            old(self)@.fetchable(),
            register < 16,
        ensures
            old(self).becomes(
                final(self),
                old(self)@.with_register(register as int, value).advanced(),
            ),
    {
        self.registers[register] = value;
        self.program_counter += CHIP8_PROGRAM_COUNTER_INC;
    }

    /// Puts `value` into the register `register`, then the flag for
    /// `carry` into VF, and moves on to the next instruction.
    fn store_with_flag_and_advance(&mut self, register: Register, value: u8, carry: bool)
        requires
            old(self).wf(),
            old(self)@.fetchable(),
            register < 16,
        ensures
            old(self).becomes(
                final(self),
                old(self)@.with_register_and_flag(register as int, value, carry).advanced(),
            ),
    {
        self.registers[register] = value;
        self.registers[CHIP8_REGISTER_VF] = if carry {
            1
        } else {
            0
        };
        self.program_counter += CHIP8_PROGRAM_COUNTER_INC;
    }

    /// Moves past the next instruction if `skip` holds, and on to it
    /// otherwise.
    fn skip_next_if(&mut self, skip: bool)
        requires
            old(self).wf(),
            old(self)@.fetchable(),
        ensures
            old(self).becomes(final(self), old(self)@.skipped_if(skip)),
    {
        if skip {
            self.program_counter += CHIP8_PROGRAM_COUNTER_INC;
        }
        self.program_counter += CHIP8_PROGRAM_COUNTER_INC;
    }

    /// `00E0`: blanks the framebuffer and tells the screen to clear.
    fn clear_screen(&mut self)
        requires
            old(self).wf(),
            old(self)@.fetchable(),
        ensures
            final(self).wf(),
            final(self)@ == old(self)@.clear_screen(),
            final(self).key_input_value() == old(self).key_input_value(),
    {
        self.gfx = [0u8;2048];
        self.screen.clear();
        self.program_counter += CHIP8_PROGRAM_COUNTER_INC;
        assert(self@.gfx =~= old(self)@.clear_screen().gfx);
    }

    /// `00EE`: pops the call stack into the program counter and moves on to
    /// the instruction after the call.
    fn return_from_subroutine(&mut self) -> (result: Result<(), Chip8Error>)
        requires
            old(self).wf(),
        ensures
            old(self).becomes(final(self), final(self)@),
            outcome(old(self)@, final(self)@, result, old(self)@.return_from_subroutine()),
    {
        if self.stack_ptr == 0 {
            return Err(Chip8Error::StackUnderflow);
        }
        assert(self@.stack.last() == self.stack@[self.stack_ptr - 1]);
        self.stack_ptr -= 1;
        self.program_counter = self.stack[self.stack_ptr];
        self.program_counter += CHIP8_PROGRAM_COUNTER_INC;
        assert(self@.stack =~= old(self)@.stack.drop_last());
        Ok(())
    }

    /// `1NNN`
    fn goto(&mut self, op_code: OpCode)
        requires
            old(self).wf(),
        ensures
            old(self).becomes(final(self), old(self)@.goto(op_code)),
    {
        self.program_counter = get_addr_from_opcode(op_code);
    }

    /// `2NNN`: pushes the program counter and jumps.
    fn call_subroutine(&mut self, op_code: OpCode) -> (result: Result<(), Chip8Error>)
        requires
            old(self).wf(),
            old(self)@.fetchable(),
        ensures
            old(self).becomes(final(self), final(self)@),
            outcome(old(self)@, final(self)@, result, old(self)@.call_subroutine(op_code)),
    {
        if self.stack_ptr >= CHIP8_STACK_COUNT {
            return Err(Chip8Error::StackOverflow);
        }
        let address = get_addr_from_opcode(op_code);
        self.stack[self.stack_ptr] = self.program_counter;
        self.stack_ptr += 1;
        self.program_counter = address;
        assert(self@.stack =~= old(self)@.stack.push(old(self)@.program_counter));
        Ok(())
    }

    /// `3XNN`
    fn if_eq_const_skip(&mut self, op_code: OpCode)
        requires
            old(self).wf(),
            old(self)@.fetchable(),
        ensures
            old(self).becomes(final(self), old(self)@.if_eq_const_skip(op_code)),
    {
        let (register, value) = get_reg_and_value_from_opcode(op_code);
        let skip = self.registers[register] == value;
        self.skip_next_if(skip);
    }

    /// `4XNN`
    fn if_neq_const_skip(&mut self, op_code: OpCode)
        requires
            old(self).wf(),
            old(self)@.fetchable(),
        ensures
            old(self).becomes(final(self), old(self)@.if_neq_const_skip(op_code)),
    {
        let (register, value) = get_reg_and_value_from_opcode(op_code);
        let skip = self.registers[register] != value;
        self.skip_next_if(skip);
    }

    /// `5XY0`
    fn if_eq_reg_skip(&mut self, op_code: OpCode)
        requires
            old(self).wf(),
            old(self)@.fetchable(),
        ensures
            old(self).becomes(final(self), old(self)@.if_eq_reg_skip(op_code)),
    {
        let (register_1, register_2) = get_reg_and_reg_from_opcode(op_code);
        let skip = self.registers[register_1] == self.registers[register_2];
        self.skip_next_if(skip);
    }

    /// `6XNN`
    fn set_reg(&mut self, op_code: OpCode)
        requires
            old(self).wf(),
            old(self)@.fetchable(),
        ensures
            old(self).becomes(final(self), old(self)@.set_reg(op_code)),
    {
        let (register, value) = get_reg_and_value_from_opcode(op_code);
        self.store_and_advance(register, value);
    }

    /// `7XNN`: adds without touching VF; the sum wraps at 256.
    fn add_const_to_reg(&mut self, op_code: OpCode)
        requires
            old(self).wf(),
            old(self)@.fetchable(),
        ensures
            old(self).becomes(final(self), old(self)@.add_const_to_reg(op_code)),
    {
        let (register, value) = get_reg_and_value_from_opcode(op_code);
        let sum: u16 = self.registers[register] as u16 + value as u16;
        self.store_and_advance(register, (sum % 256) as u8);
    }

    /// `8XY0`
    fn copy_reg(&mut self, op_code: OpCode)
        requires
            old(self).wf(),
            old(self)@.fetchable(),
        ensures
            old(self).becomes(final(self), old(self)@.copy_reg(op_code)),
    {
        let (register_1, register_2) = get_reg_and_reg_from_opcode(op_code);
        let value: u8 = self.registers[register_2];
        self.store_and_advance(register_1, value);
    }

    /// `8XY1`
    fn or_reg(&mut self, op_code: OpCode)
        requires
            old(self).wf(),
            old(self)@.fetchable(),
        ensures
            old(self).becomes(final(self), old(self)@.or_reg(op_code)),
    {
        let (register_1, register_2) = get_reg_and_reg_from_opcode(op_code);
        let value: u8 = self.registers[register_1] | self.registers[register_2];
        self.store_and_advance(register_1, value);
    }

    /// `8XY2`
    fn and_reg(&mut self, op_code: OpCode)
        requires
            old(self).wf(),
            old(self)@.fetchable(),
        ensures
            old(self).becomes(final(self), old(self)@.and_reg(op_code)),
    {
        let (register_1, register_2) = get_reg_and_reg_from_opcode(op_code);
        let value: u8 = self.registers[register_1] & self.registers[register_2];
        self.store_and_advance(register_1, value);
    }

    /// `8XY3`
    fn xor_reg(&mut self, op_code: OpCode)
        requires
            old(self).wf(),
            old(self)@.fetchable(),
        ensures
            old(self).becomes(final(self), old(self)@.xor_reg(op_code)),
    {
        let (register_1, register_2) = get_reg_and_reg_from_opcode(op_code);
        let value: u8 = self.registers[register_1] ^ self.registers[register_2];
        self.store_and_advance(register_1, value);
    }

    /// `8XY4`: the sum wraps at 256 and VF takes the carry.
    fn add_reg_to_reg(&mut self, op_code: OpCode)
        requires
            old(self).wf(),
            old(self)@.fetchable(),
        ensures
            old(self).becomes(final(self), old(self)@.add_reg_to_reg(op_code)),
            final(self)@.registers[0xF] == flag(old(self)@.vx(op_code) + old(self)@.vy(op_code) > 255),
            reg_x_of(op_code) != 0xF ==> final(self)@.vx(op_code) == (old(self)@.vx(op_code)
                + old(self)@.vy(op_code)) % 256,
    {
        let (register_1, register_2) = get_reg_and_reg_from_opcode(op_code);
        let sum: u16 = self.registers[register_1] as u16 + self.registers[register_2] as u16;
        self.store_with_flag_and_advance(register_1, (sum % 256) as u8, sum > 255);
    }

    /// `8XY5`: the difference wraps at 256 and VF is 1 unless a borrow was
    /// needed.
    fn sub_reg1_to_reg0(&mut self, op_code: OpCode)
        requires
            old(self).wf(),
            old(self)@.fetchable(),
        ensures
            old(self).becomes(final(self), old(self)@.sub_reg1_to_reg0(op_code)),
            final(self)@.registers[0xF] == flag(old(self)@.vx(op_code) >= old(self)@.vy(op_code)),
            reg_x_of(op_code) != 0xF ==> final(self)@.vx(op_code) == (old(self)@.vx(op_code)
                - old(self)@.vy(op_code)) % 256,
    {
        let (register_1, register_2) = get_reg_and_reg_from_opcode(op_code);
        let minuend: u8 = self.registers[register_1];
        let subtrahend: u8 = self.registers[register_2];
        let difference: u16 = 256 + minuend as u16 - subtrahend as u16;
        self.store_with_flag_and_advance(
            register_1,
            (difference % 256) as u8,
            minuend >= subtrahend,
        );
    }

    /// `8XY6`: halves `Vx`; VF takes the bit that fell off, as 0 or 1.
    fn shift_right_reg(&mut self, op_code: OpCode)
        requires
            old(self).wf(),
            old(self)@.fetchable(),
        ensures
            old(self).becomes(final(self), old(self)@.shift_right_reg(op_code)),
            final(self)@.registers[0xF] == 0 || final(self)@.registers[0xF] == 1,
    {
        let register = get_reg_from_opcode(op_code);
        let value: u8 = self.registers[register];
        self.store_with_flag_and_advance(register, value / 2, value % 2 == 1);
    }

    /// `8XY7`: the difference wraps at 256 and VF is 1 unless a borrow was
    /// needed.
    fn sub_reg0_to_reg1(&mut self, op_code: OpCode)
        requires
            old(self).wf(),
            old(self)@.fetchable(),
        ensures
            old(self).becomes(final(self), old(self)@.sub_reg0_to_reg1(op_code)),
    {
        let (register_1, register_2) = get_reg_and_reg_from_opcode(op_code);
        let subtrahend: u8 = self.registers[register_1];
        let minuend: u8 = self.registers[register_2];
        let difference: u16 = 256 + minuend as u16 - subtrahend as u16;
        self.store_with_flag_and_advance(
            register_1,
            (difference % 256) as u8,
            minuend >= subtrahend,
        );
    }

    /// `8XYE`: doubles `Vx`, wrapping at 256; VF takes the bit that fell
    /// off, as 0 or 1.
    fn shift_left_reg(&mut self, op_code: OpCode)
        requires
            old(self).wf(),
            old(self)@.fetchable(),
        ensures
            old(self).becomes(final(self), old(self)@.shift_left_reg(op_code)),
            final(self)@.registers[0xF] == 0 || final(self)@.registers[0xF] == 1,
    {
        let register = get_reg_from_opcode(op_code);
        let value: u8 = self.registers[register];
        let doubled: u16 = 2 * (value as u16);
        self.store_with_flag_and_advance(register, (doubled % 256) as u8, value >= 128);
    }

    /// `9XY0`
    fn if_neq_reg_skip(&mut self, op_code: OpCode)
        requires
            old(self).wf(),
            old(self)@.fetchable(),
        ensures
            old(self).becomes(final(self), old(self)@.if_neq_reg_skip(op_code)),
    {
        let (register_1, register_2) = get_reg_and_reg_from_opcode(op_code);
        let skip = self.registers[register_1] != self.registers[register_2];
        self.skip_next_if(skip);
    }

    /// `ANNN`
    fn set_addr(&mut self, op_code: OpCode)
        requires
            old(self).wf(),
            old(self)@.fetchable(),
        ensures
            old(self).becomes(final(self), old(self)@.set_addr(op_code)),
    {
        self.addr_register = get_addr_from_opcode(op_code);
        self.program_counter += CHIP8_PROGRAM_COUNTER_INC;
    }

    /// `BNNN`: jumps to `V0 + NNN`; the program counter is not moved on
    /// after the jump.
    fn jump_to_addr(&mut self, op_code: OpCode)
        requires
            old(self).wf(),
        ensures
            old(self).becomes(final(self), old(self)@.jump_to_addr(op_code)),
    {
        self.program_counter = self.registers[0] as u16 + get_addr_from_opcode(op_code);
    }

    /// `CXNN`: steps the random source and masks its byte with `NN`.
    fn rand(&mut self, op_code: OpCode)
        requires
            old(self).wf(),
            old(self)@.fetchable(),
        ensures
            old(self).becomes(final(self), old(self)@.rand(op_code)),
    {
        let (register, mask) = get_reg_and_value_from_opcode(op_code);
        let seed: u16 = self.random_state;
        let a: u16 = seed ^ (seed << 7);
        let b: u16 = a ^ (a >> 9);
        let state: u16 = b ^ (b << 8);
        proof {
            lemma_next_random_nonzero(seed);
        }
        self.random_state = state;
        self.store_and_advance(register, ((state & 0x00FF) as u8) & mask);
    }

    /// `DXYN`: XORs the sprite at `I` onto the framebuffer at (`Vx`, `Vy`),
    /// wrapping at the screen's edges, sets VF to 1 if a lit pixel went off
    /// and to 0 otherwise, and hands the framebuffer to the screen.
    fn draw(&mut self, op_code: OpCode) -> (result: Result<(), Chip8Error>)
        requires
            old(self).wf(),
            old(self)@.fetchable(),
        ensures
            final(self).wf(),
            outcome(old(self)@, final(self)@, result, old(self)@.draw(op_code)),
            final(self).key_input_value() == old(self).key_input_value(),
            result is Err ==> final(self).screen_value() == old(self).screen_value(),
    {
        let (x, y, height) = get_reg_and_reg_and_value_from_opcode(op_code);
        let at: usize = self.addr_register as usize;
        let rows: usize = height as usize;
        if at + rows > CHIP8_MEMORY_SIZE {
            return Err(Chip8Error::AddressOutOfBounds);
        }
        let vx: u8 = self.registers[x];
        let vy: u8 = self.registers[y];
        let ghost sprite = old(self)@.sprite(op_code);
        let ghost before = old(self)@.gfx;
        let mut collision = false;
        let mut y_line: usize = 0;
        while y_line < rows
            invariant
                y_line <= rows,
                rows < 16,
                at + rows <= 4096,
                at == old(self)@.addr_register,
                sprite == self.memory@.subrange(at as int, at + rows),
                sprite.len() == rows,
                before == old(self)@.gfx,
                self.memory == old(self).memory,
                drawn_so_far(before, self.gfx@, collision, sprite, vx, vy, y_line as int, 0),
                old(self).becomes(self, MachineView { gfx: self.gfx@, ..old(self)@ }),
            decreases rows - y_line,
        {
            let pixel: u8 = self.memory[at + y_line];
            let row: usize = (vy as usize + y_line) % CHIP8_SCREEN_HEIGHT;
            let mut x_line: usize = 0;
            while x_line < 8
                invariant
                    x_line <= 8,
                    y_line < rows,
                    rows < 16,
                    sprite.len() == rows,
                    pixel == sprite[y_line as int],
                    row == (vy + y_line) % 32,
                    before == old(self)@.gfx,
                    self.memory == old(self).memory,
                    drawn_so_far(
                        before,
                        self.gfx@,
                        collision,
                        sprite,
                        vx,
                        vy,
                        y_line as int,
                        x_line as int,
                    ),
                    old(self).becomes(self, MachineView { gfx: self.gfx@, ..old(self)@ }),
                decreases 8 - x_line,
            {
                let shift: u8 = x_line as u8;
                if pixel & (0x80u8 >> shift) != 0 {
                    let column: usize = (vx as usize + x_line) % CHIP8_SCREEN_WIDTH;
                    let index_pixel_memory: usize = column + row * CHIP8_SCREEN_WIDTH;
                    let lit: u8 = self.gfx[index_pixel_memory];
                    proof {
                        lemma_draw_one(
                            before,
                            self.gfx@,
                            collision,
                            sprite,
                            vx,
                            vy,
                            y_line as int,
                            x_line as int,
                        );
                    }
                    if lit == 1 {
                        collision = true;
                    }
                    self.gfx[index_pixel_memory] = lit ^ 1;
                } else {
                    proof {
                        lemma_draw_none(
                            before,
                            self.gfx@,
                            collision,
                            sprite,
                            vx,
                            vy,
                            y_line as int,
                            x_line as int,
                        );
                    }
                }
                x_line += 1;
            }
            proof {
                lemma_draw_row_done(before, self.gfx@, collision, sprite, vx, vy, y_line as int);
            }
            y_line += 1;
        }
        proof {
            lemma_draw_done(before, self.gfx@, collision, sprite, vx, vy);
        }
        self.registers[CHIP8_REGISTER_VF] = if collision {
            1
        } else {
            0
        };
        self.screen.draw(self.gfx);
        self.program_counter += CHIP8_PROGRAM_COUNTER_INC;
        Ok(())
    }

    /// `EX9E`: asks the keypad about the key `Vx`, if `Vx` names one, and
    /// skips the next instruction if it is down.
    fn if_eq_key_skip(&mut self, op_code: OpCode)
        requires
            old(self).wf(),
            old(self)@.fetchable(),
        ensures
            exists|pressed: bool|
                old(self).becomes(final(self), old(self)@.if_eq_key_skip(op_code, pressed)),
    {
        let register = get_reg_from_opcode(op_code);
        let key: u8 = self.registers[register];
        let pressed = key < CHIP8_KEY_COUNT && self.key_input.is_key_pressed(key);
        self.skip_next_if(pressed);
        assert(old(self).becomes(self, old(self)@.if_eq_key_skip(op_code, pressed)));
    }

    /// `EXA1`: asks the keypad about the key `Vx`, if `Vx` names one, and
    /// skips the next instruction unless it is down.
    fn if_neq_key_skip(&mut self, op_code: OpCode)
        requires
            old(self).wf(),
            old(self)@.fetchable(),
        ensures
            exists|pressed: bool|
                old(self).becomes(final(self), old(self)@.if_neq_key_skip(op_code, pressed)),
    {
        let register = get_reg_from_opcode(op_code);
        let key: u8 = self.registers[register];
        let pressed = key < CHIP8_KEY_COUNT && self.key_input.is_key_pressed(key);
        self.skip_next_if(!pressed);
        assert(old(self).becomes(self, old(self)@.if_neq_key_skip(op_code, pressed)));
    }

    /// `FX07`
    fn get_delay_timer_value(&mut self, op_code: OpCode)
        requires
            old(self).wf(),
            old(self)@.fetchable(),
        ensures
            old(self).becomes(final(self), old(self)@.get_delay_timer_value(op_code)),
    {
        let register = get_reg_from_opcode(op_code);
        let value: u8 = self.delay_timer.get_delay();
        self.store_and_advance(register, value);
    }

    /// `FX0A`: waits for the keypad to give a key and stores its code.
    fn get_key_value(&mut self, op_code: OpCode)
        requires
            old(self).wf(),
            old(self)@.fetchable(),
        ensures
            final(self).wf(),
            exists|key: u8| final(self)@ == old(self)@.get_key_value(op_code, key),
            final(self).screen_value() == old(self).screen_value(),
    {
        let register = get_reg_from_opcode(op_code);
        let key: u8 = self.key_input.get_key();
        self.store_and_advance(register, key);
        assert(self@ == old(self)@.get_key_value(op_code, key));
    }

    /// `FX15`: starts the delay timer at `Vx`, measured from `now`.
    fn set_delay_timer(&mut self, op_code: OpCode, now: u64)
        requires
            old(self).wf(),
            old(self)@.fetchable(),
        ensures
            old(self).becomes(final(self), old(self)@.set_delay_timer(op_code, now)),
    {
        let register = get_reg_from_opcode(op_code);
        self.delay_timer.start_at(self.registers[register], now);
        self.program_counter += CHIP8_PROGRAM_COUNTER_INC;
    }

    /// `FX18`: starts the sound timer at `Vx`, measured from `now`.
    fn set_sound_timer(&mut self, op_code: OpCode, now: u64)
        requires
            old(self).wf(),
            old(self)@.fetchable(),
        ensures
            old(self).becomes(final(self), old(self)@.set_sound_timer(op_code, now)),
    {
        let register = get_reg_from_opcode(op_code);
        self.sound_timer.start_at(self.registers[register], now);
        self.program_counter += CHIP8_PROGRAM_COUNTER_INC;
    }

    /// `FX1E`: the sum wraps at 65536 and VF takes the carry.
    fn add_reg_to_addr(&mut self, op_code: OpCode)
        requires
            old(self).wf(),
            old(self)@.fetchable(),
        ensures
            old(self).becomes(final(self), old(self)@.add_reg_to_addr(op_code)),
    {
        let register = get_reg_from_opcode(op_code);
        let sum: u32 = self.addr_register as u32 + self.registers[register] as u32;
        self.addr_register = (sum % 0x10000) as u16;
        self.registers[CHIP8_REGISTER_VF] = if sum > 0xFFFF {
            1
        } else {
            0
        };
        self.program_counter += CHIP8_PROGRAM_COUNTER_INC;
    }

    /// `FX29`: points `I` at the glyph for the low nibble of `Vx`.
    fn set_sprite_to_addr(&mut self, op_code: OpCode)
        requires
            old(self).wf(),
            old(self)@.fetchable(),
        ensures
            old(self).becomes(final(self), old(self)@.set_sprite_to_addr(op_code)),
    {
        let register = get_reg_from_opcode(op_code);
        let glyph: u16 = (self.registers[register] % 16) as u16;
        self.addr_register = CHIP8_FONT_START + CHIP8_FONT_GLYPH_SIZE * glyph;
        self.program_counter += CHIP8_PROGRAM_COUNTER_INC;
    }

    /// `FX33`: writes the three decimal digits of `Vx` at `I`.
    fn set_bcd(&mut self, op_code: OpCode) -> (result: Result<(), Chip8Error>)
        requires
            old(self).wf(),
            old(self)@.fetchable(),
        ensures
            old(self).becomes(final(self), final(self)@),
            outcome(old(self)@, final(self)@, result, old(self)@.set_bcd(op_code)),
    {
        let register = get_reg_from_opcode(op_code);
        let at: usize = self.addr_register as usize;
        if at + 2 >= CHIP8_MEMORY_SIZE {
            return Err(Chip8Error::AddressOutOfBounds);
        }
        let value: u8 = self.registers[register];
        self.memory[at] = value / 100;
        self.memory[at + 1] = (value / 10) % 10;
        self.memory[at + 2] = value % 10;
        self.program_counter += CHIP8_PROGRAM_COUNTER_INC;
        Ok(())
    }

    /// `FX55`: copies `V0` to `Vx` into memory at `I`.
    fn reg_dump(&mut self, op_code: OpCode) -> (result: Result<(), Chip8Error>)
        requires
            old(self).wf(),
            old(self)@.fetchable(),
        ensures
            old(self).becomes(final(self), final(self)@),
            outcome(old(self)@, final(self)@, result, old(self)@.reg_dump(op_code)),
    {
        let register = get_reg_from_opcode(op_code);
        let at: usize = self.addr_register as usize;
        if at + register >= CHIP8_MEMORY_SIZE {
            return Err(Chip8Error::AddressOutOfBounds);
        }
        let mut x: usize = 0;
        while x <= register
            invariant
                x <= register + 1,
                register < 16,
                at + register < 4096,
                at == old(self)@.addr_register,
                self.registers == old(self).registers,
                self.memory@.len() == 4096,
                forall|a: int|
                    0 <= a < 4096 ==> self.memory@[a] == if at <= a < at + x {
                        old(self).registers@[a - at]
                    } else {
                        old(self).memory@[a]
                    },
                old(self).becomes(
                    self,
                    MachineView { memory: self.memory@, ..old(self)@ },
                ),
            decreases register + 1 - x,
        {
            self.memory[at + x] = self.registers[x];
            x += 1;
        }
        self.program_counter += CHIP8_PROGRAM_COUNTER_INC;
        assert(self@.memory =~= old(self)@.reg_dump(op_code)->Ok_0.memory);
        Ok(())
    }

    /// `FX65`: fills `V0` to `Vx` from memory at `I`.
    fn reg_load(&mut self, op_code: OpCode) -> (result: Result<(), Chip8Error>)
        requires
            old(self).wf(),
            old(self)@.fetchable(),
        ensures
            old(self).becomes(final(self), final(self)@),
            outcome(old(self)@, final(self)@, result, old(self)@.reg_load(op_code)),
    {
        let register = get_reg_from_opcode(op_code);
        let at: usize = self.addr_register as usize;
        if at + register >= CHIP8_MEMORY_SIZE {
            return Err(Chip8Error::AddressOutOfBounds);
        }
        let mut x: usize = 0;
        while x <= register
            invariant
                x <= register + 1,
                register < 16,
                at + register < 4096,
                at == old(self)@.addr_register,
                self.memory == old(self).memory,
                self.registers@.len() == 16,
                forall|i: int|
                    0 <= i < 16 ==> self.registers@[i] == if i < x {
                        old(self).memory@[at + i]
                    } else {
                        old(self).registers@[i]
                    },
                old(self).becomes(
                    self,
                    MachineView { registers: self.registers@, ..old(self)@ },
                ),
            decreases register + 1 - x,
        {
            self.registers[x] = self.memory[at + x];
            x += 1;
        }
        self.program_counter += CHIP8_PROGRAM_COUNTER_INC;
        assert(self@.registers =~= old(self)@.reg_load(op_code)->Ok_0.registers);
        Ok(())
    }
}

/// Whether the sprite has a set bit on the pixel `p` in one of its first
/// `rows` rows, or in the first `cols` columns of the row after them.
spec fn sprite_bit_before(
    sprite: Seq<u8>,
    vx: u8,
    vy: u8,
    p: int,
    rows: int,
    cols: int,
) -> bool {
    &&& sprite_bit(sprite, vx, vy, p)
    &&& (sprite_row(vy, p) < rows || (sprite_row(vy, p) == rows && sprite_column(vx, p) < cols))
}

/// The state of a draw that has handled the first `rows` rows of the sprite
/// and the first `cols` columns of the next: `gfx` is the framebuffer
/// `before` with the pixels under the handled bits flipped, and `collision`
/// tells whether one of those pixels was lit.
spec fn drawn_so_far(
    before: Seq<u8>,
    gfx: Seq<u8>,
    collision: bool,
    sprite: Seq<u8>,
    vx: u8,
    vy: u8,
    rows: int,
    cols: int,
) -> bool {
    &&& before.len() == 2048
    &&& gfx.len() == 2048
    &&& forall|p: int| 0 <= p < 2048 ==> #[trigger] before[p] <= 1
    &&& forall|p: int| 0 <= p < 2048 ==> #[trigger] gfx[p] <= 1
    &&& forall|p: int|
        0 <= p < 2048 ==> #[trigger] gfx[p] == if sprite_bit_before(sprite, vx, vy, p, rows, cols) {
            before[p] ^ 1u8
        } else {
            before[p]
        }
    &&& collision <==> exists|p: int|
        0 <= p < 2048 && #[trigger] sprite_bit_before(sprite, vx, vy, p, rows, cols) && before[p]
            == 1
}

/// Handling a set bit: its pixel flips, and a lit pixel there is a
/// collision.
proof fn lemma_draw_one(
    before: Seq<u8>,
    gfx: Seq<u8>,
    collision: bool,
    sprite: Seq<u8>,
    vx: u8,
    vy: u8,
    row: int,
    col: int,
)
    requires
        drawn_so_far(before, gfx, collision, sprite, vx, vy, row, col),
        0 <= row < sprite.len(),
        sprite.len() < 16,
        0 <= col < 8,
        sprite[row] & (0x80u8 >> (col as u8)) != 0,
    ensures
        0 <= target_pixel(vx, vy, row, col) < 2048,
        gfx[target_pixel(vx, vy, row, col)] <= 1,
        drawn_so_far(
            before,
            gfx.update(
                target_pixel(vx, vy, row, col),
                gfx[target_pixel(vx, vy, row, col)] ^ 1u8,
            ),
            collision || gfx[target_pixel(vx, vy, row, col)] == 1,
            sprite,
            vx,
            vy,
            row,
            col + 1,
        ),
{
    let t = target_pixel(vx, vy, row, col);
    lemma_target_pixel(vx, vy, row, col);
    assert(sprite_row(vy, t) == row && sprite_column(vx, t) == col);
    assert(sprite_bit(sprite, vx, vy, t));
    assert(!sprite_bit_before(sprite, vx, vy, t, row, col));
    assert(sprite_bit_before(sprite, vx, vy, t, row, col + 1));
    assert(gfx[t] == before[t]);
    lemma_flip(gfx[t]);
    let after = gfx.update(t, gfx[t] ^ 1u8);
    let hit = collision || gfx[t] == 1;
    assert forall|p: int| 0 <= p < 2048 implies #[trigger] after[p] == if sprite_bit_before(
        sprite,
        vx,
        vy,
        p,
        row,
        col + 1,
    ) {
        before[p] ^ 1u8
    } else {
        before[p]
    } by {
        if p != t {
            assert(sprite_bit_before(sprite, vx, vy, p, row, col + 1) == sprite_bit_before(
                sprite,
                vx,
                vy,
                p,
                row,
                col,
            ));
        }
    }
    if hit {
        if gfx[t] == 1 {
            assert(sprite_bit_before(sprite, vx, vy, t, row, col + 1) && before[t] == 1);
        } else {
            let p = choose|p: int|
                0 <= p < 2048 && #[trigger] sprite_bit_before(sprite, vx, vy, p, row, col)
                    && before[p] == 1;
            assert(sprite_bit_before(sprite, vx, vy, p, row, col + 1) && before[p] == 1);
        }
    }
    if exists|p: int|
        0 <= p < 2048 && #[trigger] sprite_bit_before(sprite, vx, vy, p, row, col + 1) && before[p]
            == 1 {
        let p = choose|p: int|
            0 <= p < 2048 && #[trigger] sprite_bit_before(sprite, vx, vy, p, row, col + 1)
                && before[p] == 1;
        if p != t {
            assert(sprite_bit_before(sprite, vx, vy, p, row, col) && before[p] == 1);
        }
    }
}

/// Handling a clear bit changes nothing.
proof fn lemma_draw_none(
    before: Seq<u8>,
    gfx: Seq<u8>,
    collision: bool,
    sprite: Seq<u8>,
    vx: u8,
    vy: u8,
    row: int,
    col: int,
)
    requires
        drawn_so_far(before, gfx, collision, sprite, vx, vy, row, col),
        0 <= row < sprite.len(),
        sprite.len() < 16,
        0 <= col < 8,
        sprite[row] & (0x80u8 >> (col as u8)) == 0,
    ensures
        drawn_so_far(before, gfx, collision, sprite, vx, vy, row, col + 1),
{
    assert forall|p: int| 0 <= p < 2048 implies sprite_bit_before(
        sprite,
        vx,
        vy,
        p,
        row,
        col + 1,
    ) == sprite_bit_before(sprite, vx, vy, p, row, col) by {}
    if collision {
        let p = choose|p: int|
            0 <= p < 2048 && #[trigger] sprite_bit_before(sprite, vx, vy, p, row, col)
                && before[p] == 1;
        assert(sprite_bit_before(sprite, vx, vy, p, row, col + 1) && before[p] == 1);
    }
    if exists|p: int|
        0 <= p < 2048 && #[trigger] sprite_bit_before(sprite, vx, vy, p, row, col + 1) && before[p]
            == 1 {
        let p = choose|p: int|
            0 <= p < 2048 && #[trigger] sprite_bit_before(sprite, vx, vy, p, row, col + 1)
                && before[p] == 1;
        assert(sprite_bit_before(sprite, vx, vy, p, row, col) && before[p] == 1);
    }
}

/// A row whose eight columns are handled is a handled row.
proof fn lemma_draw_row_done(
    before: Seq<u8>,
    gfx: Seq<u8>,
    collision: bool,
    sprite: Seq<u8>,
    vx: u8,
    vy: u8,
    row: int,
)
    requires
        drawn_so_far(before, gfx, collision, sprite, vx, vy, row, 8),
    ensures
        drawn_so_far(before, gfx, collision, sprite, vx, vy, row + 1, 0),
{
    assert forall|p: int| 0 <= p < 2048 implies sprite_bit_before(
        sprite,
        vx,
        vy,
        p,
        row + 1,
        0,
    ) == sprite_bit_before(sprite, vx, vy, p, row, 8) by {}
    if collision {
        let p = choose|p: int|
            0 <= p < 2048 && #[trigger] sprite_bit_before(sprite, vx, vy, p, row, 8) && before[p]
                == 1;
        assert(sprite_bit_before(sprite, vx, vy, p, row + 1, 0) && before[p] == 1);
    }
    if exists|p: int|
        0 <= p < 2048 && #[trigger] sprite_bit_before(sprite, vx, vy, p, row + 1, 0) && before[p]
            == 1 {
        let p = choose|p: int|
            0 <= p < 2048 && #[trigger] sprite_bit_before(sprite, vx, vy, p, row + 1, 0)
                && before[p] == 1;
        assert(sprite_bit_before(sprite, vx, vy, p, row, 8) && before[p] == 1);
    }
}

/// A draw that has handled every row has drawn the sprite.
proof fn lemma_draw_done(
    before: Seq<u8>,
    gfx: Seq<u8>,
    collision: bool,
    sprite: Seq<u8>,
    vx: u8,
    vy: u8,
)
    requires
        drawn_so_far(before, gfx, collision, sprite, vx, vy, sprite.len() as int, 0),
    ensures
        gfx == xor_sprite(before, sprite, vx, vy),
        collision == collides(before, sprite, vx, vy),
{
    let rows = sprite.len() as int;
    assert forall|p: int| 0 <= p < 2048 implies sprite_bit_before(sprite, vx, vy, p, rows, 0)
        == sprite_bit(sprite, vx, vy, p) by {}
    assert(gfx =~= xor_sprite(before, sprite, vx, vy));
    if collision {
        let p = choose|p: int|
            0 <= p < 2048 && #[trigger] sprite_bit_before(sprite, vx, vy, p, rows, 0) && before[p]
                == 1;
        assert(sprite_bit(sprite, vx, vy, p) && before[p] == 1);
    }
    if collides(before, sprite, vx, vy) {
        let p = choose|p: int|
            0 <= p < before.len() && sprite_bit(sprite, vx, vy, p) && before[p] == 1;
        assert(sprite_bit_before(sprite, vx, vy, p, rows, 0) && before[p] == 1);
    }
}

} // verus!
