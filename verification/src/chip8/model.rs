//! The mathematical model of the machine: what a state is, and what each
//! instruction makes of it.

use crate::chip8::error::Chip8Error;
use crate::chip8::opcodes::{addr_of, family_of, imm4_of, imm8_of, reg_x_of, reg_y_of};
use crate::chip8::timer::{TimerView, MICROS_PER_SECOND};
use vstd::prelude::*;

verus! {

/// Where the run loop stands.
#[derive(Clone, Copy, Debug, PartialEq, Eq, Structural)]
pub enum RunState {
    /// Created; the program counter is not set yet.
    Uninitialized,
    /// Font and program are in memory and the program counter is at the
    /// program's first instruction.
    Ready,
    /// At least one cycle has run.
    Running,
    /// A fatal condition stopped the machine for good.
    Halted(Chip8Error),
}

/// What the keypad answered during one instruction: whether the key that was
/// asked about is down, and which key a wait for a key press gave.
pub struct KeyReading {
    pub pressed: bool,
    pub key: u8,
}

/// The state of the machine as plain mathematical values.
pub struct MachineView {
    /// The registers V0 to VF.
    pub registers: Seq<u8>,
    /// The index register I.
    pub addr_register: u16,
    /// The program counter.
    pub program_counter: u16,
    /// The return addresses that are on the call stack, oldest first.
    pub stack: Seq<u16>,
    /// The 4096 bytes of memory.
    pub memory: Seq<u8>,
    /// The 2048 pixels, row after row, each 0 or 1.
    pub gfx: Seq<u8>,
    /// The delay timer.
    pub delay_timer: TimerView,
    /// The sound timer.
    pub sound_timer: TimerView,
    /// The instruction rate, in Hz.
    pub clock_speed: u16,
    /// The instant at which the previous cycle was due to be complete.
    pub last_instruction_time: Option<u64>,
    /// The state of the random source.
    pub random_state: u16,
    /// The length of the program that was loaded last.
    pub rom_size: u16,
    /// Where the run loop stands.
    pub state: RunState,
}

/// The built-in font: five bytes for each of the glyphs 0 to F.
pub open spec fn font_set() -> Seq<u8> {
    seq![
        0xF0u8, 0x90u8, 0x90u8, 0x90u8, 0xF0u8,
        0x20u8, 0x60u8, 0x20u8, 0x20u8, 0x70u8,
        0xF0u8, 0x10u8, 0xF0u8, 0x80u8, 0xF0u8,
        0xF0u8, 0x10u8, 0xF0u8, 0x10u8, 0xF0u8,
        0x90u8, 0x90u8, 0xF0u8, 0x10u8, 0x10u8,
        0xF0u8, 0x80u8, 0xF0u8, 0x10u8, 0xF0u8,
        0xF0u8, 0x80u8, 0xF0u8, 0x90u8, 0xF0u8,
        0xF0u8, 0x10u8, 0x20u8, 0x40u8, 0x40u8,
        0xF0u8, 0x90u8, 0xF0u8, 0x90u8, 0xF0u8,
        0xF0u8, 0x90u8, 0xF0u8, 0x10u8, 0xF0u8,
        0xF0u8, 0x90u8, 0xF0u8, 0x90u8, 0x90u8,
        0xE0u8, 0x90u8, 0xE0u8, 0x90u8, 0xE0u8,
        0xF0u8, 0x80u8, 0x80u8, 0x80u8, 0xF0u8,
        0xE0u8, 0x90u8, 0x90u8, 0x90u8, 0xE0u8,
        0xF0u8, 0x80u8, 0xF0u8, 0x80u8, 0xF0u8,
        0xF0u8, 0x80u8, 0xF0u8, 0x80u8, 0x80u8,
    ]
}

/// One step of the random source: a 16-bit xorshift with shifts 7, 9, 8.
pub open spec fn next_random(state: u16) -> u16 {
    let a: u16 = state ^ (state << 7);
    let b: u16 = a ^ (a >> 9);
    b ^ (b << 8)
}

/// The byte that the random source hands out in the state `state`.
pub open spec fn random_byte(state: u16) -> u8 {
    (state & 0x00FF) as u8
}

/// The column of the sprite that falls on the pixel `p`, counted from the
/// sprite's left edge at `vx`, wrapping at 64.
pub open spec fn sprite_column(vx: u8, p: int) -> int {
    ((p % 64) - vx) % 64
}

/// The row of the sprite that falls on the pixel `p`, counted from the
/// sprite's top edge at `vy`, wrapping at 32.
pub open spec fn sprite_row(vy: u8, p: int) -> int {
    ((p / 64) - vy) % 32
}

/// The pixel that the bit in row `row` and column `col` of a sprite at
/// (`vx`, `vy`) falls on.
pub open spec fn target_pixel(vx: u8, vy: u8, row: int, col: int) -> int {
    (vx + col) % 64 + ((vy + row) % 32) * 64
}

/// Whether the sprite `sprite`, drawn with its top left corner at
/// (`vx`, `vy`), has a set bit on the pixel `p`. Columns wrap at 64 and
/// rows at 32; the leftmost pixel of a row is the byte's top bit.
pub open spec fn sprite_bit(sprite: Seq<u8>, vx: u8, vy: u8, p: int) -> bool {
    let col = sprite_column(vx, p);
    let row = sprite_row(vy, p);
    &&& col < 8
    &&& row < sprite.len()
    &&& sprite[row] & (0x80u8 >> (col as u8)) != 0
}


/// The framebuffer after the sprite has been drawn: each pixel that the
/// sprite has a set bit on is XORed with 1.
pub open spec fn xor_sprite(gfx: Seq<u8>, sprite: Seq<u8>, vx: u8, vy: u8) -> Seq<u8> {
    Seq::new(
        gfx.len(),
        |p: int|
            if sprite_bit(sprite, vx, vy, p) {
                gfx[p] ^ 1u8
            } else {
                gfx[p]
            },
    )
}

/// Whether drawing the sprite turns a lit pixel off.
pub open spec fn collides(gfx: Seq<u8>, sprite: Seq<u8>, vx: u8, vy: u8) -> bool {
    exists|p: int| 0 <= p < gfx.len() && sprite_bit(sprite, vx, vy, p) && gfx[p] == 1
}

/// How a fallible operation ends: with the state it is to make and `Ok`,
/// or with its error and the state as it was.
pub open spec fn outcome(
    before: MachineView,
    after: MachineView,
    result: Result<(), Chip8Error>,
    expected: Result<MachineView, Chip8Error>,
) -> bool {
    match expected {
        Ok(state) => result is Ok && after == state,
        Err(error) => result == Err::<(), Chip8Error>(error) && after == before,
    }
}

/// The flag value for a condition: 1 or 0.
pub open spec fn flag(b: bool) -> u8 {
    if b {
        1u8
    } else {
        0u8
    }
}

/// Whether the instruction hands something to the screen: the clear and
/// the draw instruction do.
pub open spec fn touches_screen(opcode: u16) -> bool {
    opcode == 0x00E0 || family_of(opcode) == 0xD
}

/// Whether the instruction waits for a key press.
pub open spec fn waits_for_key(opcode: u16) -> bool {
    family_of(opcode) == 0xF && imm8_of(opcode) == 0x0A
}

impl MachineView {
    /// The validity of a state: the sizes of its parts, pixels that are 0 or
    /// 1, a call stack within its capacity whose entries are addresses that
    /// an instruction was fetched from, a program counter no further than
    /// the furthest jump reaches (0xFFF + 0xFF), and settings in range.
    pub open spec fn wf(self) -> bool {
        &&& self.registers.len() == 16
        &&& self.program_counter <= 0x10FE
        &&& self.memory.len() == 4096
        &&& self.gfx.len() == 2048
        &&& forall|p: int| 0 <= p < 2048 ==> #[trigger] self.gfx[p] <= 1
        &&& self.stack.len() <= 16
        &&& forall|i: int| 0 <= i < self.stack.len() ==> #[trigger] self.stack[i] + 1 < 4096
        &&& self.clock_speed != 0
        &&& self.random_state != 0
        &&& self.rom_size <= 3072
    }

    /// The state of a machine that was just created.
    pub open spec fn fresh() -> MachineView {
        MachineView {
            registers: Seq::new(16, |i: int| 0u8),
            addr_register: 0,
            program_counter: 0,
            stack: Seq::empty(),
            memory: Seq::new(4096, |i: int| 0u8),
            gfx: Seq::new(2048, |i: int| 0u8),
            delay_timer: TimerView::idle(),
            sound_timer: TimerView::idle(),
            clock_speed: 500,
            last_instruction_time: None,
            random_state: 0xACE1,
            rom_size: 0,
            state: RunState::Uninitialized,
        }
    }

    /// The value of the register that the `X` field names.
    pub open spec fn vx(self, opcode: u16) -> u8 {
        self.registers[reg_x_of(opcode)]
    }

    /// The value of the register that the `Y` field names.
    pub open spec fn vy(self, opcode: u16) -> u8 {
        self.registers[reg_y_of(opcode)]
    }

    /// Whether the program counter addresses two bytes inside memory.
    pub open spec fn fetchable(self) -> bool {
        self.program_counter + 1 < 4096
    }

    /// The instruction word at the program counter: high byte first.
    pub open spec fn fetched(self) -> u16 {
        (256 * self.memory[self.program_counter as int] + self.memory[self.program_counter
            + 1]) as u16
    }

    /// The state with the program counter moved on by `by` bytes.
    pub open spec fn advanced_by(self, by: int) -> MachineView {
        MachineView { program_counter: (self.program_counter + by) as u16, ..self }
    }

    /// The state with the program counter on the next instruction.
    pub open spec fn advanced(self) -> MachineView {
        self.advanced_by(2)
    }

    /// The state with the program counter past the next instruction if
    /// `skip` holds, and on it otherwise.
    pub open spec fn skipped_if(self, skip: bool) -> MachineView {
        if skip {
            self.advanced_by(4)
        } else {
            self.advanced_by(2)
        }
    }

    /// The state with `value` in register `reg`.
    pub open spec fn with_register(self, reg: int, value: u8) -> MachineView {
        MachineView { registers: self.registers.update(reg, value), ..self }
    }

    /// The state with `value` in register `reg` and then, as the last
    /// effect, the flag for `carry` in VF.
    pub open spec fn with_register_and_flag(self, reg: int, value: u8, carry: bool) -> MachineView {
        MachineView {
            registers: self.registers.update(reg, value).update(0xF, flag(carry)),
            ..self
        }
    }

    /// The state with every register at zero.
    pub open spec fn with_registers_cleared(self) -> MachineView {
        MachineView { registers: Seq::new(16, |i: int| 0u8), ..self }
    }

    /// The state stopped for good by `error`.
    pub open spec fn halted(self, error: Chip8Error) -> MachineView {
        MachineView { state: RunState::Halted(error), ..self }
    }

    /// `00E0`: every pixel off.
    pub open spec fn clear_screen(self) -> MachineView {
        MachineView { gfx: Seq::new(2048, |p: int| 0u8), ..self }.advanced()
    }

    /// `00EE`: back to the instruction after the latest call.
    pub open spec fn return_from_subroutine(self) -> Result<MachineView, Chip8Error> {
        if self.stack.len() == 0 {
            Err(Chip8Error::StackUnderflow)
        } else {
            Ok(
                MachineView {
                    program_counter: (self.stack.last() + 2) as u16,
                    stack: self.stack.drop_last(),
                    ..self
                },
            )
        }
    }

    /// `1NNN`: jump to `NNN`.
    pub open spec fn goto(self, opcode: u16) -> MachineView {
        MachineView { program_counter: addr_of(opcode), ..self }
    }

    /// `2NNN`: remember the program counter and jump to `NNN`.
    pub open spec fn call_subroutine(self, opcode: u16) -> Result<MachineView, Chip8Error> {
        if self.stack.len() >= 16 {
            Err(Chip8Error::StackOverflow)
        } else {
            Ok(
                MachineView {
                    program_counter: addr_of(opcode),
                    stack: self.stack.push(self.program_counter),
                    ..self
                },
            )
        }
    }

    /// `3XNN`: skip the next instruction if `Vx == NN`.
    pub open spec fn if_eq_const_skip(self, opcode: u16) -> MachineView {
        self.skipped_if(self.vx(opcode) == imm8_of(opcode))
    }

    /// `4XNN`: skip the next instruction if `Vx != NN`.
    pub open spec fn if_neq_const_skip(self, opcode: u16) -> MachineView {
        self.skipped_if(self.vx(opcode) != imm8_of(opcode))
    }

    /// `5XY0`: skip the next instruction if `Vx == Vy`.
    pub open spec fn if_eq_reg_skip(self, opcode: u16) -> MachineView {
        self.skipped_if(self.vx(opcode) == self.vy(opcode))
    }

    /// `6XNN`: `Vx = NN`.
    pub open spec fn set_reg(self, opcode: u16) -> MachineView {
        self.with_register(reg_x_of(opcode), imm8_of(opcode)).advanced()
    }

    /// `7XNN`: `Vx = (Vx + NN) mod 256`; VF is left alone.
    pub open spec fn add_const_to_reg(self, opcode: u16) -> MachineView {
        self.with_register(
            reg_x_of(opcode),
            ((self.vx(opcode) + imm8_of(opcode)) % 256) as u8,
        ).advanced()
    }

    /// `8XY0`: `Vx = Vy`.
    pub open spec fn copy_reg(self, opcode: u16) -> MachineView {
        self.with_register(reg_x_of(opcode), self.vy(opcode)).advanced()
    }

    /// `8XY1`: `Vx = Vx | Vy`.
    pub open spec fn or_reg(self, opcode: u16) -> MachineView {
        self.with_register(reg_x_of(opcode), self.vx(opcode) | self.vy(opcode)).advanced()
    }

    /// `8XY2`: `Vx = Vx & Vy`.
    pub open spec fn and_reg(self, opcode: u16) -> MachineView {
        self.with_register(reg_x_of(opcode), self.vx(opcode) & self.vy(opcode)).advanced()
    }

    /// `8XY3`: `Vx = Vx ^ Vy`.
    pub open spec fn xor_reg(self, opcode: u16) -> MachineView {
        self.with_register(reg_x_of(opcode), self.vx(opcode) ^ self.vy(opcode)).advanced()
    }

    /// `8XY4`: `Vx = (Vx + Vy) mod 256`, then VF = 1 if the sum is over 255,
    /// else 0.
    pub open spec fn add_reg_to_reg(self, opcode: u16) -> MachineView {
        let sum = self.vx(opcode) + self.vy(opcode);
        self.with_register_and_flag(reg_x_of(opcode), (sum % 256) as u8, sum > 255).advanced()
    }

    /// `8XY5`: `Vx = (Vx - Vy) mod 256`, then VF = 1 if `Vx >= Vy` held
    /// before, else 0.
    pub open spec fn sub_reg1_to_reg0(self, opcode: u16) -> MachineView {
        let difference = self.vx(opcode) - self.vy(opcode);
        self.with_register_and_flag(
            reg_x_of(opcode),
            (difference % 256) as u8,
            self.vx(opcode) >= self.vy(opcode),
        ).advanced()
    }

    /// `8XY6`: `Vx = Vx / 2`, then VF = the bit that fell off.
    pub open spec fn shift_right_reg(self, opcode: u16) -> MachineView {
        self.with_register_and_flag(
            reg_x_of(opcode),
            (self.vx(opcode) / 2) as u8,
            self.vx(opcode) % 2 == 1,
        ).advanced()
    }

    /// `8XY7`: `Vx = (Vy - Vx) mod 256`, then VF = 1 if `Vy >= Vx` held
    /// before, else 0.
    pub open spec fn sub_reg0_to_reg1(self, opcode: u16) -> MachineView {
        let difference = self.vy(opcode) - self.vx(opcode);
        self.with_register_and_flag(
            reg_x_of(opcode),
            (difference % 256) as u8,
            self.vy(opcode) >= self.vx(opcode),
        ).advanced()
    }

    /// `8XYE`: `Vx = (2 * Vx) mod 256`, then VF = the bit that fell off.
    pub open spec fn shift_left_reg(self, opcode: u16) -> MachineView {
        self.with_register_and_flag(
            reg_x_of(opcode),
            ((2 * self.vx(opcode)) % 256) as u8,
            self.vx(opcode) >= 128,
        ).advanced()
    }

    /// `9XY0`: skip the next instruction if `Vx != Vy`.
    pub open spec fn if_neq_reg_skip(self, opcode: u16) -> MachineView {
        self.skipped_if(self.vx(opcode) != self.vy(opcode))
    }

    /// `ANNN`: `I = NNN`.
    pub open spec fn set_addr(self, opcode: u16) -> MachineView {
        MachineView { addr_register: addr_of(opcode), ..self }.advanced()
    }

    /// `BNNN`: jump to `V0 + NNN`.
    pub open spec fn jump_to_addr(self, opcode: u16) -> MachineView {
        MachineView { program_counter: (self.registers[0] + addr_of(opcode)) as u16, ..self }
    }

    /// `CXNN`: the random source steps once and `Vx` is its byte, masked
    /// with `NN`.
    pub open spec fn rand(self, opcode: u16) -> MachineView {
        let state = next_random(self.random_state);
        MachineView {
            random_state: state,
            registers: self.registers.update(
                reg_x_of(opcode),
                random_byte(state) & imm8_of(opcode),
            ),
            ..self
        }.advanced()
    }

    /// The rows of the sprite of `DXYN`: the `N` bytes at `I`.
    pub open spec fn sprite(self, opcode: u16) -> Seq<u8> {
        self.memory.subrange(self.addr_register as int, self.addr_register + imm4_of(opcode))
    }

    /// `DXYN`: the sprite at `I` is XORed onto the screen at (`Vx`, `Vy`),
    /// then VF = 1 if a lit pixel went off, else 0. Fails if the sprite's
    /// rows are not all inside memory.
    pub open spec fn draw(self, opcode: u16) -> Result<MachineView, Chip8Error> {
        if self.addr_register + imm4_of(opcode) > 4096 {
            Err(Chip8Error::AddressOutOfBounds)
        } else {
            let sprite = self.sprite(opcode);
            let vx = self.vx(opcode);
            let vy = self.vy(opcode);
            Ok(
                MachineView {
                    gfx: xor_sprite(self.gfx, sprite, vx, vy),
                    registers: self.registers.update(
                        0xF,
                        flag(collides(self.gfx, sprite, vx, vy)),
                    ),
                    ..self
                }.advanced(),
            )
        }
    }

    /// Whether `Vx` names a key of the keypad.
    pub open spec fn names_key(self, opcode: u16) -> bool {
        self.vx(opcode) < 16
    }

    /// `EX9E`: skip the next instruction if the key `Vx` is down. A value
    /// over 0xF names no key, and no key is never down.
    pub open spec fn if_eq_key_skip(self, opcode: u16, pressed: bool) -> MachineView {
        self.skipped_if(self.names_key(opcode) && pressed)
    }

    /// `EXA1`: skip the next instruction if the key `Vx` is not down.
    pub open spec fn if_neq_key_skip(self, opcode: u16, pressed: bool) -> MachineView {
        self.skipped_if(!(self.names_key(opcode) && pressed))
    }

    /// `FX07`: `Vx` = the count of the delay timer.
    pub open spec fn get_delay_timer_value(self, opcode: u16) -> MachineView {
        self.with_register(reg_x_of(opcode), self.delay_timer.value).advanced()
    }

    /// `FX0A`: `Vx` = the key that was pressed.
    pub open spec fn get_key_value(self, opcode: u16, key: u8) -> MachineView {
        self.with_register(reg_x_of(opcode), key).advanced()
    }

    /// `FX15`: the delay timer starts at `Vx`.
    pub open spec fn set_delay_timer(self, opcode: u16, now: u64) -> MachineView {
        MachineView { delay_timer: TimerView::started(self.vx(opcode), now), ..self }.advanced()
    }

    /// `FX18`: the sound timer starts at `Vx`.
    pub open spec fn set_sound_timer(self, opcode: u16, now: u64) -> MachineView {
        MachineView { sound_timer: TimerView::started(self.vx(opcode), now), ..self }.advanced()
    }

    /// `FX1E`: `I = (I + Vx) mod 65536`, then VF = 1 if the sum is over
    /// 65535, else 0.
    pub open spec fn add_reg_to_addr(self, opcode: u16) -> MachineView {
        let sum = self.addr_register + self.vx(opcode);
        MachineView {
            addr_register: (sum % 0x10000) as u16,
            registers: self.registers.update(0xF, flag(sum > 0xFFFF)),
            ..self
        }.advanced()
    }

    /// `FX29`: `I` = the address of the glyph for the low nibble of `Vx`.
    pub open spec fn set_sprite_to_addr(self, opcode: u16) -> MachineView {
        MachineView {
            addr_register: (0x050 + 5 * (self.vx(opcode) % 16)) as u16,
            ..self
        }.advanced()
    }

    /// `FX33`: the hundreds, tens and units of `Vx` go to `I`, `I + 1` and
    /// `I + 2`. Fails if these are not all inside memory.
    pub open spec fn set_bcd(self, opcode: u16) -> Result<MachineView, Chip8Error> {
        if self.addr_register + 2 >= 4096 {
            Err(Chip8Error::AddressOutOfBounds)
        } else {
            let value = self.vx(opcode);
            let at = self.addr_register as int;
            Ok(
                MachineView {
                    memory: self.memory.update(at, (value / 100) as u8).update(
                        at + 1,
                        ((value / 10) % 10) as u8,
                    ).update(at + 2, (value % 10) as u8),
                    ..self
                }.advanced(),
            )
        }
    }

    /// `FX55`: the registers `V0` to `Vx` go to memory at `I` and after.
    /// Fails if these bytes are not all inside memory.
    pub open spec fn reg_dump(self, opcode: u16) -> Result<MachineView, Chip8Error> {
        if self.addr_register + reg_x_of(opcode) >= 4096 {
            Err(Chip8Error::AddressOutOfBounds)
        } else {
            let at = self.addr_register as int;
            Ok(
                MachineView {
                    memory: Seq::new(
                        4096,
                        |a: int|
                            if at <= a <= at + reg_x_of(opcode) {
                                self.registers[a - at]
                            } else {
                                self.memory[a]
                            },
                    ),
                    ..self
                }.advanced(),
            )
        }
    }

    /// `FX65`: the registers `V0` to `Vx` are read from memory at `I` and
    /// after. Fails if these bytes are not all inside memory.
    pub open spec fn reg_load(self, opcode: u16) -> Result<MachineView, Chip8Error> {
        if self.addr_register + reg_x_of(opcode) >= 4096 {
            Err(Chip8Error::AddressOutOfBounds)
        } else {
            let at = self.addr_register as int;
            Ok(
                MachineView {
                    registers: Seq::new(
                        16,
                        |i: int|
                            if i <= reg_x_of(opcode) {
                                self.memory[at + i]
                            } else {
                                self.registers[i]
                            },
                    ),
                    ..self
                }.advanced(),
            )
        }
    }

    /// What one instruction makes of the state: the family is the first
    /// nibble, and the families 0, 8, E and F are told apart further by
    /// their low bits. A word that belongs to no instruction fails.
    pub open spec fn execute_opcode(self, opcode: u16, now: u64, keys: KeyReading) -> Result<
        MachineView,
        Chip8Error,
    > {
        let family = family_of(opcode);
        let low = imm8_of(opcode);
        let nibble = imm4_of(opcode);
        if opcode == 0x00E0 {
            Ok(self.clear_screen())
        } else if opcode == 0x00EE {
            self.return_from_subroutine()
        } else if family == 0x1 {
            Ok(self.goto(opcode))
        } else if family == 0x2 {
            self.call_subroutine(opcode)
        } else if family == 0x3 {
            Ok(self.if_eq_const_skip(opcode))
        } else if family == 0x4 {
            Ok(self.if_neq_const_skip(opcode))
        } else if family == 0x5 {
            Ok(self.if_eq_reg_skip(opcode))
        } else if family == 0x6 {
            Ok(self.set_reg(opcode))
        } else if family == 0x7 {
            Ok(self.add_const_to_reg(opcode))
        } else if family == 0x8 && nibble == 0x0 {
            Ok(self.copy_reg(opcode))
        } else if family == 0x8 && nibble == 0x1 {
            Ok(self.or_reg(opcode))
        } else if family == 0x8 && nibble == 0x2 {
            Ok(self.and_reg(opcode))
        } else if family == 0x8 && nibble == 0x3 {
            Ok(self.xor_reg(opcode))
        } else if family == 0x8 && nibble == 0x4 {
            Ok(self.add_reg_to_reg(opcode))
        } else if family == 0x8 && nibble == 0x5 {
            Ok(self.sub_reg1_to_reg0(opcode))
        } else if family == 0x8 && nibble == 0x6 {
            Ok(self.shift_right_reg(opcode))
        } else if family == 0x8 && nibble == 0x7 {
            Ok(self.sub_reg0_to_reg1(opcode))
        } else if family == 0x8 && nibble == 0xE {
            Ok(self.shift_left_reg(opcode))
        } else if family == 0x9 {
            Ok(self.if_neq_reg_skip(opcode))
        } else if family == 0xA {
            Ok(self.set_addr(opcode))
        } else if family == 0xB {
            Ok(self.jump_to_addr(opcode))
        } else if family == 0xC {
            Ok(self.rand(opcode))
        } else if family == 0xD {
            self.draw(opcode)
        } else if family == 0xE && low == 0x9E {
            Ok(self.if_eq_key_skip(opcode, keys.pressed))
        } else if family == 0xE && low == 0xA1 {
            Ok(self.if_neq_key_skip(opcode, keys.pressed))
        } else if family == 0xF && low == 0x07 {
            Ok(self.get_delay_timer_value(opcode))
        } else if family == 0xF && low == 0x0A {
            Ok(self.get_key_value(opcode, keys.key))
        } else if family == 0xF && low == 0x15 {
            Ok(self.set_delay_timer(opcode, now))
        } else if family == 0xF && low == 0x18 {
            Ok(self.set_sound_timer(opcode, now))
        } else if family == 0xF && low == 0x1E {
            Ok(self.add_reg_to_addr(opcode))
        } else if family == 0xF && low == 0x29 {
            Ok(self.set_sprite_to_addr(opcode))
        } else if family == 0xF && low == 0x33 {
            self.set_bcd(opcode)
        } else if family == 0xF && low == 0x55 {
            self.reg_dump(opcode)
        } else if family == 0xF && low == 0x65 {
            self.reg_load(opcode)
        } else {
            Err(Chip8Error::UnknownOpcode(opcode))
        }
    }

    /// The least time that one cycle takes, in microseconds.
    pub open spec fn cycle_interval(self) -> int {
        MICROS_PER_SECOND as int / self.clock_speed as int
    }

    /// How long the host has to wait at `now` so that the cycle is not over
    /// before one interval has passed since the previous one: the rest of
    /// the interval, and nothing after a first cycle or a cycle that ran
    /// long. A clock that went backwards counts as no time passed.
    pub open spec fn pacing_delay(self, now: u64) -> int {
        match self.last_instruction_time {
            None => 0,
            Some(last) => {
                let elapsed = if now >= last {
                    now - last
                } else {
                    0
                };
                if elapsed < self.cycle_interval() {
                    self.cycle_interval() - elapsed
                } else {
                    0
                }
            },
        }
    }

    /// The state after pacing at `now`: the cycle counts as complete once
    /// the delay is over.
    pub open spec fn paced(self, now: u64) -> MachineView {
        let done = now + self.pacing_delay(now);
        MachineView {
            last_instruction_time: Some(
                if done > u64::MAX {
                    u64::MAX
                } else {
                    done as u64
                },
            ),
            ..self
        }
    }

    /// The state with both timers updated at `now`.
    pub open spec fn timers_ticked(self, now: u64) -> MachineView {
        MachineView {
            delay_timer: self.delay_timer.ticked(now),
            sound_timer: self.sound_timer.ticked(now),
            ..self
        }
    }

    /// The state with the font in memory at 0x050 to 0x09F.
    pub open spec fn load_fontset(self) -> MachineView {
        MachineView {
            memory: Seq::new(
                4096,
                |a: int|
                    if 0x050 <= a < 0x0A0 {
                        font_set()[a - 0x050]
                    } else {
                        self.memory[a]
                    },
            ),
            ..self
        }
    }

    /// Loading the program `rom`: its bytes go to memory at 0x200 and after.
    /// Fails, with nothing changed, if it is longer than 3072 bytes.
    pub open spec fn load_rom(self, rom: Seq<u8>) -> Result<MachineView, Chip8Error> {
        if rom.len() > 3072 {
            Err(Chip8Error::RomTooLarge)
        } else {
            Ok(
                MachineView {
                    memory: Seq::new(
                        4096,
                        |a: int|
                            if 0x200 <= a < 0x200 + rom.len() {
                                rom[a - 0x200]
                            } else {
                                self.memory[a]
                            },
                    ),
                    rom_size: rom.len() as u16,
                    ..self
                },
            )
        }
    }

    /// Getting ready to run: a halted machine stays as it is; without a
    /// program the machine halts; otherwise the font is loaded and the
    /// program counter is set to 0x200.
    pub open spec fn init(self) -> (MachineView, Result<(), Chip8Error>) {
        match self.state {
            RunState::Halted(error) => (self, Err(error)),
            _ => if self.rom_size == 0 {
                (self.load_fontset().halted(Chip8Error::NoRom), Err(Chip8Error::NoRom))
            } else {
                (
                    MachineView {
                        program_counter: 0x200,
                        state: RunState::Ready,
                        ..self.load_fontset()
                    },
                    Ok(()),
                )
            },
        }
    }

    /// One cycle at the instant `now`, with the keypad answering `keys`:
    /// fetch, execute, pace, update both timers. The result is the time
    /// that the host has to wait, in microseconds. A halted machine stays
    /// as it is, and a fatal condition halts the machine with the state
    /// otherwise as before the cycle.
    pub open spec fn step(self, now: u64, keys: KeyReading) -> (
        MachineView,
        Result<u64, Chip8Error>,
    ) {
        match self.state {
            RunState::Halted(error) => (self, Err(error)),
            _ => if self.rom_size == 0 {
                (self.halted(Chip8Error::NoRom), Err(Chip8Error::NoRom))
            } else if !self.fetchable() {
                (
                    self.halted(Chip8Error::FetchOutOfBounds),
                    Err(Chip8Error::FetchOutOfBounds),
                )
            } else {
                match self.execute_opcode(self.fetched(), now, keys) {
                    Err(error) => (self.halted(error), Err(error)),
                    Ok(executed) => (
                        MachineView {
                            state: RunState::Running,
                            ..executed.paced(now).timers_ticked(now)
                        },
                        Ok(executed.pacing_delay(now) as u64),
                    ),
                }
            },
        }
    }
}

} // verus!
