//! The virtual machine and its run loop.

use vstd::prelude::*;

pub mod clock;
pub mod constants;
pub mod cpu;
pub mod display;
pub mod error;
pub mod input;
pub mod laws;
pub mod memory;
pub mod model;
pub mod opcodes;
pub mod timer;
pub mod types;

pub use crate::chip8::display::Display;
pub use crate::chip8::input::KeyInput;

use crate::chip8::clock::now_micros;
use crate::chip8::constants::{
    CHIP8_CPU_CLOCK_SPEED, CHIP8_MEMORY_SIZE, CHIP8_MEMORY_START, CHIP8_RANDOM_SEED,
};
use crate::chip8::error::Chip8Error;
use crate::chip8::model::{KeyReading, MachineView, RunState};
use crate::chip8::types::OpCode;
use crate::chip8::timer::Timer;
use crate::chip8::types::Address;

verus! {

/// The machine: its state, and the screen and keypad it talks to.
pub struct Chip8<Screen, Input> where Screen: Display, Input: KeyInput {
    // CPU
    registers: [u8; 16],
    addr_register: Address,
    program_counter: Address,
    clock_speed: u16,
    last_instruction_time: Option<u64>,
    random_state: u16,
    // Memory
    memory: [u8; 4096],
    rom_size: u16,
    // Stack
    stack: [Address; 16],
    stack_ptr: usize,
    // Screen
    gfx: [u8; 2048],
    pub screen: Screen,
    // Timers
    delay_timer: Timer,
    sound_timer: Timer,
    // Input
    pub key_input: Input,
    // Run loop
    state: RunState,
}

impl<Screen, Input> View for Chip8<Screen, Input> where Screen: Display, Input: KeyInput {
    type V = MachineView;

    closed spec fn view(&self) -> MachineView {
        MachineView {
            registers: self.registers@,
            addr_register: self.addr_register,
            program_counter: self.program_counter,
            stack: self.stack@.take(self.stack_ptr as int),
            memory: self.memory@,
            gfx: self.gfx@,
            delay_timer: self.delay_timer@,
            sound_timer: self.sound_timer@,
            clock_speed: self.clock_speed,
            last_instruction_time: self.last_instruction_time,
            random_state: self.random_state,
            rom_size: self.rom_size,
            state: self.state,
        }
    }
}

impl<Screen, Input> Chip8<Screen, Input> where Screen: Display, Input: KeyInput {
    /// The validity of a machine: its call stack is within its capacity and
    /// its state is a valid one.
    pub closed spec fn wf(&self) -> bool {
        &&& self.stack_ptr <= 16
        &&& self@.wf()
    }

    /// The screen that the machine talks to.
    pub closed spec fn screen_value(&self) -> Screen {
        self.screen
    }

    /// The keypad that the machine talks to.
    pub closed spec fn key_input_value(&self) -> Input {
        self.key_input
    }

    /// That `after` is a valid machine in the state `state`, talking to the
    /// same screen and keypad as this one.
    pub open spec fn becomes(&self, after: &Self, state: MachineView) -> bool {
        &&& after.wf()
        &&& after@ == state
        &&& after.screen_value() == self.screen_value()
        &&& after.key_input_value() == self.key_input_value()
    }

    /// A valid machine has a valid state.
    pub proof fn lemma_wf_view(&self)
        requires
            self.wf(),
        ensures
            self@.wf(),
    {
    }

    /// A machine with everything zeroed, not yet ready to run.
    pub fn new(screen: Screen, key_input: Input) -> (chip8: Self)
        ensures
            chip8.wf(),
            chip8@ == MachineView::fresh(),
            chip8.screen_value() == screen,
            chip8.key_input_value() == key_input,
    {
        let chip8 = Chip8 {
            registers: [0u8;16],
            addr_register: 0,
            program_counter: 0,
            clock_speed: CHIP8_CPU_CLOCK_SPEED,
            last_instruction_time: None,
            random_state: CHIP8_RANDOM_SEED,
            memory: [0u8;4096],
            rom_size: 0,
            stack: [0u16;16],
            stack_ptr: 0,
            gfx: [0u8;2048],
            screen,
            delay_timer: Timer::new(),
            sound_timer: Timer::new(),
            key_input,
            state: RunState::Uninitialized,
        };
        assert(chip8@.registers =~= MachineView::fresh().registers);
        assert(chip8@.memory =~= MachineView::fresh().memory);
        assert(chip8@.gfx =~= MachineView::fresh().gfx);
        assert(chip8@.stack =~= MachineView::fresh().stack);
        chip8
    }

    /// The screen that the machine talks to.
    pub fn screen(&self) -> (screen: &Screen)
        ensures
            *screen == self.screen_value(),
    {
        &self.screen
    }

    /// The keypad that the machine talks to.
    pub fn key_input(&self) -> (key_input: &Input)
        ensures
            *key_input == self.key_input_value(),
    {
        &self.key_input
    }

    /// The registers V0 to VF.
    pub fn registers(&self) -> (registers: [u8; 16])
        ensures
            registers@ == self@.registers,
    {
        self.registers
    }

    /// The index register I.
    pub fn addr_register(&self) -> (addr: Address)
        ensures
            addr == self@.addr_register,
    {
        self.addr_register
    }

    /// The program counter.
    pub fn program_counter(&self) -> (pc: Address)
        ensures
            pc == self@.program_counter,
    {
        self.program_counter
    }

    /// The instruction rate, in Hz.
    pub fn clock_speed(&self) -> (hz: u16)
        ensures
            hz == self@.clock_speed,
    {
        self.clock_speed
    }

    /// The whole memory.
    pub fn memory(&self) -> (memory: [u8; 4096])
        ensures
            memory@ == self@.memory,
    {
        self.memory
    }

    /// The length of the program that was loaded last.
    pub fn rom_size(&self) -> (size: u16)
        ensures
            size == self@.rom_size,
    {
        self.rom_size
    }

    /// The number of return addresses on the call stack.
    pub fn stack_depth(&self) -> (depth: usize)
        requires
            self.wf(),
        ensures
            depth == self@.stack.len(),
            depth <= 16,
    {
        self.stack_ptr
    }

    /// The framebuffer: 2048 pixels, row after row, each 0 or 1.
    pub fn gfx(&self) -> (pixels: [u8; 2048])
        ensures
            pixels@ == self@.gfx,
    {
        self.gfx
    }

    /// The count of the delay timer.
    pub fn delay_timer(&self) -> (value: u8)
        ensures
            value == self@.delay_timer.value,
    {
        self.delay_timer.get_delay()
    }

    /// The count of the sound timer.
    pub fn sound_timer(&self) -> (value: u8)
        ensures
            value == self@.sound_timer.value,
    {
        self.sound_timer.get_delay()
    }

    /// Where the run loop stands.
    pub fn state(&self) -> (state: RunState)
        ensures
            state == self@.state,
    {
        self.state
    }

    /// Gets the machine ready to run: the font is loaded and, with a
    /// program in memory, the program counter is set to its start at 0x200.
    /// Without a program the machine halts. A halted machine stays as it
    /// is and gives its error again.
    pub fn init(&mut self) -> (result: Result<(), Chip8Error>)
        requires
            old(self).wf(),
        ensures
            old(self).becomes(final(self), old(self)@.init().0),
            result == old(self)@.init().1,
    {
        match self.state {
            RunState::Halted(error) => {
                return Err(error);
            },
            _ => {},
        }
        // Load the fontset
        self.load_fontset();
        // Check if the program is loaded
        if self.rom_size == 0 {
            self.state = RunState::Halted(Chip8Error::NoRom);
            return Err(Chip8Error::NoRom);
        }
        // Set the PC at 0x200
        self.program_counter = CHIP8_MEMORY_START;
        self.state = RunState::Ready;
        Ok(())
    }

    /// Reads the instruction word at the program counter, high byte first.
    /// Fails if the program counter does not address two bytes inside
    /// memory.
    pub fn fetch(&self) -> (result: Result<OpCode, Chip8Error>)
        requires
            self.wf(),
        ensures
            self@.fetchable() ==> result == Ok::<OpCode, Chip8Error>(self@.fetched()),
            !self@.fetchable() ==> result == Err::<OpCode, Chip8Error>(
                Chip8Error::FetchOutOfBounds,
            ),
    {
        let at: usize = self.program_counter as usize;
        if at + 1 >= CHIP8_MEMORY_SIZE {
            return Err(Chip8Error::FetchOutOfBounds);
        }
        let high: u16 = self.memory[at] as u16;
        let low: u16 = self.memory[at + 1] as u16;
        assert(high << 8 == 256 * high) by (bit_vector)
            requires
                high < 256,
        ;
        Ok((high << 8) + low)
    }

    /// One cycle at the instant `now`: fetch, decode and execute, pace, and
    /// update both timers. The result is the time, in microseconds, that
    /// the host has to wait before the next cycle.
    ///
    /// A missing program, a fetch outside memory and every error of the
    /// instruction halt the machine, with the state otherwise as before the
    /// cycle. A halted machine stays as it is and gives its error again.
    /// What the keypad answers is not known beforehand, so the new state is
    /// the one that the model gives for some answer.
    pub fn step_at(&mut self, now: u64) -> (result: Result<u64, Chip8Error>)
        requires
            old(self).wf(),
        ensures
            final(self).wf(),
            exists|keys: KeyReading|
                final(self)@ == old(self)@.step(now, keys).0 && result == old(self)@.step(
                    now,
                    keys,
                ).1,
    {
        let ghost unasked = KeyReading { pressed: false, key: 0 };
        match self.state {
            RunState::Halted(error) => {
                assert(self@ == old(self)@.step(now, unasked).0);
                return Err(error);
            },
            _ => {},
        }
        // Check if the program is loaded
        if self.rom_size == 0 {
            self.state = RunState::Halted(Chip8Error::NoRom);
            assert(self@ == old(self)@.step(now, unasked).0);
            return Err(Chip8Error::NoRom);
        }
        // Get the opcode
        let op_code: OpCode = match self.fetch() {
            Ok(op_code) => op_code,
            Err(error) => {
                self.state = RunState::Halted(error);
                assert(self@ == old(self)@.step(now, unasked).0);
                return Err(error);
            },
        };
        // Execute the opcode
        match self.execute_opcode(op_code, now) {
            Ok(()) => {},
            Err(error) => {
                self.state = RunState::Halted(error);
                proof {
                    let keys = choose|keys: KeyReading|
                        old(self)@.execute_opcode(op_code, now, keys) == Err::<
                            MachineView,
                            Chip8Error,
                        >(error);
                    assert(self@ == old(self)@.step(now, keys).0);
                }
                return Err(error);
            },
        }
        let ghost keys = choose|keys: KeyReading|
            old(self)@.execute_opcode(op_code, now, keys) == Ok::<MachineView, Chip8Error>(
                self@,
            );
        // Emulate CPU speed
        let delay: u64 = self.emulate_cpu_speed(now);
        // Update timers
        self.delay_timer.update_at(now);
        self.sound_timer.update_at(now);
        self.state = RunState::Running;
        assert(self@ == old(self)@.step(now, keys).0);
        Ok(delay)
    }

    /// One cycle at the host's current time. The result is the time, in
    /// microseconds, that the host has to wait before the next cycle.
    pub fn step(&mut self) -> (result: Result<u64, Chip8Error>)
        requires
            old(self).wf(),
        ensures
            final(self).wf(),
            exists|now: u64, keys: KeyReading|
                final(self)@ == old(self)@.step(now, keys).0 && result == old(self)@.step(
                    now,
                    keys,
                ).1,
    {
        let now: u64 = now_micros();
        self.step_at(now)
    }
}

} // verus!
