//! The instruction rate and the pacing of cycles, and the random source's
//! seed.

use crate::chip8::constants::{CHIP8_CPU_CLOCK_SPEED, CHIP8_RANDOM_SEED};
use crate::chip8::display::Display;
use crate::chip8::input::KeyInput;
use crate::chip8::model::MachineView;
use crate::chip8::timer::MICROS_PER_SECOND;
use crate::chip8::Chip8;
use vstd::prelude::*;

verus! {

impl<Screen, Input> Chip8<Screen, Input> where Screen: Display, Input: KeyInput {
    /// Sets the instruction rate, in Hz; 0 stands for the default of 500.
    pub fn change_cpu_clock_speed(&mut self, clock_speed_hz: u16)
        requires
            old(self).wf(),
        ensures
            old(self).becomes(
                final(self),
                MachineView {
                    clock_speed: if clock_speed_hz == 0 {
                        500
                    } else {
                        clock_speed_hz
                    },
                    ..old(self)@
                },
            ),
    {
        if clock_speed_hz == 0 {
            self.clock_speed = CHIP8_CPU_CLOCK_SPEED;
        } else {
            self.clock_speed = clock_speed_hz;
        }
    }

    /// Sets the state that the random source goes on from; 0 stands for the
    /// state of a new machine.
    pub fn seed_random(&mut self, seed: u16)
        requires
            old(self).wf(),
        ensures
            old(self).becomes(
                final(self),
                MachineView {
                    random_state: if seed == 0 {
                        0xACE1
                    } else {
                        seed
                    },
                    ..old(self)@
                },
            ),
    {
        if seed == 0 {
            self.random_state = CHIP8_RANDOM_SEED;
        } else {
            self.random_state = seed;
        }
    }

    /// Paces one cycle at the instant `now`: gives the time that the host
    /// has to wait so that a whole interval lies between this cycle and the
    /// one before, and records when this cycle is complete after that wait.
    /// The wait is never longer than one interval, and nothing is made up
    /// for a cycle that ran long.
    pub fn emulate_cpu_speed(&mut self, now: u64) -> (delay: u64)
        requires
            old(self).wf(),
        ensures
            old(self).becomes(final(self), old(self)@.paced(now)),
            delay == old(self)@.pacing_delay(now),
            delay <= old(self)@.cycle_interval() <= 1_000_000,
            old(self)@.last_instruction_time is None ==> delay == 0,
    {
        let interval: u64 = MICROS_PER_SECOND / (self.clock_speed as u64);
        let delay: u64 = match self.last_instruction_time {
            None => 0,
            Some(last) => {
                let elapsed: u64 = if now >= last {
                    now - last
                } else {
                    0
                };
                if elapsed < interval {
                    interval - elapsed
                } else {
                    0
                }
            },
        };
        let done: u64 = if now > u64::MAX - delay {
            u64::MAX
        } else {
            now + delay
        };
        self.last_instruction_time = Some(done);
        delay
    }
}

} // verus!
