//! Countdown timers that fall by one every sixtieth of a second.

use crate::chip8::clock::now_micros;
use vstd::prelude::*;

verus! {

/// Decrements per second.
pub const TIMER_CLOCK_SPEED: u64 = 60;

/// Microseconds in one second.
pub const MICROS_PER_SECOND: u64 = 1_000_000;

/// The fewest whole microseconds that make up one sixtieth of a second.
pub const TIMER_PERIOD_MICROS: u64 = 16_667;

/// What a timer is: its count, and the instant (in microseconds) from which
/// the next decrement is measured, if it is running.
pub struct TimerView {
    pub value: u8,
    pub last_update: Option<u64>,
}

impl TimerView {
    /// A timer that was never started.
    pub open spec fn idle() -> TimerView {
        TimerView { value: 0, last_update: None }
    }

    /// A timer set to `value` at the instant `now`.
    pub open spec fn started(value: u8, now: u64) -> TimerView {
        TimerView { value, last_update: Some(now) }
    }

    /// Whether a decrement is due at `now`: the timer runs, its count is not
    /// zero, and at least a sixtieth of a second has passed since the last
    /// decrement.
    pub open spec fn due(self, now: u64) -> bool {
        &&& self.value != 0
        &&& self.last_update is Some
        &&& TIMER_CLOCK_SPEED * (now - self.last_update->0) >= MICROS_PER_SECOND
    }

    /// The timer after one update at `now`: one less if a decrement is due,
    /// and idle once the count is zero.
    pub open spec fn ticked(self, now: u64) -> TimerView {
        let value = if self.due(now) { (self.value - 1) as u8 } else { self.value };
        let last_update = if value == 0 {
            None
        } else if self.due(now) {
            Some(now)
        } else {
            self.last_update
        };
        TimerView { value, last_update }
    }

    /// The timer after `n` updates, the first at `first` and each
    /// `period` microseconds after the one before.
    pub open spec fn ticked_times(self, first: u64, period: u64, n: nat) -> TimerView
        decreases n,
    {
        if n == 0 {
            self
        } else {
            self.ticked_times(first, period, (n - 1) as nat).ticked(
                (first + (n - 1) * period) as u64,
            )
        }
    }
}

/// A timer that is started with the count `value` and then updated every
/// `period` microseconds, where a period is a sixtieth of a second or
/// longer, has lost one count per update until it is at zero, and stays at
/// zero from then on: after `n` updates its count is `value - n`, or 0 where
/// `n` is over `value`. In particular it is 0 after `value` updates.
pub proof fn lemma_timer_counts_down(value: u8, start: u64, period: u64, n: nat)
    requires
        TIMER_CLOCK_SPEED * period >= MICROS_PER_SECOND,
        start + (n + 1) * period <= u64::MAX,
    ensures
        TimerView::started(value, start).ticked_times((start + period) as u64, period, n).value
            == if n <= value {
            value - n
        } else {
            0
        },
        n >= value ==> TimerView::started(value, start).ticked_times(
            (start + period) as u64,
            period,
            n,
        ).value == 0,
{
    lemma_timer_countdown_state(value, start, period, n);
}

/// The count and the running instant of a timer during its countdown.
proof fn lemma_timer_countdown_state(value: u8, start: u64, period: u64, n: nat)
    requires
        TIMER_CLOCK_SPEED * period >= MICROS_PER_SECOND,
        start + (n + 1) * period <= u64::MAX,
    ensures
        ({
            let timer = TimerView::started(value, start).ticked_times(
                (start + period) as u64,
                period,
                n,
            );
            &&& timer.value == if n <= value {
                value - n
            } else {
                0
            }
            &&& timer.value != 0 ==> timer.last_update == Some((start + n * period) as u64)
        }),
    decreases n,
{
    if n > 0 {
        let m = (n - 1) as nat;
        assert(start + period + m * period == start + n * period) by (nonlinear_arith)
            requires
                m == n - 1,
        ;
        assert(m * period <= n * period) by (nonlinear_arith)
            requires
                m <= n,
        ;
        assert((m + 1) * period <= (n + 1) * period) by (nonlinear_arith)
            requires
                m <= n,
        ;
        lemma_timer_countdown_state(value, start, period, m);
    }
}

/// An 8-bit countdown that is driven by wall-clock time.
#[derive(Clone, Copy, Debug)]
pub struct Timer {
    value: u8,
    last_update_time: Option<u64>,
}

impl View for Timer {
    type V = TimerView;

    closed spec fn view(&self) -> TimerView {
        TimerView { value: self.value, last_update: self.last_update_time }
    }
}

impl Timer {
    /// An idle timer with count zero.
    pub fn new() -> (timer: Timer)
        ensures
            timer@ == TimerView::idle(),
    {
        Timer { value: 0, last_update_time: None }
    }

    /// Sets the count to `value` and measures from the instant `now`.
    pub fn start_at(&mut self, value: u8, now: u64)
        ensures
            final(self)@ == TimerView::started(value, now),
    {
        self.value = value;
        self.last_update_time = Some(now);
    }

    /// Sets the count to `value` and measures from the host's current time.
    pub fn start(&mut self, value: u8)
        ensures
            final(self)@.value == value,
            exists|now: u64| final(self)@ == TimerView::started(value, now),
    {
        let now: u64 = now_micros();
        self.start_at(value, now);
    }

    /// One update at the instant `now`: the count falls by one if a
    /// sixtieth of a second has passed since the last decrement, and a timer
    /// at zero goes idle.
    pub fn update_at(&mut self, now: u64)
        ensures
            final(self)@ == old(self)@.ticked(now),
    {
        match self.last_update_time {
            Some(last) => {
                if self.value != 0 && now >= last && now - last >= TIMER_PERIOD_MICROS {
                    self.value = self.value - 1;
                    self.last_update_time = Some(now);
                }
            },
            None => {},
        }
        if self.value == 0 {
            self.last_update_time = None;
        }
    }

    /// One update at the host's current time.
    pub fn update(&mut self)
        ensures
            exists|now: u64| final(self)@ == old(self)@.ticked(now),
            final(self)@.value == old(self)@.value || final(self)@.value + 1 == old(self)@.value,
    {
        let now: u64 = now_micros();
        self.update_at(now);
    }

    /// The current count.
    pub fn get_delay(&self) -> (value: u8)
        ensures
            value == self@.value,
    {
        self.value
    }
}

} // verus!
