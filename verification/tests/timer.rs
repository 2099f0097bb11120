use chip8::chip8::clock::micros_since_epoch;
use chip8::chip8::timer::Timer;

#[test]
fn new_timer_is_at_zero() {
    let timer = Timer::new();
    assert_eq!(timer.get_delay(), 0);
}

#[test]
fn timer_reaches_zero_after_as_many_ticks_as_its_value() {
    for value in [0u8, 1, 2, 60, 255] {
        let mut timer = Timer::new();
        let start: u64 = 5_000;
        timer.start_at(value, start);
        assert_eq!(timer.get_delay(), value);
        for tick in 1..=(value as u64) {
            timer.update_at(start + tick * 16_667);
            assert_eq!(timer.get_delay() as u64, value as u64 - tick);
        }
        assert_eq!(timer.get_delay(), 0);
        for tick in 1..=10u64 {
            timer.update_at(start + (value as u64 + tick) * 16_667);
            assert_eq!(timer.get_delay(), 0);
        }
    }
}

#[test]
fn timer_waits_for_a_full_sixtieth() {
    let mut timer = Timer::new();
    timer.start_at(3, 100);
    timer.update_at(100);
    assert_eq!(timer.get_delay(), 3);
    timer.update_at(100 + 16_666);
    assert_eq!(timer.get_delay(), 3);
    timer.update_at(100 + 16_667);
    assert_eq!(timer.get_delay(), 2);
    timer.update_at(100 + 16_667 + 16_666);
    assert_eq!(timer.get_delay(), 2);
    timer.update_at(100 + 16_667 + 1_000_000);
    assert_eq!(timer.get_delay(), 1);
}

#[test]
fn timer_loses_one_count_per_update_at_most() {
    let mut timer = Timer::new();
    timer.start_at(200, 0);
    timer.update_at(10_000_000);
    assert_eq!(timer.get_delay(), 199);
    timer.update_at(10_000_001);
    assert_eq!(timer.get_delay(), 199);
}

#[test]
fn timer_ignores_a_clock_that_goes_back() {
    let mut timer = Timer::new();
    timer.start_at(5, 1_000_000);
    timer.update_at(0);
    assert_eq!(timer.get_delay(), 5);
    timer.update_at(1_016_667);
    assert_eq!(timer.get_delay(), 4);
}

#[test]
fn idle_timer_stays_idle() {
    let mut timer = Timer::new();
    timer.update_at(1_000_000);
    assert_eq!(timer.get_delay(), 0);
    timer.start_at(0, 0);
    timer.update_at(1_000_000);
    assert_eq!(timer.get_delay(), 0);
}

#[test]
fn timer_restarts() {
    let mut timer = Timer::new();
    timer.start_at(1, 0);
    timer.update_at(20_000);
    assert_eq!(timer.get_delay(), 0);
    timer.start_at(2, 30_000);
    timer.update_at(40_000);
    assert_eq!(timer.get_delay(), 2);
    timer.update_at(46_667);
    assert_eq!(timer.get_delay(), 1);
}

#[test]
fn timer_on_the_host_clock() {
    let mut timer = Timer::new();
    timer.start(7);
    assert_eq!(timer.get_delay(), 7);
    timer.update();
    assert!(timer.get_delay() == 7 || timer.get_delay() == 6);
    let mut idle = Timer::new();
    idle.update();
    assert_eq!(idle.get_delay(), 0);
}

#[test]
fn instants_are_saturated_spans_since_the_epoch() {
    assert_eq!(micros_since_epoch(None), 0);
    assert_eq!(micros_since_epoch(Some(0)), 0);
    assert_eq!(micros_since_epoch(Some(1_700_000_000_000_000)), 1_700_000_000_000_000);
    assert_eq!(micros_since_epoch(Some(u64::MAX as u128)), u64::MAX);
    assert_eq!(micros_since_epoch(Some(u64::MAX as u128 + 1)), u64::MAX);
    assert_eq!(micros_since_epoch(Some(u128::MAX)), u64::MAX);
}
