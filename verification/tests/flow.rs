use realtime_web_comparison::backpressure::BackpressureState;
use realtime_web_comparison::platform::{
    pause_after_turn, platform_sleep, Pause, Platform, PlatformConfig,
};

fn after(platform: Platform, batches: &[(usize, bool, usize)]) -> BackpressureState {
    let mut state = BackpressureState::new(platform);
    for (written, had_error, batch_size) in batches {
        state.adjust_for_backpressure(*written, *had_error, *batch_size);
    }
    state
}

#[test]
fn settings_of_the_platforms() {
    let windows = PlatformConfig::current(Platform::Windows);
    assert_eq!(windows.initial_batch_size, 3);
    assert_eq!(windows.high_water_bytes, 2 * 1024 * 1024);
    assert_eq!(windows.low_water_bytes, 1024 * 1024);
    assert_eq!(windows.max_outputs_per_call, 10);
    assert_eq!(windows.success_batches_for_growth, 10);
    assert_eq!(windows.max_batch_size, 10);
    assert_eq!(windows.min_batch_size, 1);
    assert!(windows.check_backpressure_during_write);
    assert_eq!(windows.check_backpressure_every_n_writes, 1);
    assert!(windows.uses_linear_growth());
    let other = PlatformConfig::current(Platform::Other);
    assert_eq!(other.initial_batch_size, 20);
    assert_eq!(other.high_water_bytes, 10 * 1024 * 1024);
    assert_eq!(other.low_water_bytes, 5 * 1024 * 1024);
    assert_eq!(other.max_outputs_per_call, 50);
    assert_eq!(other.success_batches_for_growth, 5);
    assert_eq!(other.max_batch_size, 100);
    assert_eq!(other.min_batch_size, 10);
    assert!(!other.check_backpressure_during_write);
    assert_eq!(other.check_backpressure_every_n_writes, 0);
    assert!(!other.uses_linear_growth());
}

#[test]
fn pauses_between_turns() {
    assert_eq!(platform_sleep(Platform::Windows, true), Pause::SleepMillis(1));
    assert_eq!(platform_sleep(Platform::Windows, false), Pause::SleepMillis(1));
    assert_eq!(platform_sleep(Platform::Other, true), Pause::GoOn);
    assert_eq!(platform_sleep(Platform::Other, false), Pause::Yield);
    assert_eq!(pause_after_turn(Platform::Other, false, false, false), Pause::Yield);
    assert_eq!(pause_after_turn(Platform::Other, true, false, false), Pause::GoOn);
    assert_eq!(pause_after_turn(Platform::Other, false, true, false), Pause::GoOn);
    assert_eq!(pause_after_turn(Platform::Other, false, false, true), Pause::GoOn);
    assert_eq!(pause_after_turn(Platform::Windows, true, true, true), Pause::SleepMillis(1));
}

#[test]
fn a_new_state() {
    let state = BackpressureState::new(Platform::Other);
    assert_eq!(state.batch_size(), 20);
    assert_eq!(state.low_threshold(), 5 * 1024 * 1024);
    assert_eq!(state.consecutive_errors, 0);
    assert_eq!(state.successful_batches, 0);
    assert_eq!(state.last_buffered_bytes, 0);
    assert!(!state.paused_by_sctp);
    assert!(!state.check_backpressure_during_write());
    assert_eq!(state.check_backpressure_every_n_writes(), 0);
}

#[test]
fn writing_pauses_from_the_high_mark_on() {
    let state = BackpressureState::new(Platform::Windows);
    assert!(!state.should_pause_for(2 * 1024 * 1024 - 1));
    assert!(state.should_pause_for(2 * 1024 * 1024));
    assert!(state.should_pause_for(usize::MAX));
}

#[test]
fn an_error_halves_the_batch() {
    let state = after(Platform::Other, &[(20, false, 20), (3, true, 20)]);
    assert_eq!(state.batch_size(), 10);
    assert_eq!(state.consecutive_errors, 1);
    assert_eq!(state.successful_batches, 0);
}

#[test]
fn errors_in_a_row_back_off_to_the_smallest_batch() {
    let mut state = BackpressureState::new(Platform::Other);
    state.current_batch_size = 100;
    for expected in [50, 25, 12, 10, 10] {
        state.adjust_for_backpressure(0, true, 1);
        assert_eq!(state.batch_size(), expected);
    }
    assert_eq!(state.consecutive_errors, 5);
}

#[test]
fn full_batches_let_the_batch_grow_by_half() {
    let full = (20, false, 20);
    let four = after(Platform::Other, &[full; 4]);
    assert_eq!((four.batch_size(), four.successful_batches), (20, 4));
    let five = after(Platform::Other, &[full; 5]);
    assert_eq!((five.batch_size(), five.successful_batches), (30, 0));
    let mut state = five;
    for expected in [45, 67, 100, 100] {
        for _ in 0..5 {
            state.adjust_for_backpressure(9, false, 9);
        }
        assert_eq!(state.batch_size(), expected);
    }
    assert_eq!(state.successful_batches, 5);
}

#[test]
fn full_batches_let_the_batch_grow_by_one_on_windows() {
    let full = (3, false, 3);
    assert_eq!(after(Platform::Windows, &[full; 9]).batch_size(), 3);
    assert_eq!(after(Platform::Windows, &[full; 10]).batch_size(), 4);
    assert_eq!(after(Platform::Windows, &[full; 100]).batch_size(), 10);
}

#[test]
fn a_batch_that_writes_nothing_shrinks_by_a_third() {
    assert_eq!(after(Platform::Other, &[(0, false, 20)]).batch_size(), 13);
    assert_eq!(after(Platform::Other, &[(0, false, 20), (0, false, 13)]).batch_size(), 10);
    assert_eq!(after(Platform::Other, &[(0, false, 1)]).batch_size(), 20);
    assert_eq!(after(Platform::Other, &[(0, false, 0)]).batch_size(), 20);
}

#[test]
fn a_partial_batch_changes_no_size() {
    let state = after(Platform::Other, &[(0, true, 20), (20, false, 20), (7, false, 20)]);
    assert_eq!(state.batch_size(), 10);
    assert_eq!(state.consecutive_errors, 0);
    assert_eq!(state.successful_batches, 1);
}

#[test]
fn counters_wrap_around() {
    let mut state = BackpressureState::new(Platform::Other);
    state.consecutive_errors = usize::MAX;
    state.adjust_for_backpressure(0, true, 1);
    assert_eq!(state.consecutive_errors, 0);
    state.successful_batches = usize::MAX;
    state.adjust_for_backpressure(1, false, 1);
    assert_eq!(state.successful_batches, 0);
    assert_eq!(state.batch_size(), 10);
}

#[test]
fn the_batch_stays_within_its_limits() {
    for platform in [Platform::Windows, Platform::Other] {
        let config = PlatformConfig::current(platform);
        let mut state = BackpressureState::new(platform);
        for step in 0..2000usize {
            let written = (step * 7) % 5;
            state.adjust_for_backpressure(written, step % 11 == 0, written + step % 2);
            assert!(state.batch_size() >= config.min_batch_size);
            assert!(state.batch_size() <= config.max_batch_size);
        }
    }
}
