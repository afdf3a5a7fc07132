use engine::timer::{FrameTimer, TimeError, NANOS_PER_SECOND};

#[test]
fn new_timer_is_at_zero() {
    let timer = FrameTimer::new();
    assert_eq!(timer.frame_rate(), 0);
    assert_eq!(timer.delta_nanos(), Some(0));
    assert_eq!(NANOS_PER_SECOND, 1_000_000_000);
}

#[test]
fn timer_reports_zero_until_a_second_has_passed() {
    let mut timer = FrameTimer::new();
    assert_eq!(timer.tick(400_000_000), Ok(()));
    assert_eq!(timer.frame_rate(), 0);
    assert_eq!(timer.tick(999_999_999), Ok(()));
    assert_eq!(timer.frame_rate(), 0);
    assert_eq!(timer.tick(1_000_000_000), Ok(()));
    assert_eq!(timer.frame_rate(), 3);
}

#[test]
fn delta_is_the_time_between_the_last_two_frames() {
    let mut timer = FrameTimer::new();
    assert_eq!(timer.tick(16_000_000), Ok(()));
    assert_eq!(timer.delta_nanos(), Some(16_000_000));
    assert_eq!(timer.tick(33_000_000), Ok(()));
    assert_eq!(timer.delta_nanos(), Some(17_000_000));
    assert_eq!(timer.tick(33_000_000), Ok(()));
    assert_eq!(timer.delta_nanos(), Some(0));
}

#[test]
fn frame_rate_is_the_count_of_the_last_full_window() {
    let mut timer = FrameTimer::new();
    for frame in 1..=60u128 {
        assert_eq!(timer.tick(frame * 16_666_667), Ok(()));
    }
    assert_eq!(timer.frame_rate(), 60);
    for frame in 61..=89u128 {
        assert_eq!(timer.tick(frame * 16_666_667), Ok(()));
        assert_eq!(timer.frame_rate(), 60);
    }
    assert_eq!(timer.tick(2_000_000_020), Ok(()));
    assert_eq!(timer.frame_rate(), 30);
    assert_eq!(timer.tick(9_000_000_000), Ok(()));
    assert_eq!(timer.frame_rate(), 1);
}

#[test]
fn window_begins_anew_at_the_reading_that_completed_it() {
    let mut timer = FrameTimer::new();
    assert_eq!(timer.tick(1_500_000_000), Ok(()));
    assert_eq!(timer.frame_rate(), 1);
    assert_eq!(timer.tick(2_499_999_999), Ok(()));
    assert_eq!(timer.frame_rate(), 1);
    assert_eq!(timer.tick(2_500_000_000), Ok(()));
    assert_eq!(timer.frame_rate(), 2);
}

#[test]
fn reading_before_the_window_began_is_refused() {
    let mut timer = FrameTimer::new();
    assert_eq!(timer.tick(1_000_000_000), Ok(()));
    assert_eq!(timer.tick(999_999_999), Err(TimeError::ClockWentBackwards));
    assert_eq!(timer.frame_rate(), 1);
    assert_eq!(timer.delta_nanos(), Some(1_000_000_000));
    assert_eq!(timer.tick(1_000_000_000), Ok(()));
    assert_eq!(timer.delta_nanos(), Some(0));
}

#[test]
fn reading_within_the_window_but_before_the_last_gives_no_delta() {
    let mut timer = FrameTimer::new();
    assert_eq!(timer.tick(700), Ok(()));
    assert_eq!(timer.tick(300), Ok(()));
    assert_eq!(timer.delta_nanos(), None);
    assert_eq!(timer.tick(900), Ok(()));
    assert_eq!(timer.delta_nanos(), Some(600));
}
