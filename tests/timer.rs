use openspeedrun::{Timer, TimerState};

#[test]
fn new_timer_reads_zero() {
    let t = Timer::new();
    assert_eq!(t.state, TimerState::NotStarted);
    assert_eq!(t.current_time(), 0);
    assert!(!t.is_running());
    assert!(!t.is_paused());
    assert!(!t.is_ended());
}

#[test]
fn pause_twice_reads_as_pause_once() {
    let mut t = Timer::new();
    t.start_with_offset_at(1_000, 0);
    t.pause_at(4_000);
    let once = t.current_time_at(9_000);
    t.pause_at(7_000);
    assert_eq!(t.current_time_at(9_000), once);
    assert_eq!(once, 3_000);
    assert!(t.is_paused());
}

#[test]
fn pause_twice_with_clock() {
    let mut t = Timer::new();
    t.start();
    t.pause();
    let once = t.current_time();
    t.pause();
    assert_eq!(t.current_time(), once);
    assert!(once >= 0);
}

#[test]
fn start_with_offset_reads_offset_at_start() {
    let mut t = Timer::new();
    t.start_with_offset_at(10_000, 5_000);
    assert_eq!(t.start_time, Some(5_000));
    assert_eq!(t.current_time_at(10_000), 5_000);
    let mut u = Timer::new();
    u.start_with_offset_at(10_000, -5_000);
    assert_eq!(u.current_time_at(10_000), -5_000);
    assert_eq!(u.current_time_at(12_000), -3_000);
}

#[test]
fn start_with_offset_uses_the_clock() {
    let mut t = Timer::new();
    t.start_with_offset(-5_000);
    let r = t.current_time();
    assert!(r >= -5_000 && r < -4_000, "read {}", r);
    let mut u = Timer::new();
    u.start_with_offset(5_000);
    let r = u.current_time();
    assert!(r >= 5_000 && r < 6_000, "read {}", r);
    assert!(u.is_running());
}

#[test]
fn resume_accumulates_elapsed() {
    let mut t = Timer::new();
    t.start_at(0);
    t.pause_at(2_000);
    t.start_at(10_000);
    assert_eq!(t.current_time_at(11_500), 3_500);
    t.pause_at(12_000);
    assert_eq!(t.elapsed, 4_000);
    assert_eq!(t.current_time_at(50_000), 4_000);
}

#[test]
fn pause_without_start_is_noop() {
    let mut t = Timer::new();
    t.pause_at(5_000);
    assert_eq!(t.state, TimerState::NotStarted);
    assert_eq!(t.elapsed, 0);
}

#[test]
fn reset_clears_everything() {
    let mut t = Timer::new();
    t.start_with_offset_at(100, 50);
    t.pause_at(400);
    t.reset();
    assert_eq!(t.state, TimerState::NotStarted);
    assert_eq!(t.start_time, None);
    assert_eq!(t.elapsed, 0);
}

#[test]
fn readings_saturate() {
    let mut t = Timer::new();
    t.start_with_offset_at(0, i64::MIN);
    assert_eq!(t.start_time, Some(i64::MAX));
    t.elapsed = i64::MAX;
    let mut u = t;
    u.start_time = Some(i64::MIN);
    assert_eq!(u.current_time_at(i64::MAX), i64::MAX);
}

#[test]
fn pause_acts_only_while_running() {
    let mut t = Timer { state: TimerState::Running, start_time: None, elapsed: 700 };
    t.pause_at(5_000);
    assert_eq!(t.state, TimerState::Paused);
    assert_eq!(t.elapsed, 700);
    let mut u = Timer { state: TimerState::Ended, start_time: None, elapsed: 9 };
    u.pause_at(5_000);
    assert_eq!(u.state, TimerState::Ended);
    assert_eq!(u.elapsed, 9);
}
