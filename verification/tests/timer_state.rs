use screen_timer::timer::{Notice, Phase, TimerState, NANOS_PER_SEC};

const T0: u64 = 5 * NANOS_PER_SEC;

fn at(secs: u64) -> u64 {
    T0 + secs * NANOS_PER_SEC
}

#[test]
fn new_timer_is_in_setup_with_thirty_second_break() {
    let t = TimerState::new();
    assert_eq!(t.phase, Phase::Setup);
    assert_eq!(t.lockout_secs, 30);
    assert_eq!(t.elapsed(at(100)), 0);
    assert_eq!(t.remaining(at(100)), 0);
    assert_eq!(t.break_remaining(at(100)), 0);
}

#[test]
fn start_counts_down_in_whole_seconds() {
    let mut t = TimerState::new();
    let n = t.start(1500, T0);
    assert_eq!(n, Notice::TimerStarted { seconds: 1500 });
    assert_eq!(t.phase, Phase::Running);
    assert_eq!(t.remaining(T0), 1500);
    assert_eq!(t.remaining(T0 + 999_999_999), 1500);
    assert_eq!(t.remaining(at(1)), 1499);
    assert_eq!(t.remaining(at(1499) + 999_999_999), 1);
    assert_eq!(t.remaining(at(1500)), 0);
    assert_eq!(t.remaining(at(4000)), 0);
    assert_eq!(t.elapsed(at(4000)), 4000);
}

#[test]
fn clock_reading_before_start_counts_nothing() {
    let mut t = TimerState::new();
    t.start(60, at(10));
    assert_eq!(t.elapsed(at(3)), 0);
    assert_eq!(t.remaining(at(3)), 60);
}

#[test]
fn pause_freezes_and_resume_continues() {
    let mut t = TimerState::new();
    t.start(600, T0);
    t.pause(at(100) + 500_000_000);
    assert_eq!(t.phase, Phase::Paused);
    assert_eq!(t.elapsed_before_pause, 100);
    assert_eq!(t.remaining(at(100)), 500);
    assert_eq!(t.remaining(at(10_000)), 500);
    t.resume(at(200));
    assert_eq!(t.phase, Phase::Running);
    assert_eq!(t.remaining(at(200)), 500);
    assert_eq!(t.remaining(at(250)), 450);
}

#[test]
fn stop_goes_back_to_setup() {
    let mut t = TimerState::new();
    t.start(600, T0);
    t.warned = true;
    t.stop();
    assert_eq!(t.phase, Phase::Setup);
    assert_eq!(t.start_time, None);
    assert_eq!(t.elapsed_before_pause, 0);
    assert!(!t.warned);
    assert_eq!(t.elapsed(at(50)), 0);
}

#[test]
fn break_lasts_the_lockout() {
    let mut t = TimerState::new();
    t.start(60, T0);
    let n = t.enter_break(at(60));
    assert_eq!(n, Notice::TimeUp);
    assert_eq!(t.phase, Phase::BreakScreen);
    assert_eq!(t.break_secs, 30);
    assert_eq!(t.break_remaining(at(60)), 30);
    assert_eq!(t.break_remaining(at(75)), 15);
    assert_eq!(t.break_remaining(at(89) + 999_999_999), 1);
    assert_eq!(t.break_remaining(at(90)), 0);
    let mut u = TimerState::new();
    u.enter_break_for(at(0), 300);
    assert_eq!(u.break_remaining(at(100)), 200);
}

#[test]
fn elapsed_fits_tells_overflow() {
    let mut t = TimerState::new();
    t.start(60, 0);
    assert!(t.elapsed_fits(u64::MAX));
    t.elapsed_before_pause = u64::MAX;
    assert!(t.elapsed_fits(NANOS_PER_SEC - 1));
    assert!(!t.elapsed_fits(NANOS_PER_SEC));
}

#[test]
fn notice_texts() {
    assert_eq!(Notice::title(), "Screen Timer");
    assert_eq!(Notice::TimerStarted { seconds: 1500 }.message(), "Timer started: 25:00");
    assert_eq!(Notice::TimerStarted { seconds: 5400 }.message(), "Timer started: 1:30:00");
    assert_eq!(Notice::TimeUp.message(), "Time's up! Take a break.");
    assert_eq!(Notice::OneMinuteLeft.message(), "1 minute remaining! Save your work.");
    assert_eq!(Notice::EmergencyUnlock.message(), "Emergency unlock activated.");
}

#[test]
fn time_paused_is_not_counted() {
    let mut t = TimerState::new();
    t.start(600, T0);
    let e = t.elapsed(at(100));
    t.pause(at(100));
    assert_eq!(t.elapsed(at(150)), e);
    t.resume(at(300));
    assert_eq!(t.elapsed(at(310) + 500_000_000), e + 10);
    assert_eq!(t.remaining(at(310)), 600 - 110);
}
