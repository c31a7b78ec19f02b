use screen_timer::app::App;
use screen_timer::config::{AppConfig, PomodoroConfig};

#[test]
fn pomodoro_default_cycle() {
    let p = PomodoroConfig::default();
    assert_eq!(p.focus_minutes, 25);
    assert_eq!(p.short_break_minutes, 5);
    assert_eq!(p.long_break_minutes, 15);
    assert_eq!(p.sessions_before_long_break, 4);
    assert!(p.is_runnable());
    assert_eq!(p.focus_secs(), 1500);
    assert_eq!(p.break_secs_after(1), 300);
    assert_eq!(p.break_secs_after(3), 300);
    assert_eq!(p.break_secs_after(4), 900);
}

#[test]
fn app_config_defaults_match_the_documented_file() {
    let c = AppConfig::default();
    assert_eq!(c.last_hours, 0);
    assert_eq!(c.last_minutes, 25);
    assert_eq!(c.last_seconds, 0);
    assert_eq!(c.break_length_secs, 30);
    assert!(!c.pomodoro_enabled);
    assert_eq!(c.pomodoro, PomodoroConfig::default());
}

#[test]
fn unrunnable_pomodoro_settings() {
    let mut p = PomodoroConfig::default();
    p.focus_minutes = 0;
    assert!(!p.is_runnable());
    let mut q = PomodoroConfig::default();
    q.sessions_before_long_break = 0;
    assert!(!q.is_runnable());
}

#[test]
fn settings_survive_a_restart() {
    let c = AppConfig {
        last_hours: 1,
        last_minutes: 5,
        last_seconds: 30,
        break_length_secs: 120,
        pomodoro_enabled: true,
        pomodoro: PomodoroConfig {
            focus_minutes: 50,
            short_break_minutes: 10,
            long_break_minutes: 30,
            sessions_before_long_break: 2,
        },
    };
    let a = App::with_config(&c);
    assert_eq!(a.hours, 1);
    assert_eq!(a.timer.lockout_secs, 120);
    assert_eq!(a.config(), c);
    assert_eq!(App::new().config(), AppConfig::default());
}
