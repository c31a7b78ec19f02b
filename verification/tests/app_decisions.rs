use screen_timer::app::{
    break_image_index, escape_hint, image_hint, is_break_image_extension, ring_tone, App, Effect,
    InputMessage, PauseResumeLabel, RingTone, TrayItem, ESCAPE_WINDOW_NANOS,
};
use screen_timer::ipc::{IpcCommand, IpcResponse};
use screen_timer::timer::{Notice, Phase, NANOS_PER_SEC};

const T0: u64 = 1_000 * NANOS_PER_SEC;

fn at(secs: u64) -> u64 {
    T0 + secs * NANOS_PER_SEC
}

fn running(secs: u64) -> App {
    let mut a = App::new();
    a.handle_ipc_command(&IpcCommand::Start { seconds: secs }, T0);
    a
}

#[test]
fn new_app_defaults() {
    let a = App::new();
    assert_eq!((a.hours, a.minutes, a.seconds), (0, 25, 0));
    assert_eq!(a.total_input_secs(), 1500);
    assert_eq!(a.timer.phase, Phase::Setup);
    assert_eq!(a.message, InputMessage::Clear);
    assert!(a.well_formed());
    assert!(!a.wants_repaint());
}

#[test]
fn start_from_input_needs_ten_seconds() {
    let mut a = App::new();
    a.hours = 0;
    a.minutes = 0;
    a.seconds = 9;
    let e = a.start_timer_from_input(T0);
    assert!(e.is_empty());
    assert_eq!(a.message, InputMessage::TooShort);
    assert_eq!(a.message.text(), "Minimum 10 seconds");
    assert_eq!(a.timer.phase, Phase::Setup);
    a.seconds = 10;
    let e = a.start_timer_from_input(T0);
    assert_eq!(e, vec![Effect::Notify(Notice::TimerStarted { seconds: 10 })]);
    assert_eq!(a.message, InputMessage::Clear);
    assert_eq!(a.message.text(), "");
    assert_eq!(a.timer.phase, Phase::Running);
    assert_eq!(a.timer.total_secs, 10);
}

#[test]
fn start_from_input_sums_hours_minutes_seconds() {
    let mut a = App::new();
    a.hours = 1;
    a.minutes = 2;
    a.seconds = 3;
    assert_eq!(a.total_input_secs(), 3723);
    a.start_timer_from_input(T0);
    assert_eq!(a.timer.remaining(T0), 3723);
}

#[test]
fn time_up_brings_the_break_screen() {
    let mut a = running(60);
    let e = a.advance(at(59), false, false);
    assert_eq!(e, vec![Effect::Notify(Notice::OneMinuteLeft)]);
    assert!(a.timer.warned);
    let e = a.advance(at(60), false, false);
    assert_eq!(
        e,
        vec![
            Effect::Notify(Notice::TimeUp),
            Effect::Fullscreen(true),
            Effect::Focus,
            Effect::Visible(true),
        ]
    );
    assert_eq!(a.timer.phase, Phase::BreakScreen);
    assert!(a.was_fullscreen);
    assert!(a.wants_repaint());
    let e = a.advance(at(89), false, false);
    assert!(e.is_empty());
    let e = a.advance(at(90), false, false);
    assert_eq!(e, vec![Effect::Fullscreen(false)]);
    assert_eq!(a.timer.phase, Phase::Done);
    assert!(!a.was_fullscreen);
}

#[test]
fn one_minute_warning_comes_once() {
    let mut a = running(600);
    assert!(a.advance(at(539), false, false).is_empty());
    assert_eq!(a.advance(at(540), false, false), vec![Effect::Notify(Notice::OneMinuteLeft)]);
    assert!(a.advance(at(545), false, false).is_empty());
    assert!(a.advance(at(599), false, false).is_empty());
}

#[test]
fn triple_escape_unlocks_the_break() {
    let mut a = running(10);
    a.advance(at(10), false, false);
    assert_eq!(a.timer.phase, Phase::BreakScreen);
    assert!(a.advance(at(11), true, false).is_empty());
    assert_eq!(a.escape_count, 1);
    assert_eq!(escape_hint(a.escape_count), "Press Esc 2 more time(s) to unlock");
    assert!(a.advance(at(12), true, false).is_empty());
    assert_eq!(escape_hint(a.escape_count), "Press Esc 1 more time(s) to unlock");
    let e = a.advance(at(13), true, false);
    assert_eq!(e, vec![Effect::Fullscreen(false), Effect::Notify(Notice::EmergencyUnlock)]);
    assert_eq!(a.timer.phase, Phase::Done);
    assert_eq!(a.escape_count, 0);
    assert_eq!(escape_hint(a.escape_count), "Press Esc x3 to emergency unlock");
}

#[test]
fn escapes_spread_over_more_than_two_seconds_do_not_unlock() {
    let mut a = running(10);
    a.advance(at(10), false, false);
    a.advance(at(11), true, false);
    a.advance(at(12) + 500_000_000, true, false);
    assert_eq!(a.escape_count, 2);
    let e = a.advance(at(14), true, false);
    assert!(e.is_empty());
    assert_eq!(a.timer.phase, Phase::BreakScreen);
    assert_eq!(a.escape_count, 2);
    // the last three presses now lie within 1.5 s
    let e = a.advance(at(14) + 400_000_000, true, false);
    assert_eq!(e, vec![Effect::Fullscreen(false), Effect::Notify(Notice::EmergencyUnlock)]);
    assert_eq!(a.timer.phase, Phase::Done);
}

#[test]
fn slow_escapes_start_over() {
    let mut a = running(10);
    a.advance(at(10), false, false);
    a.advance(at(11), true, false);
    a.advance(at(12), true, false);
    assert_eq!(a.escape_count, 2);
    a.advance(at(12) + ESCAPE_WINDOW_NANOS + 1, true, false);
    assert_eq!(a.escape_count, 1);
    assert_eq!(a.timer.phase, Phase::BreakScreen);
    a.advance(at(15), true, false);
    assert_eq!(a.escape_count, 2);
    a.advance(at(16), true, false);
    assert_eq!(a.timer.phase, Phase::Done);
}

#[test]
fn three_escapes_exactly_two_seconds_apart_in_all_unlock() {
    let mut a = running(10);
    a.advance(at(10), false, false);
    a.advance(at(11), true, false);
    a.advance(at(12), true, false);
    a.advance(at(11) + ESCAPE_WINDOW_NANOS, true, false);
    assert_eq!(a.timer.phase, Phase::Done);
}

#[test]
fn escape_exactly_at_the_window_still_counts() {
    let mut a = running(10);
    a.advance(at(10), false, false);
    a.advance(at(11), true, false);
    a.advance(at(11) + ESCAPE_WINDOW_NANOS, true, false);
    assert_eq!(a.escape_count, 2);
}

#[test]
fn close_hides_while_active_and_removes_socket_otherwise() {
    let mut a = running(600);
    let e = a.advance(at(1), false, true);
    assert_eq!(e, vec![Effect::CancelClose, Effect::Visible(false)]);
    let mut b = App::new();
    let e = b.advance(at(1), false, true);
    assert_eq!(e, vec![Effect::RemoveSocket]);
}

#[test]
fn ipc_pause_resume_only_in_the_right_phase() {
    let mut a = App::new();
    a.handle_ipc_command(&IpcCommand::Pause, T0);
    assert_eq!(a.timer.phase, Phase::Setup);
    a.handle_ipc_command(&IpcCommand::Resume, T0);
    assert_eq!(a.timer.phase, Phase::Setup);
    let mut a = running(300);
    a.handle_ipc_command(&IpcCommand::Pause, at(100));
    assert_eq!(a.timer.phase, Phase::Paused);
    a.handle_ipc_command(&IpcCommand::Pause, at(150));
    assert_eq!(a.timer.elapsed_before_pause, 100);
    a.handle_ipc_command(&IpcCommand::Resume, at(200));
    assert_eq!(a.timer.phase, Phase::Running);
    assert_eq!(a.timer.remaining(at(200)), 200);
}

#[test]
fn ipc_unlock_stop_quit_status() {
    let mut a = running(10);
    a.handle_ipc_command(&IpcCommand::Unlock, at(1));
    assert_eq!(a.timer.phase, Phase::Running);
    a.advance(at(10), false, false);
    assert!(a.was_fullscreen);
    let e = a.handle_ipc_command(&IpcCommand::Unlock, at(11));
    assert_eq!(e, vec![Effect::Fullscreen(false)]);
    assert_eq!(a.timer.phase, Phase::Done);
    assert!(!a.was_fullscreen);
    assert!(a.advance(at(12), false, false).is_empty());
    a.handle_ipc_command(&IpcCommand::Stop, at(12));
    assert_eq!(a.timer.phase, Phase::Setup);
    assert_eq!(a.handle_ipc_command(&IpcCommand::Quit, at(12)), vec![Effect::Exit(0)]);
    assert!(a
        .handle_ipc_command(&IpcCommand::SetImage { path: "x.png".to_string() }, at(12))
        .is_empty());
    let b = running(600);
    match b.reply(&IpcCommand::Status, at(100)) {
        IpcResponse::Status { running, paused, remaining, total } => {
            assert!(running);
            assert!(!paused);
            assert_eq!(remaining, 500);
            assert_eq!(total, 600);
        },
        other => panic!("unexpected {:?}", other),
    }
    match b.reply(&IpcCommand::Stop, at(100)) {
        IpcResponse::Ack { message } => assert_eq!(message, "Command received"),
        other => panic!("unexpected {:?}", other),
    }
}

#[test]
fn tray_menu_items() {
    let mut a = App::new();
    let e = a.handle_tray_item(TrayItem::Start45m, T0);
    assert_eq!(e, vec![Effect::Notify(Notice::TimerStarted { seconds: 2700 })]);
    assert_eq!(a.timer.total_secs, 2700);
    for (item, secs) in [
        (TrayItem::Start25m, 1500),
        (TrayItem::Start1h, 3600),
        (TrayItem::Start1h30m, 5400),
        (TrayItem::Start2h, 7200),
    ] {
        a.handle_tray_item(item, T0);
        assert_eq!(a.timer.total_secs, secs);
    }
    a.handle_tray_item(TrayItem::PauseResume, at(10));
    assert_eq!(a.timer.phase, Phase::Paused);
    a.handle_tray_item(TrayItem::PauseResume, at(20));
    assert_eq!(a.timer.phase, Phase::Running);
    assert_eq!(a.timer.remaining(at(20)), 7190);
    a.handle_tray_item(TrayItem::Stop, at(30));
    assert_eq!(a.timer.phase, Phase::Setup);
    assert_eq!(
        a.handle_tray_item(TrayItem::ShowWindow, at(30)),
        vec![Effect::Visible(true), Effect::Focus]
    );
    assert_eq!(
        a.handle_tray_item(TrayItem::Quit, at(30)),
        vec![Effect::RemoveSocket, Effect::Exit(0)]
    );
}

#[test]
fn tray_view_per_phase() {
    let mut a = App::new();
    let v = a.tray_view(T0);
    assert_eq!(v.title, "");
    assert_eq!(v.pause_resume_label, None);
    assert_eq!(v.pause_resume_enabled, Some(false));
    assert_eq!(v.stop_enabled, Some(false));
    assert_eq!(v.presets_enabled, Some(true));
    a.handle_tray_item(TrayItem::Start1h, T0);
    let v = a.tray_view(at(1));
    assert_eq!(v.title, "  59:59");
    assert_eq!(v.pause_resume_label, Some(PauseResumeLabel::Pause));
    assert_eq!(PauseResumeLabel::Pause.text(), "Pause");
    assert_eq!(v.presets_enabled, Some(false));
    a.handle_tray_item(TrayItem::PauseResume, at(1));
    let v = a.tray_view(at(5));
    assert_eq!(v.title, "  59:59 \u{23F8}");
    assert_eq!(v.pause_resume_label, Some(PauseResumeLabel::Resume));
    assert_eq!(PauseResumeLabel::Resume.text(), "Resume");
    assert_eq!(v.presets_enabled, None);
    let mut b = running(10);
    b.advance(at(10), false, false);
    let v = b.tray_view(at(11));
    assert_eq!(v.title, "  BREAK");
    assert_eq!(v.stop_enabled, None);
}

#[test]
fn pomodoro_cycle_runs_focus_and_breaks() {
    let mut a = App::new();
    a.pomodoro.sessions_before_long_break = 2;
    let e = a.handle_ipc_command(&IpcCommand::StartPomodoro, T0);
    assert_eq!(e, vec![Effect::Notify(Notice::TimerStarted { seconds: 1500 })]);
    assert_eq!(a.pomodoro_round, Some(0));
    // first focus session ends: short break
    a.advance(at(1500), false, false);
    assert_eq!(a.timer.phase, Phase::BreakScreen);
    assert_eq!(a.timer.break_secs, 300);
    assert_eq!(a.pomodoro_round, Some(1));
    // short break ends: next focus session
    let e = a.advance(at(1800), false, false);
    assert_eq!(
        e,
        vec![Effect::Notify(Notice::TimerStarted { seconds: 1500 }), Effect::Fullscreen(false)]
    );
    assert_eq!(a.timer.phase, Phase::Running);
    // second focus session ends: long break
    a.advance(at(3300), false, false);
    assert_eq!(a.timer.break_secs, 900);
    assert_eq!(a.pomodoro_round, Some(2));
    // long break ends: cycle done
    a.advance(at(4200), false, false);
    assert_eq!(a.timer.phase, Phase::Done);
    assert_eq!(a.pomodoro_round, None);
}

#[test]
fn pomodoro_refused_when_unrunnable() {
    let mut a = App::new();
    a.pomodoro.focus_minutes = 0;
    assert!(a.handle_ipc_command(&IpcCommand::StartPomodoro, T0).is_empty());
    assert_eq!(a.timer.phase, Phase::Setup);
    match a.reply(&IpcCommand::StartPomodoro, T0) {
        IpcResponse::Error(m) => assert_eq!(m, "Invalid Pomodoro settings"),
        other => panic!("unexpected {:?}", other),
    }
    a.pomodoro_enabled = true;
    assert!(a.start_timer_from_input(T0).is_empty());
    assert_eq!(a.message, InputMessage::PomodoroUnrunnable);
}

#[test]
fn pomodoro_mode_on_setup_screen_starts_a_cycle() {
    let mut a = App::new();
    a.pomodoro_enabled = true;
    a.seconds = 1;
    a.start_timer_from_input(T0);
    assert_eq!(a.pomodoro_round, Some(0));
    assert_eq!(a.timer.total_secs, 1500);
}

#[test]
fn break_image_helpers() {
    assert!(is_break_image_extension("png"));
    assert!(is_break_image_extension("jpg"));
    assert!(is_break_image_extension("jpeg"));
    assert!(is_break_image_extension("webp"));
    assert!(!is_break_image_extension("PNG"));
    assert!(!is_break_image_extension("gif"));
    assert!(!is_break_image_extension(""));
    assert_eq!(break_image_index(7, 0), None);
    assert_eq!(break_image_index(7, 3), Some(1));
    assert_eq!(image_hint(2, "/x"), "2 break image(s) found");
    assert_eq!(image_hint(1234567, "/x"), "1234567 break image(s) found");
    assert_eq!(image_hint(0, "/home/u/.config/screen-timer/images"), "Add images to /home/u/.config/screen-timer/images");
    let mut a = App::new();
    assert!(a.begin_break_image_load());
    assert!(!a.begin_break_image_load());
}

#[test]
fn ring_tone_thresholds() {
    assert_eq!(ring_tone(0), RingTone::Alert);
    assert_eq!(ring_tone(10), RingTone::Alert);
    assert_eq!(ring_tone(11), RingTone::Warning);
    assert_eq!(ring_tone(60), RingTone::Warning);
    assert_eq!(ring_tone(61), RingTone::Calm);
}

#[test]
fn presets() {
    let mut a = App::new();
    assert!(a.preset_selected(0, 25));
    a.apply_preset(1, 30);
    assert!(a.preset_selected(1, 30));
    assert!(!a.preset_selected(0, 25));
    a.seconds = 5;
    assert!(!a.preset_selected(1, 30));
}
