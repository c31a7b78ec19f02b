//! The application's decisions: what a command, a tray click or a frame does to
//! the timer, and what the surroundings must then do (the `Effect`s).

use vstd::prelude::*;
use crate::cli::MIN_SESSION_SECS;
use crate::config::{AppConfig, PomodoroConfig};
use crate::ipc::{IpcCommand, IpcResponse};
use crate::text::{clock_text, format_time, push_char};
use crate::timer::{Notice, Phase, TimerState, lemma_pause_resume, lemma_break_lasts};

verus! {

/// Escape presses that end the break screen early.
pub const ESCAPE_COUNT_REQUIRED: u32 = 3;

/// Escape presses further apart than this (in nanoseconds) start the count anew.
pub const ESCAPE_WINDOW_NANOS: u64 = 2_000_000_000;

/// Seconds left at which the one-minute warning is given.
pub const WARNING_SECS: u64 = 60;

/// What the surroundings must do after a decision, in order.
#[derive(Clone, Copy, Debug, PartialEq, Eq, Structural)]
pub enum Effect {
    /// Show a desktop notification.
    Notify(Notice),
    /// Enter (`true`) or leave full screen.
    Fullscreen(bool),
    /// Give the window focus.
    Focus,
    /// Show (`true`) or hide the window.
    Visible(bool),
    /// Refuse the pending request to close the window.
    CancelClose,
    /// Remove the control socket.
    RemoveSocket,
    /// End the process with this code.
    Exit(i32),
}

/// An entry of the tray menu.
#[derive(Clone, Copy, Debug, PartialEq, Eq, Structural)]
pub enum TrayItem {
    Start25m,
    Start45m,
    Start1h,
    Start1h30m,
    Start2h,
    PauseResume,
    Stop,
    ShowWindow,
    Quit,
}

/// What the setup screen says under the start button.
#[derive(Clone, Copy, Debug, PartialEq, Eq, Structural)]
pub enum InputMessage {
    Clear,
    /// The duration typed is shorter than the minimum.
    TooShort,
    /// Pomodoro mode is on but its settings cannot run a cycle.
    PomodoroUnrunnable,
}

/// Label of the tray's pause/resume entry.
#[derive(Clone, Copy, Debug, PartialEq, Eq, Structural)]
pub enum PauseResumeLabel {
    Pause,
    Resume,
}

/// How urgent the countdown ring looks.
#[derive(Clone, Copy, Debug, PartialEq, Eq, Structural)]
pub enum RingTone {
    /// More than a minute left.
    Calm,
    /// A minute or less left.
    Warning,
    /// Ten seconds or less left.
    Alert,
}

/// What the tray shows; `None` leaves an entry as it was.
pub struct TrayView {
    pub title: String,
    pub pause_resume_label: Option<PauseResumeLabel>,
    pub pause_resume_enabled: Option<bool>,
    pub stop_enabled: Option<bool>,
    pub presets_enabled: Option<bool>,
}

/// The state that the application's decisions read and change.
#[derive(Clone, Copy, Debug, PartialEq, Eq, Structural)]
pub struct App {
    pub timer: TimerState,
    /// The duration typed on the setup screen.
    pub hours: u32,
    pub minutes: u32,
    pub seconds: u32,
    pub message: InputMessage,
    /// Whether the break image was looked for since the break screen came up.
    pub break_image_loaded: bool,
    /// Whether the window went full screen for the break.
    pub was_fullscreen: bool,
    /// Escape presses counted on the break screen: those of the latest run
    /// lying within `ESCAPE_WINDOW_NANOS` of one another.
    pub escape_count: u32,
    /// When the earliest press still counted came.
    pub first_escape_time: Option<u64>,
    /// When the latest press came.
    pub last_escape_time: Option<u64>,
    /// Whether the setup screen starts Pomodoro cycles.
    pub pomodoro_enabled: bool,
    pub pomodoro: PomodoroConfig,
    /// While a Pomodoro cycle runs, the focus sessions of it completed so far.
    pub pomodoro_round: Option<u32>,
}

impl PauseResumeLabel {
    /// The entry's text.
    pub fn text(&self) -> (r: String)
        ensures
            r@ == (match *self {
                PauseResumeLabel::Pause => "Pause"@,
                PauseResumeLabel::Resume => "Resume"@,
            }),
    {
        match self {
            PauseResumeLabel::Pause => String::from_str("Pause"),
            PauseResumeLabel::Resume => String::from_str("Resume"),
        }
    }
}

impl InputMessage {
    /// The text shown (empty for `Clear`).
    pub fn text(&self) -> (r: String)
        ensures
            r@ == (match *self {
                InputMessage::Clear => ""@,
                InputMessage::TooShort => "Minimum 10 seconds"@,
                InputMessage::PomodoroUnrunnable => "Pomodoro needs at least one session of at least a minute"@,
            }),
    {
        match self {
            InputMessage::Clear => String::from_str(""),
            InputMessage::TooShort => String::from_str("Minimum 10 seconds"),
            InputMessage::PomodoroUnrunnable => String::from_str(
                "Pomodoro needs at least one session of at least a minute",
            ),
        }
    }
}

/// The tray's title: the time left while a session runs or is paused.
pub open spec fn tray_title_text(app: App, now: u64) -> Seq<char> {
    match app.timer.phase {
        Phase::Running => "  "@ + clock_text(app.timer.remaining_at(now)),
        Phase::Paused => "  "@ + clock_text(app.timer.remaining_at(now)) + seq![' ', '\u{23F8}'],
        Phase::BreakScreen => "  BREAK"@,
        _ => ""@,
    }
}

/// The hint on the break screen about the triple-Escape unlock.
pub open spec fn escape_hint_text(count: u32) -> Seq<char> {
    if 0 < count && count < ESCAPE_COUNT_REQUIRED {
        "Press Esc "@ + crate::text::decimal((ESCAPE_COUNT_REQUIRED - count) as nat)
            + " more time(s) to unlock"@
    } else {
        "Press Esc x3 to emergency unlock"@
    }
}

/// The ring's tone for `remaining` seconds left.
pub open spec fn ring_tone_of(remaining: u64) -> RingTone {
    if remaining <= 10 {
        RingTone::Alert
    } else if remaining <= WARNING_SECS {
        RingTone::Warning
    } else {
        RingTone::Calm
    }
}

/// The ring's tone for `remaining` seconds left.
pub fn ring_tone(remaining: u64) -> (r: RingTone)
    ensures
        r == ring_tone_of(remaining),
{
    if remaining <= 10 {
        RingTone::Alert
    } else if remaining <= WARNING_SECS {
        RingTone::Warning
    } else {
        RingTone::Calm
    }
}

/// The hint on the break screen about the triple-Escape unlock.
pub fn escape_hint(count: u32) -> (r: String)
    ensures
        r@ == escape_hint_text(count),
{
    if 0 < count && count < ESCAPE_COUNT_REQUIRED {
        let mut s = String::from_str("Press Esc ");
        crate::text::push_decimal(&mut s, (ESCAPE_COUNT_REQUIRED - count) as u64);
        s.append(" more time(s) to unlock");
        s
    } else {
        String::from_str("Press Esc x3 to emergency unlock")
    }
}

/// Whether a file extension names a break image: `png`, `jpg`, `jpeg` or `webp`.
pub open spec fn image_extension(ext: Seq<char>) -> bool {
    ext == "png"@ || ext == "jpg"@ || ext == "jpeg"@ || ext == "webp"@
}

fn same_text(a: &str, b: &str) -> (r: bool)
    ensures
        r == (a@ == b@),
{
    let x = crate::text::chars_of(a);
    let y = crate::text::chars_of(b);
    if x.len() != y.len() {
        return false;
    }
    let mut i: usize = 0;
    while i < x.len()
        invariant
            x@ == a@,
            y@ == b@,
            x.len() == y.len(),
            i <= x.len(),
            forall|j: int| 0 <= j < i ==> x@[j] == y@[j],
        decreases x.len() - i,
    {
        if x[i] != y[i] {
            return false;
        }
        i = i + 1;
    }
    assert(x@ =~= y@);
    true
}

/// Whether a file extension names a break image.
pub fn is_break_image_extension(ext: &str) -> (r: bool)
    ensures
        r == image_extension(ext@),
{
    same_text(ext, "png") || same_text(ext, "jpg") || same_text(ext, "jpeg") || same_text(
        ext,
        "webp",
    )
}

/// Which of `count` break images to show, from a seed read off the clock.
pub fn break_image_index(seed: usize, count: usize) -> (r: Option<usize>)
    ensures
        count == 0 ==> r is None,
        count > 0 ==> r == Some((seed % count) as usize),
{
    if count == 0 {
        None
    } else {
        Some(seed % count)
    }
}

/// The line under the setup screen about break images.
pub fn image_hint(count: usize, dir: &str) -> (r: String)
    ensures
        count > 0 ==> r@ == crate::text::decimal(count as nat) + " break image(s) found"@,
        count == 0 ==> r@ == "Add images to "@ + dir@,
{
    if count > 0 {
        let mut s = String::new();
        crate::text::push_decimal(&mut s, count as u64);
        s.append(" break image(s) found");
        s
    } else {
        let mut s = String::from_str("Add images to ");
        s.append(dir);
        s
    }
}

impl App {
    /// A fresh application: 25 minutes typed, a 30-second break screen.
    pub open spec fn initial() -> App {
        App {
            timer: TimerState::initial(),
            hours: 0,
            minutes: 25,
            seconds: 0,
            message: InputMessage::Clear,
            break_image_loaded: false,
            was_fullscreen: false,
            escape_count: 0,
            first_escape_time: None,
            last_escape_time: None,
            pomodoro_enabled: false,
            pomodoro: PomodoroConfig::standard(),
            pomodoro_round: None,
        }
    }

    /// A fresh application with remembered settings.
    pub open spec fn configured(c: AppConfig) -> App {
        App {
            timer: TimerState { lockout_secs: c.break_length_secs, ..TimerState::initial() },
            hours: c.last_hours,
            minutes: c.last_minutes,
            seconds: c.last_seconds,
            pomodoro_enabled: c.pomodoro_enabled,
            pomodoro: c.pomodoro,
            ..App::initial()
        }
    }

    /// The settings to remember.
    pub open spec fn settings(self) -> AppConfig {
        AppConfig {
            last_hours: self.hours,
            last_minutes: self.minutes,
            last_seconds: self.seconds,
            break_length_secs: self.timer.lockout_secs,
            pomodoro_enabled: self.pomodoro_enabled,
            pomodoro: self.pomodoro,
        }
    }

    /// The invariant the decisions keep: the Escape count stays below the
    /// unlock count, and a running Pomodoro cycle has sessions left while a
    /// focus session runs or is paused.
    pub open spec fn wf(self) -> bool {
        &&& self.escape_count < ESCAPE_COUNT_REQUIRED
        &&& match self.pomodoro_round {
            Some(k) => k <= self.pomodoro.sessions_before_long_break && ((self.timer.phase
                is Running || self.timer.phase is Paused) ==> k
                < self.pomodoro.sessions_before_long_break),
            None => true,
        }
    }

    /// The duration typed on the setup screen, in seconds.
    pub open spec fn input_secs(self) -> nat {
        (self.hours * 3600 + self.minutes * 60 + self.seconds) as nat
    }

    /// A plain session of `secs` seconds begun at `now` (any cycle dropped).
    pub open spec fn with_session(self, secs: u64, now: u64) -> (App, Seq<Effect>) {
        (
            App { timer: self.timer.started(secs, now), pomodoro_round: None, ..self },
            seq![Effect::Notify(Notice::TimerStarted { seconds: secs })],
        )
    }

    /// A Pomodoro cycle begun at `now` with its first focus session.
    pub open spec fn with_cycle(self, now: u64) -> (App, Seq<Effect>) {
        (
            App {
                timer: self.timer.started(self.pomodoro.focus_len() as u64, now),
                pomodoro_round: Some(0),
                ..self
            },
            seq![
                Effect::Notify(
                    Notice::TimerStarted { seconds: self.pomodoro.focus_len() as u64 },
                ),
            ],
        )
    }

    /// The setup screen's start button at `now`.
    pub open spec fn after_input_start(self, now: u64) -> (App, Seq<Effect>) {
        if self.pomodoro_enabled {
            if self.pomodoro.runnable() {
                App { message: InputMessage::Clear, ..self }.with_cycle(now)
            } else {
                (App { message: InputMessage::PomodoroUnrunnable, ..self }, seq![])
            }
        } else if self.input_secs() < MIN_SESSION_SECS {
            (App { message: InputMessage::TooShort, ..self }, seq![])
        } else {
            App { message: InputMessage::Clear, ..self }.with_session(
                self.input_secs() as u64,
                now,
            )
        }
    }

    /// A command from the control socket, at `now`.
    pub open spec fn after_command(self, cmd: IpcCommand, now: u64) -> (App, Seq<Effect>) {
        match cmd {
            IpcCommand::Start { seconds } => self.with_session(seconds, now),
            IpcCommand::Stop => (
                App { timer: self.timer.stopped(), pomodoro_round: None, ..self },
                seq![],
            ),
            IpcCommand::Pause => if self.timer.phase is Running {
                (App { timer: self.timer.paused(now), ..self }, seq![])
            } else {
                (self, seq![])
            },
            IpcCommand::Resume => if self.timer.phase is Paused {
                (App { timer: self.timer.resumed(now), ..self }, seq![])
            } else {
                (self, seq![])
            },
            IpcCommand::Status => (self, seq![]),
            IpcCommand::SetImage { .. } => (self, seq![]),
            IpcCommand::Unlock => if self.timer.phase is BreakScreen {
                (
                    App {
                        timer: TimerState { phase: Phase::Done, ..self.timer },
                        was_fullscreen: false,
                        pomodoro_round: None,
                        ..self
                    },
                    if self.was_fullscreen {
                        seq![Effect::Fullscreen(false)]
                    } else {
                        seq![]
                    },
                )
            } else {
                (self, seq![])
            },
            IpcCommand::Quit => (self, seq![Effect::Exit(0)]),
            IpcCommand::StartPomodoro => if self.pomodoro.runnable() {
                self.with_cycle(now)
            } else {
                (self, seq![])
            },
        }
    }

    /// A click on the tray menu, at `now`.
    pub open spec fn after_tray(self, item: TrayItem, now: u64) -> (App, Seq<Effect>) {
        match item {
            TrayItem::Start25m => self.with_session(1500, now),
            TrayItem::Start45m => self.with_session(2700, now),
            TrayItem::Start1h => self.with_session(3600, now),
            TrayItem::Start1h30m => self.with_session(5400, now),
            TrayItem::Start2h => self.with_session(7200, now),
            TrayItem::PauseResume => match self.timer.phase {
                Phase::Running => (App { timer: self.timer.paused(now), ..self }, seq![]),
                Phase::Paused => (App { timer: self.timer.resumed(now), ..self }, seq![]),
                _ => (self, seq![]),
            },
            TrayItem::Stop => (
                App { timer: self.timer.stopped(), pomodoro_round: None, ..self },
                seq![],
            ),
            TrayItem::ShowWindow => (self, seq![Effect::Visible(true), Effect::Focus]),
            TrayItem::Quit => (self, seq![Effect::RemoveSocket, Effect::Exit(0)]),
        }
    }

    /// A session that ran out brings the break screen up: the configured lockout,
    /// or in a Pomodoro cycle the short or long break that comes next.
    pub open spec fn expire_stage(self, now: u64) -> (App, Seq<Effect>) {
        if self.timer.phase is Running && self.timer.remaining_at(now) == 0 {
            let round: Option<u32> = match self.pomodoro_round {
                Some(k) => Some((k + 1) as u32),
                None => None,
            };
            let len: nat = match self.pomodoro_round {
                Some(k) => self.pomodoro.break_len_after((k + 1) as u32),
                None => self.timer.lockout_secs as nat,
            };
            (
                App {
                    timer: self.timer.on_break(now, len as u64),
                    break_image_loaded: false,
                    escape_count: 0,
                    first_escape_time: None,
                    last_escape_time: None,
                    was_fullscreen: true,
                    pomodoro_round: round,
                    ..self
                },
                seq![
                    Effect::Notify(Notice::TimeUp),
                    Effect::Fullscreen(true),
                    Effect::Focus,
                    Effect::Visible(true),
                ],
            )
        } else {
            (self, seq![])
        }
    }

    /// The one-minute warning, once per session.
    pub open spec fn warn_stage(self, now: u64) -> (App, Seq<Effect>) {
        if self.timer.phase is Running && !self.timer.warned && self.timer.remaining_at(now)
            <= WARNING_SECS {
            (
                App { timer: TimerState { warned: true, ..self.timer }, ..self },
                seq![Effect::Notify(Notice::OneMinuteLeft)],
            )
        } else {
            (self, seq![])
        }
    }

    /// Whether a press at `t` (if any) lies within the window before `now`; a
    /// clock reading earlier than `t` counts as no time passed.
    pub open spec fn within_window(t: Option<u64>, now: u64) -> bool {
        match t {
            Some(t) => now < t || now - t <= ESCAPE_WINDOW_NANOS,
            None => false,
        }
    }

    /// An Escape press on the break screen at `now`: it ends the break screen
    /// when the two presses before it came within the window before it, so
    /// that three presses lie within `ESCAPE_WINDOW_NANOS` in all. Otherwise
    /// it counts along with those earlier presses still within the window.
    pub open spec fn escape_stage(self, now: u64, pressed: bool) -> (App, Seq<Effect>) {
        if self.timer.phase is BreakScreen && pressed {
            if self.escape_count >= 2 && App::within_window(self.first_escape_time, now) {
                let fs: Seq<Effect> = if self.was_fullscreen {
                    seq![Effect::Fullscreen(false)]
                } else {
                    seq![]
                };
                (
                    App {
                        timer: TimerState { phase: Phase::Done, ..self.timer },
                        was_fullscreen: false,
                        escape_count: 0,
                        first_escape_time: None,
                        last_escape_time: Some(now),
                        pomodoro_round: None,
                        ..self
                    },
                    fs.push(Effect::Notify(Notice::EmergencyUnlock)),
                )
            } else if self.escape_count >= 1 && App::within_window(self.last_escape_time, now) {
                (
                    App {
                        escape_count: 2,
                        first_escape_time: self.last_escape_time,
                        last_escape_time: Some(now),
                        ..self
                    },
                    seq![],
                )
            } else {
                (
                    App {
                        escape_count: 1,
                        first_escape_time: Some(now),
                        last_escape_time: Some(now),
                        ..self
                    },
                    seq![],
                )
            }
        } else {
            (self, seq![])
        }
    }

    /// The break screen's time is up: the next focus session of a Pomodoro cycle
    /// begins, or the break is done.
    pub open spec fn break_end_stage(self, now: u64) -> (App, Seq<Effect>) {
        if self.timer.phase is BreakScreen && self.timer.break_remaining_at(now) == 0 {
            let fs: Seq<Effect> = if self.was_fullscreen {
                seq![Effect::Fullscreen(false)]
            } else {
                seq![]
            };
            let more: bool = match self.pomodoro_round {
                Some(k) => k < self.pomodoro.sessions_before_long_break,
                None => false,
            };
            if more {
                let focus: u64 = self.pomodoro.focus_len() as u64;
                (
                    App { timer: self.timer.started(focus, now), was_fullscreen: false, ..self },
                    seq![Effect::Notify(Notice::TimerStarted { seconds: focus })] + fs,
                )
            } else {
                (
                    App {
                        timer: TimerState { phase: Phase::Done, ..self.timer },
                        was_fullscreen: false,
                        pomodoro_round: None,
                        ..self
                    },
                    fs,
                )
            }
        } else {
            (self, seq![])
        }
    }

    /// A request to close the window: hidden instead while a session or break
    /// is on, else the socket goes.
    pub open spec fn close_stage(self, requested: bool) -> (App, Seq<Effect>) {
        if requested {
            if self.timer.phase is Running || self.timer.phase is Paused || self.timer.phase
                is BreakScreen {
                (self, seq![Effect::CancelClose, Effect::Visible(false)])
            } else {
                (self, seq![Effect::RemoveSocket])
            }
        } else {
            (self, seq![])
        }
    }

    /// One frame at `now`, after the commands and clicks of the frame were handled.
    pub open spec fn after_frame(self, now: u64, escape_pressed: bool, close_requested: bool) -> (
        App,
        Seq<Effect>,
    ) {
        let (a1, e1) = self.expire_stage(now);
        let (a2, e2) = a1.warn_stage(now);
        let (a3, e3) = a2.escape_stage(now, escape_pressed);
        let (a4, e4) = a3.break_end_stage(now);
        let (a5, e5) = a4.close_stage(close_requested);
        (a5, e1 + e2 + e3 + e4 + e5)
    }
}

impl App {
    /// A fresh application.
    pub fn new() -> (r: App)
        ensures
            r == App::initial(),
            r.wf(),
    {
        App {
            timer: TimerState::new(),
            hours: 0,
            minutes: 25,
            seconds: 0,
            message: InputMessage::Clear,
            break_image_loaded: false,
            was_fullscreen: false,
            escape_count: 0,
            first_escape_time: None,
            last_escape_time: None,
            pomodoro_enabled: false,
            pomodoro: PomodoroConfig::default(),
            pomodoro_round: None,
        }
    }

    /// A fresh application with remembered settings.
    pub fn with_config(c: &AppConfig) -> (r: App)
        ensures
            r == App::configured(*c),
            r.wf(),
    {
        let mut timer = TimerState::new();
        timer.lockout_secs = c.break_length_secs;
        App {
            timer,
            hours: c.last_hours,
            minutes: c.last_minutes,
            seconds: c.last_seconds,
            message: InputMessage::Clear,
            break_image_loaded: false,
            was_fullscreen: false,
            escape_count: 0,
            first_escape_time: None,
            last_escape_time: None,
            pomodoro_enabled: c.pomodoro_enabled,
            pomodoro: c.pomodoro,
            pomodoro_round: None,
        }
    }

    /// The settings to remember.
    pub fn config(&self) -> (r: AppConfig)
        ensures
            r == self.settings(),
    {
        AppConfig {
            last_hours: self.hours,
            last_minutes: self.minutes,
            last_seconds: self.seconds,
            break_length_secs: self.timer.lockout_secs,
            pomodoro_enabled: self.pomodoro_enabled,
            pomodoro: self.pomodoro,
        }
    }

    /// Tells whether the invariant holds (for callers that changed fields).
    pub fn well_formed(&self) -> (r: bool)
        ensures
            r == self.wf(),
    {
        self.escape_count < ESCAPE_COUNT_REQUIRED && match self.pomodoro_round {
            Some(k) => k <= self.pomodoro.sessions_before_long_break && (!(self.timer.phase
                == Phase::Running || self.timer.phase == Phase::Paused) || k
                < self.pomodoro.sessions_before_long_break),
            None => true,
        }
    }

    /// The duration typed on the setup screen, in seconds.
    pub fn total_input_secs(&self) -> (r: u64)
        ensures
            r == self.input_secs(),
    {
        self.hours as u64 * 3600 + self.minutes as u64 * 60 + self.seconds as u64
    }

    fn begin_session(&mut self, secs: u64, now: u64) -> (effects: Vec<Effect>)
        ensures
            *final(self) == old(self).with_session(secs, now).0,
            effects@ == old(self).with_session(secs, now).1,
    {
        self.pomodoro_round = None;
        let n = self.timer.start(secs, now);
        let mut effects = Vec::new();
        effects.push(Effect::Notify(n));
        effects
    }

    fn begin_cycle(&mut self, now: u64) -> (effects: Vec<Effect>)
        ensures
            *final(self) == old(self).with_cycle(now).0,
            effects@ == old(self).with_cycle(now).1,
    {
        self.pomodoro_round = Some(0);
        let focus: u64 = self.pomodoro.focus_secs();
        let n = self.timer.start(focus, now);
        let mut effects = Vec::new();
        effects.push(Effect::Notify(n));
        effects
    }

    /// The setup screen's start button: a session of the typed duration, or a
    /// Pomodoro cycle in Pomodoro mode; refused with a message when too short
    /// or when the cycle cannot run.
    pub fn start_timer_from_input(&mut self, now: u64) -> (effects: Vec<Effect>)
        requires
            old(self).wf(),
        ensures
            final(self).wf(),
            *final(self) == old(self).after_input_start(now).0,
            effects@ == old(self).after_input_start(now).1,
    {
        if self.pomodoro_enabled {
            if self.pomodoro.is_runnable() {
                self.message = InputMessage::Clear;
                self.begin_cycle(now)
            } else {
                self.message = InputMessage::PomodoroUnrunnable;
                Vec::new()
            }
        } else {
            let total: u64 = self.total_input_secs();
            if total < MIN_SESSION_SECS {
                self.message = InputMessage::TooShort;
                Vec::new()
            } else {
                self.message = InputMessage::Clear;
                self.begin_session(total, now)
            }
        }
    }

    /// A command from the control socket, at `now`.
    pub fn handle_ipc_command(&mut self, cmd: &IpcCommand, now: u64) -> (effects: Vec<Effect>)
        requires
            old(self).wf(),
            cmd is Pause ==> old(self).timer.clock_fits(now),
        ensures
            final(self).wf(),
            *final(self) == old(self).after_command(*cmd, now).0,
            effects@ == old(self).after_command(*cmd, now).1,
    {
        match cmd {
            IpcCommand::Start { seconds } => self.begin_session(*seconds, now),
            IpcCommand::Stop => {
                self.timer.stop();
                self.pomodoro_round = None;
                Vec::new()
            },
            IpcCommand::Pause => {
                if self.timer.phase == Phase::Running {
                    self.timer.pause(now);
                }
                Vec::new()
            },
            IpcCommand::Resume => {
                if self.timer.phase == Phase::Paused {
                    self.timer.resume(now);
                }
                Vec::new()
            },
            IpcCommand::Status => Vec::new(),
            IpcCommand::SetImage { .. } => Vec::new(),
            IpcCommand::Unlock => {
                let mut effects = Vec::new();
                if self.timer.phase == Phase::BreakScreen {
                    self.timer.phase = Phase::Done;
                    self.pomodoro_round = None;
                    if self.was_fullscreen {
                        effects.push(Effect::Fullscreen(false));
                        self.was_fullscreen = false;
                    }
                }
                effects
            },
            IpcCommand::Quit => {
                let mut effects = Vec::new();
                effects.push(Effect::Exit(0));
                effects
            },
            IpcCommand::StartPomodoro => {
                if self.pomodoro.is_runnable() {
                    self.begin_cycle(now)
                } else {
                    Vec::new()
                }
            },
        }
    }

    /// The answer to a command: the timer's status for `Status`, an error for a
    /// Pomodoro cycle that cannot run, else an acknowledgement.
    pub fn reply(&self, cmd: &IpcCommand, now: u64) -> (r: IpcResponse)
        requires
            cmd is Status ==> self.timer.clock_fits(now),
        ensures
            cmd is Status ==> (r matches IpcResponse::Status { running, paused, remaining, total }
                && running == (self.timer.phase is Running) && paused == (self.timer.phase is Paused)
                && remaining == self.timer.remaining_at(now) && total == self.timer.total_secs),
            (cmd is StartPomodoro && !self.pomodoro.runnable()) ==> (r matches IpcResponse::Error(m)
                && m@ == "Invalid Pomodoro settings"@),
            (!(cmd is Status) && !(cmd is StartPomodoro && !self.pomodoro.runnable())) ==> (r matches IpcResponse::Ack { message }
                && message@ == "Command received"@),
    {
        match cmd {
            IpcCommand::Status => IpcResponse::Status {
                running: self.timer.phase == Phase::Running,
                paused: self.timer.phase == Phase::Paused,
                remaining: self.timer.remaining(now),
                total: self.timer.total_secs,
            },
            IpcCommand::StartPomodoro => {
                if self.pomodoro.is_runnable() {
                    IpcResponse::Ack { message: String::from_str("Command received") }
                } else {
                    IpcResponse::Error(String::from_str("Invalid Pomodoro settings"))
                }
            },
            _ => IpcResponse::Ack { message: String::from_str("Command received") },
        }
    }

    /// A click on the tray menu, at `now`.
    pub fn handle_tray_item(&mut self, item: TrayItem, now: u64) -> (effects: Vec<Effect>)
        requires
            old(self).wf(),
            item is PauseResume ==> old(self).timer.clock_fits(now),
        ensures
            final(self).wf(),
            *final(self) == old(self).after_tray(item, now).0,
            effects@ == old(self).after_tray(item, now).1,
    {
        match item {
            TrayItem::Start25m => self.begin_session(1500, now),
            TrayItem::Start45m => self.begin_session(2700, now),
            TrayItem::Start1h => self.begin_session(3600, now),
            TrayItem::Start1h30m => self.begin_session(5400, now),
            TrayItem::Start2h => self.begin_session(7200, now),
            TrayItem::PauseResume => {
                match self.timer.phase {
                    Phase::Running => self.timer.pause(now),
                    Phase::Paused => self.timer.resume(now),
                    _ => {},
                }
                Vec::new()
            },
            TrayItem::Stop => {
                self.timer.stop();
                self.pomodoro_round = None;
                Vec::new()
            },
            TrayItem::ShowWindow => {
                let mut effects = Vec::new();
                effects.push(Effect::Visible(true));
                effects.push(Effect::Focus);
                effects
            },
            TrayItem::Quit => {
                let mut effects = Vec::new();
                effects.push(Effect::RemoveSocket);
                effects.push(Effect::Exit(0));
                effects
            },
        }
    }

    /// Whether the window must be redrawn soon without input: while a session
    /// runs or the break screen is up.
    pub fn wants_repaint(&self) -> (r: bool)
        ensures
            r == (self.timer.phase is Running || self.timer.phase is BreakScreen),
    {
        self.timer.phase == Phase::Running || self.timer.phase == Phase::BreakScreen
    }

    fn expire(&mut self, now: u64, effects: &mut Vec<Effect>)
        requires
            old(self).wf(),
            old(self).timer.clock_fits(now),
        ensures
            final(self).wf(),
            *final(self) == old(self).expire_stage(now).0,
            final(effects)@ == old(effects)@ + old(self).expire_stage(now).1,
    {
        if self.timer.phase == Phase::Running && self.timer.remaining(now) == 0 {
            self.break_image_loaded = false;
            self.escape_count = 0;
            self.first_escape_time = None;
            self.last_escape_time = None;
            let n = match self.pomodoro_round {
                Some(k) => {
                    let done: u32 = k + 1;
                    self.pomodoro_round = Some(done);
                    let len: u64 = self.pomodoro.break_secs_after(done);
                    self.timer.enter_break_for(now, len)
                },
                None => self.timer.enter_break(now),
            };
            self.was_fullscreen = true;
            effects.push(Effect::Notify(n));
            effects.push(Effect::Fullscreen(true));
            effects.push(Effect::Focus);
            effects.push(Effect::Visible(true));
        }
    }

    fn warn(&mut self, now: u64, effects: &mut Vec<Effect>)
        requires
            old(self).wf(),
            old(self).timer.phase is Running ==> old(self).timer.clock_fits(now),
        ensures
            final(self).wf(),
            *final(self) == old(self).warn_stage(now).0,
            final(effects)@ == old(effects)@ + old(self).warn_stage(now).1,
    {
        if self.timer.phase == Phase::Running && !self.timer.warned && self.timer.remaining(now)
            <= WARNING_SECS {
            self.timer.warned = true;
            effects.push(Effect::Notify(Notice::OneMinuteLeft));
        }
    }

    fn escape(&mut self, now: u64, pressed: bool, effects: &mut Vec<Effect>)
        requires
            old(self).wf(),
        ensures
            final(self).wf(),
            *final(self) == old(self).escape_stage(now, pressed).0,
            final(effects)@ == old(effects)@ + old(self).escape_stage(now, pressed).1,
    {
        if self.timer.phase == Phase::BreakScreen && pressed {
            let first_within: bool = match self.first_escape_time {
                Some(t) => now < t || now - t <= ESCAPE_WINDOW_NANOS,
                None => false,
            };
            let last_within: bool = match self.last_escape_time {
                Some(t) => now < t || now - t <= ESCAPE_WINDOW_NANOS,
                None => false,
            };
            if self.escape_count >= 2 && first_within {
                self.timer.phase = Phase::Done;
                self.pomodoro_round = None;
                if self.was_fullscreen {
                    effects.push(Effect::Fullscreen(false));
                    self.was_fullscreen = false;
                }
                self.escape_count = 0;
                self.first_escape_time = None;
                self.last_escape_time = Some(now);
                effects.push(Effect::Notify(Notice::EmergencyUnlock));
            } else if self.escape_count >= 1 && last_within {
                self.escape_count = 2;
                self.first_escape_time = self.last_escape_time;
                self.last_escape_time = Some(now);
            } else {
                self.escape_count = 1;
                self.first_escape_time = Some(now);
                self.last_escape_time = Some(now);
            }
        }
    }

    fn end_break(&mut self, now: u64, effects: &mut Vec<Effect>)
        requires
            old(self).wf(),
        ensures
            final(self).wf(),
            *final(self) == old(self).break_end_stage(now).0,
            final(effects)@ == old(effects)@ + old(self).break_end_stage(now).1,
    {
        if self.timer.phase == Phase::BreakScreen && self.timer.break_remaining(now) == 0 {
            let more = match self.pomodoro_round {
                Some(k) => k < self.pomodoro.sessions_before_long_break,
                None => false,
            };
            if more {
                let focus: u64 = self.pomodoro.focus_secs();
                let n = self.timer.start(focus, now);
                effects.push(Effect::Notify(n));
            } else {
                self.timer.phase = Phase::Done;
                self.pomodoro_round = None;
            }
            if self.was_fullscreen {
                effects.push(Effect::Fullscreen(false));
                self.was_fullscreen = false;
            }
        }
    }

    fn close(&mut self, requested: bool, effects: &mut Vec<Effect>)
        ensures
            *final(self) == old(self).close_stage(requested).0,
            final(effects)@ == old(effects)@ + old(self).close_stage(requested).1,
    {
        if requested {
            if self.timer.phase == Phase::Running || self.timer.phase == Phase::Paused
                || self.timer.phase == Phase::BreakScreen {
                effects.push(Effect::CancelClose);
                effects.push(Effect::Visible(false));
            } else {
                effects.push(Effect::RemoveSocket);
            }
        }
    }

    /// One frame at `now`, after its commands and clicks were handled: the
    /// session running out, the one-minute warning, an Escape press, the end of
    /// the break screen, and a request to close the window, in that order.
    pub fn advance(&mut self, now: u64, escape_pressed: bool, close_requested: bool) -> (effects:
        Vec<Effect>)
        requires
            old(self).wf(),
            old(self).timer.clock_fits(now),
        ensures
            final(self).wf(),
            *final(self) == old(self).after_frame(now, escape_pressed, close_requested).0,
            effects@ == old(self).after_frame(now, escape_pressed, close_requested).1,
    {
        let ghost s0 = *self;
        let mut effects: Vec<Effect> = Vec::new();
        self.expire(now, &mut effects);
        let ghost s1 = *self;
        let ghost e1 = effects@;
        self.warn(now, &mut effects);
        let ghost e2 = effects@;
        self.escape(now, escape_pressed, &mut effects);
        let ghost e3 = effects@;
        self.end_break(now, &mut effects);
        let ghost e4 = effects@;
        self.close(close_requested, &mut effects);
        proof {
            let (a1, f1) = s0.expire_stage(now);
            let (a2, f2) = a1.warn_stage(now);
            let (a3, f3) = a2.escape_stage(now, escape_pressed);
            let (a4, f4) = a3.break_end_stage(now);
            let (a5, f5) = a4.close_stage(close_requested);
            assert(effects@ =~= f1 + f2 + f3 + f4 + f5);
        }
        effects
    }

    /// What the tray shows at `now`.
    pub fn tray_view(&self, now: u64) -> (r: TrayView)
        requires
            self.timer.clock_fits(now),
        ensures
            r.title@ == tray_title_text(*self, now),
            r.pause_resume_label == (match self.timer.phase {
                Phase::Running => Some(PauseResumeLabel::Pause),
                Phase::Paused => Some(PauseResumeLabel::Resume),
                _ => None::<PauseResumeLabel>,
            }),
            r.pause_resume_enabled == (match self.timer.phase {
                Phase::Running | Phase::Paused => Some(true),
                Phase::BreakScreen => None::<bool>,
                _ => Some(false),
            }),
            r.stop_enabled == (match self.timer.phase {
                Phase::Running | Phase::Paused => Some(true),
                Phase::BreakScreen => None::<bool>,
                _ => Some(false),
            }),
            r.presets_enabled == (match self.timer.phase {
                Phase::Running => Some(false),
                Phase::Paused | Phase::BreakScreen => None::<bool>,
                _ => Some(true),
            }),
    {
        match self.timer.phase {
            Phase::Running => {
                let mut title = String::from_str("  ");
                let t = format_time(self.timer.remaining(now));
                title.append(t.as_str());
                TrayView {
                    title,
                    pause_resume_label: Some(PauseResumeLabel::Pause),
                    pause_resume_enabled: Some(true),
                    stop_enabled: Some(true),
                    presets_enabled: Some(false),
                }
            },
            Phase::Paused => {
                let mut title = String::from_str("  ");
                let t = format_time(self.timer.remaining(now));
                title.append(t.as_str());
                push_char(&mut title, ' ');
                push_char(&mut title, '\u{23F8}');
                TrayView {
                    title,
                    pause_resume_label: Some(PauseResumeLabel::Resume),
                    pause_resume_enabled: Some(true),
                    stop_enabled: Some(true),
                    presets_enabled: None,
                }
            },
            Phase::BreakScreen => TrayView {
                title: String::from_str("  BREAK"),
                pause_resume_label: None,
                pause_resume_enabled: None,
                stop_enabled: None,
                presets_enabled: None,
            },
            _ => TrayView {
                title: String::from_str(""),
                pause_resume_label: None,
                pause_resume_enabled: Some(false),
                stop_enabled: Some(false),
                presets_enabled: Some(true),
            },
        }
    }

    /// Whether the break image is to be looked for now: once per break screen.
    pub fn begin_break_image_load(&mut self) -> (r: bool)
        ensures
            r == !old(self).break_image_loaded,
            *final(self) == (App { break_image_loaded: true, ..*old(self) }),
    {
        if self.break_image_loaded {
            return false;
        }
        self.break_image_loaded = true;
        true
    }

    /// Whether the typed duration is exactly `h` hours and `m` minutes.
    pub fn preset_selected(&self, h: u32, m: u32) -> (r: bool)
        ensures
            r == (self.hours == h && self.minutes == m && self.seconds == 0),
    {
        self.hours == h && self.minutes == m && self.seconds == 0
    }

    /// Types `h` hours and `m` minutes.
    pub fn apply_preset(&mut self, h: u32, m: u32)
        ensures
            *final(self) == (App { hours: h, minutes: m, seconds: 0, ..*old(self) }),
    {
        self.hours = h;
        self.minutes = m;
        self.seconds = 0;
    }
}


/// Remembered settings come back as they were saved.
pub proof fn lemma_settings_round_trip(c: AppConfig)
    ensures
        App::configured(c).settings() == c,
        App::configured(c).wf(),
{
}

/// When a session runs out outside a Pomodoro cycle, the break screen comes up
/// in full screen for the configured lockout.
pub proof fn lemma_time_up_brings_break(a: App, now: u64)
    requires
        a.wf(),
        a.timer.phase is Running,
        a.timer.clock_fits(now),
        a.timer.remaining_at(now) == 0,
        a.pomodoro_round is None,
        a.timer.lockout_secs > 0,
    ensures
        a.after_frame(now, false, false).0.timer.phase is BreakScreen,
        a.after_frame(now, false, false).0.timer.break_secs == a.timer.lockout_secs,
        a.after_frame(now, false, false).0.was_fullscreen,
        a.after_frame(now, false, false).1 == seq![
            Effect::Notify(Notice::TimeUp),
            Effect::Fullscreen(true),
            Effect::Focus,
            Effect::Visible(true),
        ],
{
    let (a1, e1) = a.expire_stage(now);
    lemma_break_lasts(a.timer, now, a.timer.lockout_secs, now);
    assert(a1.timer.break_remaining_at(now) == a.timer.lockout_secs);
    let (a2, e2) = a1.warn_stage(now);
    let (a3, e3) = a2.escape_stage(now, false);
    let (a4, e4) = a3.break_end_stage(now);
    let (a5, e5) = a4.close_stage(false);
    assert(e1 + e2 + e3 + e4 + e5 =~= e1);
}

/// Three Escape presses on the break screen within two seconds in all, the
/// count starting from none, end the break screen (outside a Pomodoro cycle).
pub proof fn lemma_triple_escape_unlocks(a: App, n1: u64, n2: u64, n3: u64)
    requires
        a.wf(),
        a.timer.phase is BreakScreen,
        a.escape_count == 0,
        a.pomodoro_round is None,
        n1 <= n2 <= n3,
        n3 - n1 <= ESCAPE_WINDOW_NANOS,
    ensures
        ({
            let b1 = a.after_frame(n1, true, false).0;
            let b2 = b1.after_frame(n2, true, false).0;
            let b3 = b2.after_frame(n3, true, false).0;
            b3.timer.phase is Done
        }),
{
    let b1 = a.after_frame(n1, true, false).0;
    let b2 = b1.after_frame(n2, true, false).0;
    assert(b1.timer.phase is Done || (b1.timer.phase is BreakScreen && b1.escape_count == 1
        && b1.first_escape_time == Some(n1) && b1.last_escape_time == Some(n1)
        && b1.pomodoro_round is None));
    assert(b2.timer.phase is Done || (b2.timer.phase is BreakScreen && b2.escape_count == 2
        && b2.first_escape_time == Some(n1) && b2.last_escape_time == Some(n2)
        && b2.pomodoro_round is None));
}

/// Three Escape presses spread over more than two seconds do not end a break
/// screen whose time is not up.
pub proof fn lemma_slow_escapes_keep_break(a: App, n1: u64, n2: u64, n3: u64)
    requires
        a.wf(),
        a.timer.phase is BreakScreen,
        a.escape_count == 0,
        n1 <= n2 <= n3,
        n3 - n1 > ESCAPE_WINDOW_NANOS,
        a.timer.break_remaining_at(n3) > 0,
    ensures
        ({
            let b1 = a.after_frame(n1, true, false).0;
            let b2 = b1.after_frame(n2, true, false).0;
            let b3 = b2.after_frame(n3, true, false).0;
            &&& b3.timer.phase is BreakScreen
            &&& b3.escape_count <= 2
        }),
{
    match a.timer.break_start {
        Some(bs) => {
            crate::timer::lemma_secs_between_monotone(bs, n1, n3);
            crate::timer::lemma_secs_between_monotone(bs, n2, n3);
        },
        None => {},
    }
    let b1 = a.after_frame(n1, true, false).0;
    let b2 = b1.after_frame(n2, true, false).0;
    assert(b1.timer.phase is BreakScreen && b1.escape_count == 1 && b1.first_escape_time
        == Some(n1) && b1.last_escape_time == Some(n1) && b1.timer == a.timer);
    assert(b2.timer.phase is BreakScreen && b2.timer == a.timer && b2.last_escape_time == Some(n2)
        && (b2.escape_count == 1 || (b2.escape_count == 2 && b2.first_escape_time == Some(n1))));
}

/// A single Escape press does not end a break screen whose time is not up.
pub proof fn lemma_one_escape_keeps_break(a: App, now: u64)
    requires
        a.wf(),
        a.timer.phase is BreakScreen,
        a.escape_count == 0,
        a.timer.break_remaining_at(now) > 0,
    ensures
        a.after_frame(now, true, false).0.timer.phase is BreakScreen,
        a.after_frame(now, true, false).0.escape_count == 1,
{
}

/// Closing the window while a session runs or is paused, or while the break
/// screen is up, only hides it and leaves the session or break as it was; in
/// setup or once done, the control socket is removed instead.
pub proof fn lemma_close_hides_while_active(a: App, now: u64)
    requires
        a.wf(),
        a.timer.clock_fits(now),
        a.timer.phase is Running ==> a.timer.remaining_at(now) > 0,
        a.timer.phase is BreakScreen ==> a.timer.break_remaining_at(now) > 0,
    ensures
        ({
            let (b, e) = a.after_frame(now, false, true);
            &&& b.timer.phase == a.timer.phase
            &&& (a.timer.phase is Running || a.timer.phase is Paused || a.timer.phase
                is BreakScreen) ==> e.len() >= 2 && e[e.len() - 2] == Effect::CancelClose
                && e[e.len() - 1] == Effect::Visible(false)
            &&& (a.timer.phase is Setup || a.timer.phase is Done) ==> e == seq![
                Effect::RemoveSocket,
            ]
        }),
{
    let (a1, e1) = a.expire_stage(now);
    let (a2, e2) = a1.warn_stage(now);
    let (a3, e3) = a2.escape_stage(now, false);
    let (a4, e4) = a3.break_end_stage(now);
    let (a5, e5) = a4.close_stage(true);
    assert(a4.timer.phase == a.timer.phase);
    let front = e1 + e2 + e3 + e4;
    assert(e1 + e2 + e3 + e4 + e5 == front + e5);
    if a.timer.phase is Setup || a.timer.phase is Done {
        assert(front =~= Seq::<Effect>::empty());
        assert(front + e5 =~= e5);
    }
}

/// The one-minute warning is given once per session: no frame warns again once
/// it was given.
pub proof fn lemma_warning_once(a: App, now: u64, esc: bool, close: bool)
    requires
        a.wf(),
        a.timer.warned,
        a.timer.clock_fits(now),
    ensures
        !a.after_frame(now, esc, close).1.contains(Effect::Notify(Notice::OneMinuteLeft)),
{
    let (a1, e1) = a.expire_stage(now);
    let (a2, e2) = a1.warn_stage(now);
    let (a3, e3) = a2.escape_stage(now, esc);
    let (a4, e4) = a3.break_end_stage(now);
    let (a5, e5) = a4.close_stage(close);
    let all = e1 + e2 + e3 + e4 + e5;
    if all.contains(Effect::Notify(Notice::OneMinuteLeft)) {
        let i = choose|i: int| 0 <= i < all.len() && all[i] == Effect::Notify(Notice::OneMinuteLeft);
        assert(false);
    }
}

/// Pausing and resuming over the control socket loses no time.
pub proof fn lemma_pause_resume_commands(a: App, paused_at: u64, resumed_at: u64)
    requires
        a.wf(),
        a.timer.phase is Running,
        a.timer.clock_fits(paused_at),
    ensures
        ({
            let p = a.after_command(IpcCommand::Pause, paused_at).0;
            let r = p.after_command(IpcCommand::Resume, resumed_at).0;
            &&& p.timer.phase is Paused
            &&& r.timer.phase is Running
            &&& r.timer.remaining_at(resumed_at) == a.timer.remaining_at(paused_at)
        }),
{
    lemma_pause_resume(a.timer, paused_at, resumed_at);
}

/// The `Unlock` command ends the break screen and leaves full screen, and does
/// nothing otherwise.
pub proof fn lemma_unlock_command(a: App, now: u64)
    ensures
        a.timer.phase is BreakScreen ==> a.after_command(IpcCommand::Unlock, now).0.timer.phase is Done,
        a.timer.phase is BreakScreen ==> !a.after_command(IpcCommand::Unlock, now).0.was_fullscreen,
        (a.timer.phase is BreakScreen && a.was_fullscreen) ==> a.after_command(
            IpcCommand::Unlock,
            now,
        ).1 == seq![Effect::Fullscreen(false)],
        !(a.timer.phase is BreakScreen) ==> a.after_command(IpcCommand::Unlock, now).0 == a,
{
}

/// In a Pomodoro cycle, a focus session that runs out brings the short break,
/// or the long break once it was the cycle's last session.
pub proof fn lemma_pomodoro_break_length(a: App, now: u64)
    requires
        a.wf(),
        a.timer.phase is Running,
        a.timer.clock_fits(now),
        a.timer.remaining_at(now) == 0,
        a.pomodoro_round is Some,
    ensures
        ({
            let k: u32 = a.pomodoro_round->0;
            let b = a.expire_stage(now).0;
            &&& b.timer.phase is BreakScreen
            &&& b.pomodoro_round == Some((k + 1) as u32)
            &&& b.timer.break_secs == (if k + 1 == a.pomodoro.sessions_before_long_break {
                a.pomodoro.long_break_minutes * 60
            } else {
                a.pomodoro.short_break_minutes * 60
            })
            &&& b.wf()
        }),
{
}

/// In a Pomodoro cycle, when a break is over the next focus session begins,
/// unless all sessions are done, which ends the cycle.
pub proof fn lemma_pomodoro_after_break(a: App, now: u64)
    requires
        a.wf(),
        a.timer.phase is BreakScreen,
        a.timer.break_remaining_at(now) == 0,
        a.pomodoro_round is Some,
    ensures
        ({
            let k: u32 = a.pomodoro_round->0;
            let b = a.break_end_stage(now).0;
            &&& k < a.pomodoro.sessions_before_long_break ==> {
                &&& b.timer.phase is Running
                &&& b.timer.total_secs == a.pomodoro.focus_minutes * 60
                &&& b.timer.remaining_at(now) == a.pomodoro.focus_minutes * 60
                &&& b.pomodoro_round == Some(k)
            }
            &&& k == a.pomodoro.sessions_before_long_break ==> {
                &&& b.timer.phase is Done
                &&& b.pomodoro_round is None
            }
            &&& !b.was_fullscreen
            &&& b.wf()
        }),
{
}

/// The `pomodoro` command starts a cycle with its first focus session when the
/// settings can run one, and changes nothing otherwise.
pub proof fn lemma_pomodoro_command(a: App, now: u64)
    ensures
        a.pomodoro.runnable() ==> ({
            let b = a.after_command(IpcCommand::StartPomodoro, now).0;
            &&& b.timer.phase is Running
            &&& b.timer.remaining_at(now) == a.pomodoro.focus_minutes * 60
            &&& b.pomodoro_round == Some(0u32)
            &&& a.wf() ==> b.wf()
        }),
        !a.pomodoro.runnable() ==> a.after_command(IpcCommand::StartPomodoro, now).0 == a,
{
}


/// `start` begins a plain session of the given length, whatever was on
/// (a Pomodoro cycle included); `stop` goes back to setup.
pub proof fn lemma_start_stop_commands(a: App, seconds: u64, now: u64)
    ensures
        ({
            let b = a.after_command(IpcCommand::Start { seconds }, now).0;
            &&& b.timer.phase is Running
            &&& b.timer.total_secs == seconds
            &&& b.timer.remaining_at(now) == seconds
            &&& b.pomodoro_round is None
        }),
        ({
            let b = a.after_command(IpcCommand::Stop, now).0;
            &&& b.timer.phase is Setup
            &&& b.timer.elapsed_at(now) == 0
            &&& b.pomodoro_round is None
        }),
{
}


/// The one-minute warning comes in any running session, a Pomodoro focus
/// session included, once a minute or less is left and it was not yet given.
pub proof fn lemma_warning_given(a: App, now: u64, esc: bool, close: bool)
    requires
        a.wf(),
        a.timer.phase is Running,
        a.timer.clock_fits(now),
        !a.timer.warned,
        0 < a.timer.remaining_at(now) <= WARNING_SECS,
    ensures
        a.after_frame(now, esc, close).1.contains(Effect::Notify(Notice::OneMinuteLeft)),
        a.after_frame(now, esc, close).0.timer.warned,
        a.after_frame(now, esc, close).0.timer.phase is Running,
{
    let (a1, e1) = a.expire_stage(now);
    let (a2, e2) = a1.warn_stage(now);
    let (a3, e3) = a2.escape_stage(now, esc);
    let (a4, e4) = a3.break_end_stage(now);
    let (a5, e5) = a4.close_stage(close);
    assert(e1 =~= Seq::<Effect>::empty());
    assert(e2 == seq![Effect::Notify(Notice::OneMinuteLeft)]);
    let all = e1 + e2 + e3 + e4 + e5;
    assert(all[0] == Effect::Notify(Notice::OneMinuteLeft));
}

/// Three Escape presses on the break screen within two seconds in all, the
/// count starting from none, end the break screen, in a Pomodoro cycle as well
/// as outside one. (In a cycle the break must still be on at the third press:
/// a cycle's break that runs out begins the next focus session instead.)
pub proof fn lemma_triple_escape_unlocks_any_break(a: App, n1: u64, n2: u64, n3: u64)
    requires
        a.wf(),
        a.timer.phase is BreakScreen,
        a.escape_count == 0,
        n1 <= n2 <= n3,
        n3 - n1 <= ESCAPE_WINDOW_NANOS,
        a.pomodoro_round is None || a.timer.break_remaining_at(n3) > 0,
    ensures
        ({
            let (b1, e1) = a.after_frame(n1, true, false);
            let (b2, e2) = b1.after_frame(n2, true, false);
            let (b3, e3) = b2.after_frame(n3, true, false);
            &&& b3.timer.phase is Done
            &&& !b3.was_fullscreen
            &&& (e1 + e2 + e3).contains(Effect::Notify(Notice::EmergencyUnlock)) || a.pomodoro_round
                is None
        }),
{
    if a.pomodoro_round is None {
        lemma_triple_escape_unlocks(a, n1, n2, n3);
        let (b1, e1) = a.after_frame(n1, true, false);
        let (b2, e2) = b1.after_frame(n2, true, false);
        let (b3, e3) = b2.after_frame(n3, true, false);
        assert(!b1.was_fullscreen || b1.timer.phase is BreakScreen);
        assert(!b2.was_fullscreen || b2.timer.phase is BreakScreen);
    } else {
        match a.timer.break_start {
            Some(bs) => {
                crate::timer::lemma_secs_between_monotone(bs, n1, n3);
                crate::timer::lemma_secs_between_monotone(bs, n2, n3);
            },
            None => {},
        }
        let (b1, e1) = a.after_frame(n1, true, false);
        let (b2, e2) = b1.after_frame(n2, true, false);
        let (b3, e3) = b2.after_frame(n3, true, false);
        assert(b1.timer == a.timer && b1.escape_count == 1 && b1.first_escape_time == Some(n1)
            && b1.last_escape_time == Some(n1) && e1.len() == 0);
        assert(b2.timer == a.timer && b2.escape_count == 2 && b2.first_escape_time == Some(n1)
            && b2.last_escape_time == Some(n2) && e2.len() == 0);
        let (c1, f1) = b2.expire_stage(n3);
        let (c2, f2) = c1.warn_stage(n3);
        let (c3, f3) = c2.escape_stage(n3, true);
        assert(f3.last() == Effect::Notify(Notice::EmergencyUnlock));
        let (c4, f4) = c3.break_end_stage(n3);
        let (c5, f5) = c4.close_stage(false);
        assert(e3 == f1 + f2 + f3 + f4 + f5);
        assert(f1 + f2 + f3 + f4 + f5 =~= f3);
        assert((e1 + e2 + e3) =~= e3);
        assert(e3[e3.len() - 1] == Effect::Notify(Notice::EmergencyUnlock));
    }
}

/// The setup screen's start button, outside Pomodoro mode, starts a session of
/// exactly the typed hours, minutes and seconds when they add up to at least
/// ten seconds, and is refused with the "too short" message only below that.
pub proof fn lemma_start_button(a: App, now: u64)
    requires
        a.wf(),
        !a.pomodoro_enabled,
    ensures
        ({
            let sum = a.hours * 3600 + a.minutes * 60 + a.seconds;
            let (b, e) = a.after_input_start(now);
            &&& sum >= 10 ==> {
                &&& b.timer.phase is Running
                &&& b.timer.total_secs == sum
                &&& b.timer.remaining_at(now) == sum
                &&& b.message == InputMessage::Clear
                &&& e == seq![Effect::Notify(Notice::TimerStarted { seconds: sum as u64 })]
            }
            &&& sum < 10 ==> {
                &&& b.message == InputMessage::TooShort
                &&& b.timer == a.timer
                &&& e.len() == 0
            }
        }),
{
}

/// While a session runs or is paused, the tray title shows the full time left
/// as a clock: `H:MM:SS` from an hour up (so 7199 seconds show as `1:59:59`);
/// and sessions with different times left never show the same title.
pub proof fn lemma_tray_title_shows_time_left(a: App, b: App, now: u64)
    requires
        a.timer.phase is Running || a.timer.phase is Paused,
        b.timer.phase == a.timer.phase,
        tray_title_text(a, now) == tray_title_text(b, now),
    ensures
        a.timer.remaining_at(now) == b.timer.remaining_at(now),
        a.timer.phase is Running ==> tray_title_text(a, now) == "  "@ + clock_text(
            a.timer.remaining_at(now),
        ),
        a.timer.phase is Paused ==> tray_title_text(a, now) == "  "@ + clock_text(
            a.timer.remaining_at(now),
        ) + seq![' ', '\u{23F8}'],
{
    let ra = a.timer.remaining_at(now);
    let rb = b.timer.remaining_at(now);
    let ta = tray_title_text(a, now);
    let ca = clock_text(ra);
    let cb = clock_text(rb);
    reveal_strlit("  ");
    assert("  "@.len() == 2);
    if a.timer.phase is Running {
        assert(ta == "  "@ + ca);
        assert(tray_title_text(b, now) == "  "@ + cb);
        assert(ca =~= ta.subrange(2, ta.len() as int));
        assert(cb =~= ta.subrange(2, ta.len() as int));
    } else {
        assert(ta == "  "@ + ca + seq![' ', '\u{23F8}']);
        assert(tray_title_text(b, now) == "  "@ + cb + seq![' ', '\u{23F8}']);
        assert(ca =~= ta.subrange(2, ta.len() - 2));
        assert(cb =~= ta.subrange(2, ta.len() - 2));
    }
    crate::text::lemma_clock_text_injective(ra, rb);
}

} // verus!
