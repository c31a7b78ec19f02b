//! The countdown: its phases, its clock arithmetic and its transitions.
//!
//! Instants are plain `u64` readings of a monotonic clock in nanoseconds, all
//! taken against one origin; durations are whole seconds, truncated as
//! `Duration::as_secs` truncates.

use vstd::prelude::*;
use crate::text::{clock_text, format_time};

verus! {

/// Nanoseconds in one second.
pub const NANOS_PER_SEC: u64 = 1_000_000_000;

/// Length of the break screen, in seconds, unless set otherwise.
pub const DEFAULT_LOCKOUT_SECS: u64 = 30;

/// Where the timer stands.
#[derive(Clone, Copy, Debug, PartialEq, Eq, Structural)]
pub enum Phase {
    Setup,
    Running,
    Paused,
    BreakScreen,
    Done,
}

/// A desktop notification the timer raises (all carry the title `Screen Timer`).
#[derive(Clone, Copy, Debug, PartialEq, Eq, Structural)]
pub enum Notice {
    /// A focus session of `seconds` has begun.
    TimerStarted { seconds: u64 },
    /// The session ran out and the break screen comes up.
    TimeUp,
    /// One minute or less is left.
    OneMinuteLeft,
    /// The break screen was left with the triple-Escape.
    EmergencyUnlock,
}

/// Text of a notification.
pub open spec fn notice_text(n: Notice) -> Seq<char> {
    match n {
        Notice::TimerStarted { seconds } => "Timer started: "@ + clock_text(seconds as nat),
        Notice::TimeUp => "Time's up! Take a break."@,
        Notice::OneMinuteLeft => "1 minute remaining! Save your work."@,
        Notice::EmergencyUnlock => "Emergency unlock activated."@,
    }
}

impl Notice {
    /// The title every notification carries.
    pub fn title() -> (r: String)
        ensures
            r@ == "Screen Timer"@,
    {
        String::from_str("Screen Timer")
    }

    /// The notification's message.
    pub fn message(&self) -> (r: String)
        ensures
            r@ == notice_text(*self),
    {
        match self {
            Notice::TimerStarted { seconds } => {
                let mut s = String::from_str("Timer started: ");
                let t = format_time(*seconds);
                s.append(t.as_str());
                s
            },
            Notice::TimeUp => String::from_str("Time's up! Take a break."),
            Notice::OneMinuteLeft => String::from_str("1 minute remaining! Save your work."),
            Notice::EmergencyUnlock => String::from_str("Emergency unlock activated."),
        }
    }
}

/// Whole seconds from instant `from` to instant `now`; zero when `now` is earlier.
pub open spec fn secs_between(from: u64, now: u64) -> nat {
    if now >= from {
        ((now - from) / (NANOS_PER_SEC as int)) as nat
    } else {
        0
    }
}

fn secs_since(from: u64, now: u64) -> (r: u64)
    ensures
        r == secs_between(from, now),
{
    if now >= from {
        (now - from) / NANOS_PER_SEC
    } else {
        0
    }
}

/// The countdown and the break that follows it.
#[derive(Clone, Copy, Debug, PartialEq, Eq, Structural)]
pub struct TimerState {
    pub phase: Phase,
    /// Length of the session, in seconds.
    pub total_secs: u64,
    /// When the current running stretch began.
    pub start_time: Option<u64>,
    /// Seconds counted before the last pause.
    pub elapsed_before_pause: u64,
    /// Length of the break screen that a running out session brings, in seconds.
    pub lockout_secs: u64,
    /// When the break screen came up.
    pub break_start: Option<u64>,
    /// Length of the break screen now shown, in seconds.
    pub break_secs: u64,
    /// Whether the one-minute warning was given for this session.
    pub warned: bool,
}

impl TimerState {
    /// A fresh timer: in setup, with the default break length.
    pub open spec fn initial() -> TimerState {
        TimerState {
            phase: Phase::Setup,
            total_secs: 0,
            start_time: None,
            elapsed_before_pause: 0,
            lockout_secs: DEFAULT_LOCKOUT_SECS,
            break_start: None,
            break_secs: 0,
            warned: false,
        }
    }

    /// Seconds counted so far in the session (zero outside a session).
    pub open spec fn elapsed_at(self, now: u64) -> int {
        match self.phase {
            Phase::Running => self.elapsed_before_pause + match self.start_time {
                Some(t) => secs_between(t, now) as int,
                None => 0int,
            },
            Phase::Paused => self.elapsed_before_pause as int,
            _ => 0,
        }
    }

    /// The count of elapsed seconds fits in a `u64`.
    pub open spec fn clock_fits(self, now: u64) -> bool {
        self.elapsed_at(now) <= u64::MAX
    }

    /// Seconds left in the session, never below zero.
    pub open spec fn remaining_at(self, now: u64) -> nat {
        if self.elapsed_at(now) >= self.total_secs {
            0
        } else {
            (self.total_secs - self.elapsed_at(now)) as nat
        }
    }

    /// Seconds left on the break screen, never below zero (zero when none came up).
    pub open spec fn break_remaining_at(self, now: u64) -> nat {
        match self.break_start {
            Some(t) => if secs_between(t, now) >= self.break_secs {
                0
            } else {
                (self.break_secs - secs_between(t, now)) as nat
            },
            None => 0,
        }
    }

    /// A session of `secs` seconds started at `now`.
    pub open spec fn started(self, secs: u64, now: u64) -> TimerState {
        TimerState {
            phase: Phase::Running,
            total_secs: secs,
            start_time: Some(now),
            elapsed_before_pause: 0,
            warned: false,
            ..self
        }
    }

    /// The session held at `now`.
    pub open spec fn paused(self, now: u64) -> TimerState {
        TimerState {
            phase: Phase::Paused,
            elapsed_before_pause: self.elapsed_at(now) as u64,
            ..self
        }
    }

    /// The session taken up again at `now`.
    pub open spec fn resumed(self, now: u64) -> TimerState {
        TimerState { phase: Phase::Running, start_time: Some(now), ..self }
    }

    /// Back to setup, the session dropped.
    pub open spec fn stopped(self) -> TimerState {
        TimerState {
            phase: Phase::Setup,
            start_time: None,
            elapsed_before_pause: 0,
            warned: false,
            ..self
        }
    }

    /// The break screen of `secs` seconds brought up at `now`.
    pub open spec fn on_break(self, now: u64, secs: u64) -> TimerState {
        TimerState {
            phase: Phase::BreakScreen,
            break_start: Some(now),
            break_secs: secs,
            ..self
        }
    }

    /// A fresh timer.
    pub fn new() -> (r: TimerState)
        ensures
            r == TimerState::initial(),
    {
        TimerState {
            phase: Phase::Setup,
            total_secs: 0,
            start_time: None,
            elapsed_before_pause: 0,
            lockout_secs: DEFAULT_LOCKOUT_SECS,
            break_start: None,
            break_secs: 0,
            warned: false,
        }
    }

    /// Tells whether the seconds counted at `now` fit in a `u64`.
    pub fn elapsed_fits(&self, now: u64) -> (r: bool)
        ensures
            r == self.clock_fits(now),
    {
        match self.phase {
            Phase::Running => {
                let d: u64 = match self.start_time {
                    Some(t) => secs_since(t, now),
                    None => 0,
                };
                d <= u64::MAX - self.elapsed_before_pause
            },
            _ => true,
        }
    }

    /// Seconds counted so far in the session.
    pub fn elapsed(&self, now: u64) -> (r: u64)
        requires
            self.clock_fits(now),
        ensures
            r == self.elapsed_at(now),
    {
        match self.phase {
            Phase::Running => {
                let d: u64 = match self.start_time {
                    Some(t) => secs_since(t, now),
                    None => 0,
                };
                self.elapsed_before_pause + d
            },
            Phase::Paused => self.elapsed_before_pause,
            _ => 0,
        }
    }

    /// Seconds left in the session.
    pub fn remaining(&self, now: u64) -> (r: u64)
        requires
            self.clock_fits(now),
        ensures
            r == self.remaining_at(now),
    {
        self.total_secs.saturating_sub(self.elapsed(now))
    }

    /// Starts a session of `secs` seconds at `now`, and gives the notification it raises.
    pub fn start(&mut self, secs: u64, now: u64) -> (n: Notice)
        ensures
            *final(self) == old(self).started(secs, now),
            n == (Notice::TimerStarted { seconds: secs }),
    {
        self.total_secs = secs;
        self.elapsed_before_pause = 0;
        self.start_time = Some(now);
        self.warned = false;
        self.phase = Phase::Running;
        Notice::TimerStarted { seconds: secs }
    }

    /// Holds the session at `now`.
    pub fn pause(&mut self, now: u64)
        requires
            old(self).clock_fits(now),
        ensures
            *final(self) == old(self).paused(now),
    {
        self.elapsed_before_pause = self.elapsed(now);
        self.phase = Phase::Paused;
    }

    /// Takes the session up again at `now`.
    pub fn resume(&mut self, now: u64)
        ensures
            *final(self) == old(self).resumed(now),
    {
        self.start_time = Some(now);
        self.phase = Phase::Running;
    }

    /// Drops the session and goes back to setup.
    pub fn stop(&mut self)
        ensures
            *final(self) == old(self).stopped(),
    {
        self.phase = Phase::Setup;
        self.start_time = None;
        self.elapsed_before_pause = 0;
        self.warned = false;
    }

    /// Brings the break screen up at `now` for the configured lockout, and gives
    /// the notification it raises.
    pub fn enter_break(&mut self, now: u64) -> (n: Notice)
        ensures
            *final(self) == old(self).on_break(now, old(self).lockout_secs),
            n == Notice::TimeUp,
    {
        let secs: u64 = self.lockout_secs;
        self.enter_break_for(now, secs)
    }

    /// Brings the break screen up at `now` for `secs` seconds, and gives the
    /// notification it raises.
    pub fn enter_break_for(&mut self, now: u64, secs: u64) -> (n: Notice)
        ensures
            *final(self) == old(self).on_break(now, secs),
            n == Notice::TimeUp,
    {
        self.break_start = Some(now);
        self.break_secs = secs;
        self.phase = Phase::BreakScreen;
        Notice::TimeUp
    }

    /// Seconds left on the break screen.
    pub fn break_remaining(&self, now: u64) -> (r: u64)
        ensures
            r == self.break_remaining_at(now),
    {
        match self.break_start {
            Some(t) => self.break_secs.saturating_sub(secs_since(t, now)),
            None => 0,
        }
    }
}

/// Whole seconds between two instants only grow as the later one moves on.
pub proof fn lemma_secs_between_monotone(from: u64, n1: u64, n2: u64)
    requires
        n1 <= n2,
    ensures
        secs_between(from, n1) <= secs_between(from, n2),
{
    if n1 >= from {
        let d1: int = n1 - from;
        let d2: int = n2 - from;
        assert(d1 / 1_000_000_000 <= d2 / 1_000_000_000) by (nonlinear_arith)
            requires
                0 <= d1 <= d2,
        ;
    }
}

/// At least `secs` whole seconds separate `from` and `now` exactly when `now`
/// is `secs` seconds or more past `from`.
pub proof fn lemma_secs_between_reaches(from: u64, now: u64, secs: u64)
    requires
        now >= from,
    ensures
        (secs_between(from, now) >= secs) <==> (now - from >= secs * NANOS_PER_SEC),
{
    let d: int = now - from;
    assert((d / 1_000_000_000 >= secs) <==> (d >= secs * 1_000_000_000)) by (nonlinear_arith)
        requires
            d >= 0,
            secs >= 0,
    ;
}

/// A session just started has its whole length left and nothing counted.
pub proof fn lemma_start_full(t: TimerState, secs: u64, now: u64)
    ensures
        t.started(secs, now).phase is Running,
        t.started(secs, now).elapsed_at(now) == 0,
        t.started(secs, now).clock_fits(now),
        t.started(secs, now).remaining_at(now) == secs,
        !t.started(secs, now).warned,
{
}

/// The time left never exceeds the session's length.
pub proof fn lemma_remaining_bounded(t: TimerState, now: u64)
    ensures
        t.remaining_at(now) <= t.total_secs,
{
}

/// A session started at `start` runs out exactly when its length has passed:
/// the time left is zero at `now` iff `now` is `secs` seconds or more past `start`.
pub proof fn lemma_session_runs_out(t: TimerState, secs: u64, start: u64, now: u64)
    requires
        now >= start,
    ensures
        (t.started(secs, start).remaining_at(now) == 0) <==> (now - start >= secs
            * NANOS_PER_SEC),
{
    lemma_secs_between_reaches(start, now, secs);
}

/// The seconds counted never go back and the seconds left never grow as time
/// moves on; outside a running session neither changes at all.
pub proof fn lemma_countdown_monotone(t: TimerState, n1: u64, n2: u64)
    requires
        n1 <= n2,
    ensures
        t.elapsed_at(n1) <= t.elapsed_at(n2),
        t.remaining_at(n2) <= t.remaining_at(n1),
        !(t.phase is Running) ==> t.elapsed_at(n1) == t.elapsed_at(n2) && t.remaining_at(n1)
            == t.remaining_at(n2),
{
    match t.start_time {
        Some(s) => lemma_secs_between_monotone(s, n1, n2),
        None => {},
    }
}

/// Time spent paused is not counted: after a pause at `paused_at` and a resume
/// at `resumed_at`, the seconds counted at any later `now` are those counted at
/// the pause plus the whole seconds since the resume.
pub proof fn lemma_resume_counts_from_resume(
    t: TimerState,
    paused_at: u64,
    resumed_at: u64,
    now: u64,
)
    requires
        t.phase is Running,
        t.clock_fits(paused_at),
        resumed_at <= now,
    ensures
        t.paused(paused_at).resumed(resumed_at).elapsed_at(now) == t.elapsed_at(paused_at)
            + secs_between(resumed_at, now),
        t.paused(paused_at).resumed(resumed_at).remaining_at(now) == (if t.elapsed_at(paused_at)
            + secs_between(resumed_at, now) >= t.total_secs {
            0
        } else {
            t.total_secs - (t.elapsed_at(paused_at) + secs_between(resumed_at, now))
        }),
{
}

/// A paused session stands still: whenever it is read, it shows what it showed
/// at the pause.
pub proof fn lemma_pause_freezes(t: TimerState, at: u64, later: u64)
    requires
        t.phase is Running,
        t.clock_fits(at),
    ensures
        t.paused(at).elapsed_at(later) == t.elapsed_at(at),
        t.paused(at).remaining_at(later) == t.remaining_at(at),
{
}

/// Pausing and resuming loses no time: right after the resume the session has
/// as much left as it had at the pause.
pub proof fn lemma_pause_resume(t: TimerState, paused_at: u64, resumed_at: u64)
    requires
        t.phase is Running,
        t.clock_fits(paused_at),
    ensures
        t.paused(paused_at).resumed(resumed_at).remaining_at(resumed_at) == t.remaining_at(
            paused_at,
        ),
        t.paused(paused_at).resumed(resumed_at).elapsed_at(resumed_at) == t.elapsed_at(
            paused_at,
        ),
{
}

/// Stopping goes back to setup with nothing counted.
pub proof fn lemma_stop_resets(t: TimerState, now: u64)
    ensures
        t.stopped().phase is Setup,
        t.stopped().elapsed_at(now) == 0,
        t.stopped().start_time is None,
        !t.stopped().warned,
{
}

/// The break screen shows its whole length when it comes up, and its time is
/// up exactly when that length has passed.
pub proof fn lemma_break_lasts(t: TimerState, at: u64, secs: u64, now: u64)
    requires
        now >= at,
    ensures
        t.on_break(at, secs).break_remaining_at(at) == secs,
        (t.on_break(at, secs).break_remaining_at(now) == 0) <==> (now - at >= secs
            * NANOS_PER_SEC),
{
    lemma_secs_between_reaches(at, now, secs);
}

} // verus!
