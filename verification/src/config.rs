//! Settings that persist between runs.

use vstd::prelude::*;
use crate::text::{join_path, joined_path};

verus! {

/// The Pomodoro cycle: focus sessions separated by short breaks, and a long
/// break once all sessions of the cycle are done.
#[derive(Clone, Copy, Debug, PartialEq, Eq, Structural)]
pub struct PomodoroConfig {
    pub focus_minutes: u32,
    pub short_break_minutes: u32,
    pub long_break_minutes: u32,
    pub sessions_before_long_break: u32,
}

impl PomodoroConfig {
    /// 4 x 25-minute focus sessions, 5-minute short breaks, a 15-minute long break.
    pub open spec fn standard() -> PomodoroConfig {
        PomodoroConfig {
            focus_minutes: 25,
            short_break_minutes: 5,
            long_break_minutes: 15,
            sessions_before_long_break: 4,
        }
    }

    /// A cycle can run: its sessions last at least a minute and there is at least one.
    pub open spec fn runnable(self) -> bool {
        self.focus_minutes >= 1 && self.sessions_before_long_break >= 1
    }

    /// Length of a focus session, in seconds.
    pub open spec fn focus_len(self) -> nat {
        (self.focus_minutes * 60) as nat
    }

    /// Length of the break after `completed` focus sessions of the cycle, in
    /// seconds: the long break once all sessions are done, else the short one.
    pub open spec fn break_len_after(self, completed: u32) -> nat {
        if completed >= self.sessions_before_long_break {
            (self.long_break_minutes * 60) as nat
        } else {
            (self.short_break_minutes * 60) as nat
        }
    }

    /// Tells whether a cycle can run with these settings.
    pub fn is_runnable(&self) -> (r: bool)
        ensures
            r == self.runnable(),
    {
        self.focus_minutes >= 1 && self.sessions_before_long_break >= 1
    }

    /// Length of a focus session, in seconds.
    pub fn focus_secs(&self) -> (r: u64)
        ensures
            r == self.focus_len(),
    {
        self.focus_minutes as u64 * 60
    }

    /// Length of the break after `completed` focus sessions, in seconds.
    pub fn break_secs_after(&self, completed: u32) -> (r: u64)
        ensures
            r == self.break_len_after(completed),
    {
        if completed >= self.sessions_before_long_break {
            self.long_break_minutes as u64 * 60
        } else {
            self.short_break_minutes as u64 * 60
        }
    }
}

impl Default for PomodoroConfig {
    fn default() -> (r: PomodoroConfig)
        ensures
            r == PomodoroConfig::standard(),
    {
        PomodoroConfig {
            focus_minutes: 25,
            short_break_minutes: 5,
            long_break_minutes: 15,
            sessions_before_long_break: 4,
        }
    }
}

/// Everything the application remembers across restarts.
#[derive(Clone, Copy, Debug, PartialEq, Eq, Structural)]
pub struct AppConfig {
    pub last_hours: u32,
    pub last_minutes: u32,
    pub last_seconds: u32,
    pub break_length_secs: u64,
    pub pomodoro_enabled: bool,
    pub pomodoro: PomodoroConfig,
}

impl AppConfig {
    /// 25 minutes of focus, a 30-second break screen, Pomodoro mode off.
    pub open spec fn standard() -> AppConfig {
        AppConfig {
            last_hours: 0,
            last_minutes: 25,
            last_seconds: 0,
            break_length_secs: 30,
            pomodoro_enabled: false,
            pomodoro: PomodoroConfig::standard(),
        }
    }
}

impl AppConfig {
    /// Where the settings file lies in the settings directory `dir`.
    pub fn config_path(dir: &str) -> (r: String)
        ensures
            r@ == joined_path(dir@, "config.json"@),
    {
        join_path(dir, "config.json")
    }
}

impl Default for AppConfig {
    fn default() -> (r: AppConfig)
        ensures
            r == AppConfig::standard(),
    {
        AppConfig {
            last_hours: 0,
            last_minutes: 25,
            last_seconds: 0,
            break_length_secs: 30,
            pomodoro_enabled: false,
            pomodoro: PomodoroConfig::default(),
        }
    }
}

} // verus!
