//! Core logic of a focus timer that takes the screen over for a break when
//! time is up: the countdown, the break screen and its triple-Escape unlock,
//! Pomodoro cycles, the tray's view, durations typed on the command line, and
//! the settings that persist.

pub mod app;
pub mod cli;
pub mod config;
pub mod duration;
pub mod ipc;
pub mod text;
pub mod timer;
