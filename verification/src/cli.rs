//! What the command line asks of a running instance.

use vstd::prelude::*;
use crate::duration::{DurationParse, duration_parse, parse_duration, parse_duration_checked};
use crate::ipc::IpcCommand;

verus! {

/// The shortest session that can be started, in seconds.
pub const MIN_SESSION_SECS: u64 = 10;

/// Why a `start` argument was turned down.
#[derive(Clone, Copy, Debug, PartialEq, Eq, Structural)]
pub enum StartError {
    /// A duration, but shorter than the minimum.
    TooShort,
    /// Not a duration.
    Invalid,
    /// A duration of more seconds than a `u64` holds.
    Overflow,
}

/// The command that `start <duration>` sends: the duration read as
/// `parse_duration` reads it, and at least `MIN_SESSION_SECS` seconds.
pub fn start_command(duration: &str) -> (r: Result<IpcCommand, StartError>)
    ensures
        match duration_parse(duration@) {
            DurationParse::Seconds(n) => if n >= MIN_SESSION_SECS {
                r matches Ok(IpcCommand::Start { seconds }) && seconds == n
            } else {
                r == Err::<IpcCommand, StartError>(StartError::TooShort)
            },
            DurationParse::Invalid => r == Err::<IpcCommand, StartError>(StartError::Invalid),
            DurationParse::Overflow => r == Err::<IpcCommand, StartError>(StartError::Overflow),
        },
{
    if parse_duration_checked(duration) == DurationParse::Overflow {
        return Err(StartError::Overflow);
    }
    match parse_duration(duration) {
        Some(s) => if s >= MIN_SESSION_SECS {
            Ok(IpcCommand::Start { seconds: s })
        } else {
            Err(StartError::TooShort)
        },
        None => Err(StartError::Invalid),
    }
}

} // verus!
