//! Messages exchanged with a running instance.

use vstd::prelude::*;
use crate::text::{join_path, joined_path};

verus! {

/// A request sent to the running instance.
#[derive(Clone, Debug)]
pub enum IpcCommand {
    Start { seconds: u64 },
    Stop,
    Pause,
    Resume,
    Status,
    SetImage { path: String },
    Unlock,
    Quit,
    StartPomodoro,
}

/// The running instance's answer.
#[derive(Clone, Debug)]
pub enum IpcResponse {
    /// The request was taken (serialised under the name `Ok`).
    Ack { message: String },
    Status { running: bool, paused: bool, remaining: u64, total: u64 },
    Error(String),
}


/// The settings directory for the home directory `home` (`None` when `HOME` is
/// not set): `~/.config/screen-timer`, or `/tmp/screen-timer-config`.
pub open spec fn config_dir_path(home: Option<Seq<char>>) -> Seq<char> {
    match home {
        Some(h) => joined_path(joined_path(h, ".config"@), "screen-timer"@),
        None => "/tmp/screen-timer-config"@,
    }
}

/// The settings directory for the home directory `home` (`None` when `HOME` is
/// not set).
pub fn config_dir(home: Option<&str>) -> (r: String)
    ensures
        r@ == config_dir_path(match home {
            Some(h) => Some(h@),
            None => None,
        }),
{
    match home {
        Some(h) => {
            let c = join_path(h, ".config");
            join_path(c.as_str(), "screen-timer")
        },
        None => String::from_str("/tmp/screen-timer-config"),
    }
}

/// The directory of break images for the home directory `home`.
pub fn images_dir(home: Option<&str>) -> (r: String)
    ensures
        r@ == joined_path(config_dir_path(match home {
            Some(h) => Some(h@),
            None => None,
        }), "images"@),
{
    let d = config_dir(home);
    join_path(d.as_str(), "images")
}

} // verus!
