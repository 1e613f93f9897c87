//! The command lines with which okey launches itself: as a detached
//! background process, and in the active user session from the service.
use vstd::prelude::*;
use vstd::string::*;

use crate::text::{chars_of, encode_utf16, push_utf16, string_views};

verus! {

/// The arguments of the detached `okey start` process: `start`, then
/// `--config` and the path when a configuration path is given.
pub open spec fn daemon_arguments_spec(config_path: Option<Seq<char>>) -> Seq<Seq<char>> {
    match config_path {
        Some(p) => seq!["start"@, "--config"@, p],
        None => seq!["start"@],
    }
}

/// The arguments with which the detached background process is started.
pub fn daemon_arguments(config_path: Option<String>) -> (args: Vec<String>)
    ensures
        string_views(args@) == daemon_arguments_spec(
            match config_path {
                Some(p) => Some(p@),
                None => None,
            },
        ),
{
    let mut args: Vec<String> = Vec::new();
    args.push(String::from_str("start"));
    match config_path {
        Some(path) => {
            args.push(String::from_str("--config"));
            let ghost pv = path@;
            args.push(path);
            assert(string_views(args@) =~= seq!["start"@, "--config"@, pv]);
        },
        None => {
            assert(string_views(args@) =~= seq!["start"@]);
        },
    }
    args
}

/// The NUL-terminated UTF-16 command line that runs `start` with the
/// executable displayed as `exe`.
pub open spec fn user_session_command(exe: Seq<char>) -> Seq<u16> {
    encode_utf16(exe + " start"@).push(0)
}

/// The command line with which the service starts okey in the user session.
pub fn user_session_command_line(exe: &str) -> (cmd: Vec<u16>)
    ensures
        cmd@ == user_session_command(exe@),
{
    let mut line = String::from_str(exe);
    line.append(" start");
    let chars = chars_of(line.as_str());
    let mut cmd: Vec<u16> = Vec::new();
    push_utf16(&mut cmd, &chars);
    cmd.push(0);
    assert(cmd@ =~= user_session_command(exe@));
    cmd
}

} // verus!
