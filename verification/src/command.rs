//! Non-interactive command execution types.
use vstd::prelude::*;

verus! {

/// What a command printed and how it ended.
#[derive(Clone, Debug, Eq, PartialEq)]
pub struct CommandResult {
    pub stdout: Vec<u8>,
    pub stderr: Vec<u8>,
    pub exit_code: Option<i32>,
    pub timed_out: bool,
}

impl Default for CommandResult {
    fn default() -> (result: CommandResult)
        ensures
            result.stdout@.len() == 0,
            result.stderr@.len() == 0,
            result.exit_code is None,
            !result.timed_out,
    {
        CommandResult { stdout: Vec::new(), stderr: Vec::new(), exit_code: None, timed_out: false }
    }
}

} // verus!
