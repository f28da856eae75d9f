//! Severity levels and the layout of a log line.
use crate::text::{decimal, decimal_text, joined};
use vstd::prelude::*;

verus! {

#[derive(Clone, Copy, Debug, Eq, Ord, PartialEq, PartialOrd)]
pub enum LogLevel {
    Error,
    Warn,
    Info,
    Debug,
    Trace,
}

impl LogLevel {
    /// The upper-case name of the level.
    pub open spec fn label(self) -> Seq<char> {
        match self {
            LogLevel::Error => "ERROR"@,
            LogLevel::Warn => "WARN"@,
            LogLevel::Info => "INFO"@,
            LogLevel::Debug => "DEBUG"@,
            LogLevel::Trace => "TRACE"@,
        }
    }

    /// The upper-case name of the level.
    pub fn name(&self) -> (result: &'static str)
        ensures
            result@ == self.label(),
    {
        match self {
            LogLevel::Error => "ERROR",
            LogLevel::Warn => "WARN",
            LogLevel::Info => "INFO",
            LogLevel::Debug => "DEBUG",
            LogLevel::Trace => "TRACE",
        }
    }
}

/// One log line: seconds since the epoch, level, target and message.
pub open spec fn log_line_text(
    timestamp: nat,
    level: LogLevel,
    target: Seq<char>,
    message: Seq<char>,
) -> Seq<char> {
    decimal(timestamp) + " "@ + level.label() + " "@ + target + ": "@ + message
}

/// Lays out one log line; the program writes it to standard error.
pub fn log_line(timestamp: u64, level: LogLevel, target: &str, message: &str) -> (line: String)
    ensures
        line@ == log_line_text(timestamp as nat, level, target@, message@),
{
    let line = decimal_text(timestamp);
    let line = joined(line.as_str(), " ");
    let line = joined(line.as_str(), level.name());
    let line = joined(line.as_str(), " ");
    let line = joined(line.as_str(), target);
    let line = joined(line.as_str(), ": ");
    joined(line.as_str(), message)
}

/// Initializes the process-wide logging hook. Kept as an explicit entry point so that programs
/// have one consistent initialization call; there is no state to set up.
pub fn init_logging() {
}

/// A line of the log tells the time, how grave the matter is, where it comes from and what it is, in
/// this order.
pub proof fn law_log_lines_tell_all(
    timestamp: nat,
    level: LogLevel,
    target: Seq<char>,
    message: Seq<char>,
)
    ensures
        ({
            let line = log_line_text(timestamp, level, target, message);
            let front = decimal(timestamp).len() as int;
            let word = level.label().len() as int;
            let end = front + 2 + word + target.len();
            &&& line.len() == end + 2 + message.len()
            &&& line.take(front) == decimal(timestamp)
            &&& line[front] == ' '
            &&& line.subrange(front + 1, front + 1 + word) == level.label()
            &&& line[front + 1 + word] == ' '
            &&& line.subrange(front + 2 + word, end) == target
            &&& line[end] == ':'
            &&& line[end + 1] == ' '
            &&& line.skip(end + 2) == message
        }),
        LogLevel::Error.label() == "ERROR"@,
        LogLevel::Warn.label() == "WARN"@,
        LogLevel::Info.label() == "INFO"@,
        LogLevel::Debug.label() == "DEBUG"@,
        LogLevel::Trace.label() == "TRACE"@,
{
    reveal_strlit(" ");
    reveal_strlit(": ");
    let line = log_line_text(timestamp, level, target, message);
    let front = decimal(timestamp).len() as int;
    let word = level.label().len() as int;
    let end = front + 2 + word + target.len();
    assert(line.take(front) =~= decimal(timestamp));
    assert(line.subrange(front + 1, front + 1 + word) =~= level.label());
    assert(line.subrange(front + 2 + word, end) =~= target);
    assert(line.skip(end + 2) =~= message);
}

} // verus!
