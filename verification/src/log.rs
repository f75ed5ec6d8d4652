//! Log lines that the decisions of this crate ask their caller to write.
use vstd::prelude::*;

verus! {

/// How important a log line is.
#[derive(Debug, Clone, Copy, PartialEq, Eq, Structural)]
pub enum LogLevel {
    Debug,
    Info,
    Error,
}

/// One line for the log.
#[derive(Debug)]
pub struct LogLine {
    pub level: LogLevel,
    pub text: String,
}

impl View for LogLine {
    type V = (LogLevel, Seq<char>);

    open spec fn view(&self) -> (LogLevel, Seq<char>) {
        (self.level, self.text@)
    }
}

impl LogLine {
    /// A line that reports a failure.
    pub fn error(text: String) -> (line: LogLine)
        ensures
            line@ == (LogLevel::Error, text@),
    {
        LogLine { level: LogLevel::Error, text }
    }

    /// A line that reports normal progress.
    pub fn info(text: String) -> (line: LogLine)
        ensures
            line@ == (LogLevel::Info, text@),
    {
        LogLine { level: LogLevel::Info, text }
    }

    /// A line for whoever debugs the program.
    pub fn debug(text: String) -> (line: LogLine)
        ensures
            line@ == (LogLevel::Debug, text@),
    {
        LogLine { level: LogLevel::Debug, text }
    }
}

/// The lines of a log, each as its level and its text.
pub open spec fn log_view(lines: Seq<LogLine>) -> Seq<(LogLevel, Seq<char>)> {
    lines.map_values(|line: LogLine| line@)
}

/// What an optional line holds.
pub open spec fn opt_log_view(line: Option<LogLine>) -> Option<(LogLevel, Seq<char>)> {
    match line {
        Some(line) => Some(line@),
        None => None,
    }
}

/// A log shows its lines one for one and in order, each with its level and its whole text.
pub proof fn law_log_shows_lines(lines: Seq<LogLine>, i: int)
    requires
        0 <= i < lines.len(),
    ensures
        log_view(lines).len() == lines.len(),
        log_view(lines)[i] == (lines[i].level, lines[i].text@),
        opt_log_view(Some(lines[i])) == Some((lines[i].level, lines[i].text@)),
        opt_log_view(None) is None,
{
}

} // verus!
