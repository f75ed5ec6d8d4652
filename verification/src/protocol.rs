//! The lines that the front end and the privileged backend write to each other.
//!
//! The front end sends commands, each led by the auth token. The backend answers with progress
//! lines and one result line. Each command and each report is one line: where a path or an error
//! holds a line break, the reader gets more than one line and takes each by itself.
use vstd::prelude::*;

use crate::text::{
    after_prefix, decimal, format_decimal, join, join3, lemma_after_prefix_joined,
};

verus! {

/// The command that names the front end's process.
pub open spec fn init_command(token: Seq<char>, pid: u32) -> Seq<char> {
    token + " init "@ + decimal(pid as nat)
}

/// The command that asks for the installation of a package file.
pub open spec fn install_command(token: Seq<char>, path: Seq<char>) -> Seq<char> {
    token + " install "@ + path
}

/// The command that ends the backend.
pub open spec fn exit_command(token: Seq<char>) -> Seq<char> {
    token + " exit"@
}

/// Writes the command that names the front end's process.
pub fn init_line(token: &str, pid: u32) -> (line: String)
    ensures
        line@ == init_command(token@, pid),
{
    join3(token, " init ", format_decimal(pid as u64).as_str())
}

/// Writes the command that asks for the installation of a package file.
pub fn install_line(token: &str, path: &str) -> (line: String)
    ensures
        line@ == install_command(token@, path@),
{
    join3(token, " install ", path)
}

/// Writes the command that ends the backend.
pub fn exit_line(token: &str) -> (line: String)
    ensures
        line@ == exit_command(token@),
{
    join(token, " exit")
}

/// The report of how far an installation has come.
pub open spec fn progress_report(percent: u32) -> Seq<char> {
    "progress "@ + decimal(percent as nat)
}

/// The report of how an installation ended: `None` for success, or the error.
pub open spec fn result_report(failure: Option<Seq<char>>) -> Seq<char> {
    match failure {
        None => "result ok"@,
        Some(error) => "result "@ + error,
    }
}

/// Writes the report of how far an installation has come.
pub fn progress_line(percent: u32) -> (line: String)
    ensures
        line@ == progress_report(percent),
{
    join("progress ", format_decimal(percent as u64).as_str())
}

/// What an outcome holds as a failure: nothing, or the text of the error.
pub open spec fn failure_of(outcome: Result<(), String>) -> Option<Seq<char>> {
    match outcome {
        Ok(()) => None,
        Err(error) => Some(error@),
    }
}

/// Writes the report of how an installation ended.
pub fn result_line(outcome: &Result<(), String>) -> (line: String)
    ensures
        line@ == result_report(failure_of(*outcome)),
{
    match outcome {
        Ok(()) => "result ok".to_owned(),
        Err(error) => join("result ", error.as_str()),
    }
}

/// Decides whether a new percentage is worth a line: only where it differs from the one before.
pub fn progress_change(old: u32, percent: u32) -> (line: Option<String>)
    ensures
        line is Some <==> old != percent,
        line matches Some(line) ==> line@ == progress_report(percent),
{
    if old != percent {
        Some(progress_line(percent))
    } else {
        None
    }
}

/// Each command is its token, its word and its argument, set apart by single spaces, with nothing
/// lost or added: taking the former off leaves the latter, character for character.
pub proof fn law_commands_spelled(token: Seq<char>, pid: u32, path: Seq<char>)
    ensures
        after_prefix(init_command(token, pid), token + " init "@) == Some(decimal(pid as nat)),
        after_prefix(install_command(token, path), token + " install "@) == Some(path),
        after_prefix(exit_command(token), token) == Some(" exit"@),
{
    lemma_after_prefix_joined(token + " init "@, decimal(pid as nat));
    lemma_after_prefix_joined(token + " install "@, path);
    lemma_after_prefix_joined(token, " exit"@);
}

/// Each report is its word and, after a single space, all of what it tells.
pub proof fn law_reports_spelled(percent: u32, error: Seq<char>)
    ensures
        after_prefix(progress_report(percent), "progress "@) == Some(decimal(percent as nat)),
        after_prefix(result_report(Some(error)), "result "@) == Some(error),
        result_report(None) == "result ok"@,
{
    lemma_after_prefix_joined("progress "@, decimal(percent as nat));
    lemma_after_prefix_joined("result "@, error);
}

/// An outcome is a failure if and only if it holds an error, which is then told in full.
pub proof fn law_failures_told(error: String)
    ensures
        failure_of(Ok(())) is None,
        failure_of(Err(error)) == Some(error@),
{
}

} // verus!
