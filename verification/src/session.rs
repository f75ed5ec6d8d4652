//! The backend's side of the conversation: which command lines it accepts, and what it does
//! with them.
use vstd::prelude::*;

use crate::log::{LogLevel, LogLine, opt_log_view};
use crate::protocol::{exit_command, init_command, install_command};
use crate::text::{
    decimal, format_decimal, join, join3, lemma_number_of_decimal, lemma_split_joined, number,
    parse_u32, same_text, split, split_once,
};

verus! {

/// What the backend remembers between two command lines.
pub struct SessionState {
    /// The auth token, empty until a line has established it.
    pub token: Seq<char>,
    /// The process that the front end named in its `init` command.
    pub frontend_pid: Option<u32>,
}

/// What a command line comes to.
pub enum Outcome {
    MissingToken(Seq<char>),
    TokenMismatch,
    AlreadyInitialized,
    Initialized(u32),
    InvalidPid,
    NotInitialized,
    VerifyFrontend(u32, Seq<char>),
    Exit,
    UnknownCommand(Seq<char>),
}

/// The first word of a command and what follows it; nothing follows a lone word.
pub open spec fn word_and_argument(rest: Seq<char>) -> (Seq<char>, Seq<char>) {
    match split(rest, ' ') {
        Some(parts) => parts,
        None => (rest, Seq::empty()),
    }
}

/// What a session is after a command whose token has been accepted, and what the command comes
/// to.
pub open spec fn after_command(state: SessionState, rest: Seq<char>) -> (SessionState, Outcome) {
    let (word, argument) = word_and_argument(rest);
    if word == "init"@ {
        if state.frontend_pid is Some {
            (state, Outcome::AlreadyInitialized)
        } else {
            match number(argument) {
                Some(pid) => (
                    SessionState { frontend_pid: Some(pid), ..state },
                    Outcome::Initialized(pid),
                ),
                None => (state, Outcome::InvalidPid),
            }
        }
    } else if word == "install"@ {
        match state.frontend_pid {
            Some(pid) => (state, Outcome::VerifyFrontend(pid, argument)),
            None => (state, Outcome::NotInitialized),
        }
    } else if word == "exit"@ {
        (state, Outcome::Exit)
    } else {
        (state, Outcome::UnknownCommand(word))
    }
}

/// What a session is after a command line, and what the line comes to. The first line that starts
/// with a token, which is not empty, and a space establishes the token; from then on a line with
/// another token, be it empty, changes nothing.
pub open spec fn after_line(state: SessionState, line: Seq<char>) -> (SessionState, Outcome) {
    match split(line, ' ') {
        None => (state, Outcome::MissingToken(line)),
        Some((token, rest)) => if state.token.len() == 0 && token.len() == 0 {
            (state, Outcome::MissingToken(line))
        } else if state.token.len() > 0 && token != state.token {
            (state, Outcome::TokenMismatch)
        } else {
            after_command(SessionState { token, ..state }, rest)
        },
    }
}

/// The state of a backend that reads command lines.
pub struct Session {
    auth_token: String,
    frontend_pid: Option<u32>,
}

impl View for Session {
    type V = SessionState;

    closed spec fn view(&self) -> SessionState {
        SessionState { token: self.auth_token@, frontend_pid: self.frontend_pid }
    }
}

/// What a command line comes to.
#[derive(Debug)]
pub enum LineOutcome {
    /// The line has no space, or no token is established and it starts with none; it is ignored.
    MissingToken(String),
    /// The token is not the established one; the line is ignored.
    TokenMismatch,
    /// A second `init`; it is ignored.
    AlreadyInitialized,
    /// The front end's process is now known.
    Initialized(u32),
    /// The argument of `init` is no process number.
    InvalidPid,
    /// An `install` before any `init`; it is ignored.
    NotInitialized,
    /// An `install`: the package at `path` is to be installed if the process `pid` is an
    /// ancestor of the backend.
    VerifyFrontend { pid: u32, path: String },
    /// The backend is to end.
    Exit,
    /// A word that is no command; it is ignored.
    UnknownCommand(String),
}

impl View for LineOutcome {
    type V = Outcome;

    open spec fn view(&self) -> Outcome {
        match self {
            LineOutcome::MissingToken(line) => Outcome::MissingToken(line@),
            LineOutcome::TokenMismatch => Outcome::TokenMismatch,
            LineOutcome::AlreadyInitialized => Outcome::AlreadyInitialized,
            LineOutcome::Initialized(pid) => Outcome::Initialized(*pid),
            LineOutcome::InvalidPid => Outcome::InvalidPid,
            LineOutcome::NotInitialized => Outcome::NotInitialized,
            LineOutcome::VerifyFrontend { pid, path } => Outcome::VerifyFrontend(*pid, path@),
            LineOutcome::Exit => Outcome::Exit,
            LineOutcome::UnknownCommand(word) => Outcome::UnknownCommand(word@),
        }
    }
}

impl Session {
    /// A session that has read nothing.
    pub fn new() -> (session: Session)
        ensures
            session@ == fresh(),
    {
        Session { auth_token: String::new(), frontend_pid: None }
    }

    /// Takes in one command line.
    pub fn handle_line(&mut self, line: &str) -> (outcome: LineOutcome)
        ensures
            (final(self)@, outcome@) == after_line(old(self)@, line@),
    {
        let (token, rest) = match split_once(line, ' ') {
            Some(pair) => pair,
            None => {
                return LineOutcome::MissingToken(line.to_owned());
            },
        };
        if self.auth_token.as_str().is_empty() {
            if token.is_empty() {
                return LineOutcome::MissingToken(line.to_owned());
            }
            self.auth_token = token.to_owned();
        } else if !same_text(token, self.auth_token.as_str()) {
            return LineOutcome::TokenMismatch;
        }
        self.handle_command(rest)
    }

    fn handle_command(&mut self, rest: &str) -> (outcome: LineOutcome)
        ensures
            (final(self)@, outcome@) == after_command(old(self)@, rest@),
    {
        let (word, argument) = match split_once(rest, ' ') {
            Some(pair) => pair,
            None => {
                let none: &str = "";
                proof {
                    reveal_strlit("");
                    assert(none@ =~= Seq::<char>::empty());
                }
                (rest, none)
            },
        };
        if same_text(word, "init") {
            if self.frontend_pid.is_some() {
                return LineOutcome::AlreadyInitialized;
            }
            match parse_u32(argument) {
                Some(pid) => {
                    self.frontend_pid = Some(pid);
                    LineOutcome::Initialized(pid)
                },
                None => LineOutcome::InvalidPid,
            }
        } else if same_text(word, "install") {
            match self.frontend_pid {
                Some(pid) => LineOutcome::VerifyFrontend { pid, path: argument.to_owned() },
                None => LineOutcome::NotInitialized,
            }
        } else if same_text(word, "exit") {
            LineOutcome::Exit
        } else {
            LineOutcome::UnknownCommand(word.to_owned())
        }
    }
}

impl LineOutcome {
    /// The log line that goes with an outcome; an `install` that is still to be decided and an
    /// `exit` have none.
    pub fn log(&self) -> (line: Option<LogLine>)
        ensures
            opt_log_view(line) == outcome_log(self@),
    {
        match self {
            LineOutcome::MissingToken(line) => Some(
                LogLine::error(join("Malformed command (missing token): ", line.as_str())),
            ),
            LineOutcome::TokenMismatch => Some(
                LogLine::error("Auth token mismatch: ignoring command".to_owned()),
            ),
            LineOutcome::AlreadyInitialized => Some(
                LogLine::error("init already called rejecting duplicate".to_owned()),
            ),
            LineOutcome::Initialized(pid) => Some(
                LogLine::debug(
                    join("Initialized with frontend PID: ", format_decimal(*pid as u64).as_str()),
                ),
            ),
            LineOutcome::InvalidPid => Some(
                LogLine::error("Invalid frontend PID in init command".to_owned()),
            ),
            LineOutcome::NotInitialized => Some(LogLine::error("Not initialized yet".to_owned())),
            LineOutcome::VerifyFrontend { pid: _, path: _ } => None,
            LineOutcome::Exit => None,
            LineOutcome::UnknownCommand(word) => Some(
                LogLine::error(join("Unknown command: ", word.as_str())),
            ),
        }
    }
}

/// The log line that goes with an outcome.
pub open spec fn outcome_log(outcome: Outcome) -> Option<(LogLevel, Seq<char>)> {
    match outcome {
        Outcome::MissingToken(line) => Some(
            (LogLevel::Error, "Malformed command (missing token): "@ + line),
        ),
        Outcome::TokenMismatch => Some(
            (LogLevel::Error, "Auth token mismatch: ignoring command"@),
        ),
        Outcome::AlreadyInitialized => Some(
            (LogLevel::Error, "init already called rejecting duplicate"@),
        ),
        Outcome::Initialized(pid) => Some(
            (LogLevel::Debug, "Initialized with frontend PID: "@ + decimal(pid as nat)),
        ),
        Outcome::InvalidPid => Some((LogLevel::Error, "Invalid frontend PID in init command"@)),
        Outcome::NotInitialized => Some((LogLevel::Error, "Not initialized yet"@)),
        Outcome::VerifyFrontend(_, _) => None,
        Outcome::Exit => None,
        Outcome::UnknownCommand(word) => Some((LogLevel::Error, "Unknown command: "@ + word)),
    }
}

/// What becomes of an `install` once the front end's ancestry has been checked.
#[derive(Debug)]
pub enum Authorization {
    /// The package at this path is to be installed.
    Install(String),
    /// The request is dropped, with this log line.
    Rejected(LogLine),
}

/// Decides over an `install`: it goes ahead if and only if the front end's process is an ancestor
/// of the backend.
pub fn authorize(pid: u32, path: String, in_ancestry: bool) -> (authorization: Authorization)
    ensures
        match authorization {
            Authorization::Install(p) => in_ancestry && p == path,
            Authorization::Rejected(line) => !in_ancestry && line@ == (
                LogLevel::Error,
                "Frontend PID "@ + decimal(pid as nat)
                    + " is not in our ancestry rejecting install"@,
            ),
        },
{
    if in_ancestry {
        Authorization::Install(path)
    } else {
        Authorization::Rejected(
            LogLine::error(
                join3(
                    "Frontend PID ",
                    format_decimal(pid as u64).as_str(),
                    " is not in our ancestry rejecting install",
                ),
            ),
        )
    }
}

/// The log line after an installation: one for a failure, none for success.
pub fn install_log(outcome: &Result<(), String>) -> (line: Option<LogLine>)
    ensures
        opt_log_view(line) == match outcome {
            Ok(()) => None,
            Err(error) => Some((LogLevel::Error, "Install failed: "@ + error@)),
        },
{
    match outcome {
        Ok(()) => None,
        Err(error) => Some(LogLine::error(join("Install failed: ", error.as_str()))),
    }
}

/// A session that has read nothing.
pub open spec fn fresh() -> SessionState {
    SessionState { token: Seq::empty(), frontend_pid: None }
}

/// What a fresh backend makes of one of the lines that it reads.
pub open spec fn outcome_at(lines: Seq<Seq<char>>, i: int) -> Outcome {
    after_line(after_lines(fresh(), lines.take(i)), lines[i]).1
}

/// What a session is after a number of command lines.
pub open spec fn after_lines(state: SessionState, lines: Seq<Seq<char>>) -> SessionState
    decreases lines.len(),
{
    if lines.len() == 0 {
        state
    } else {
        after_line(after_lines(state, lines.drop_last()), lines.last()).0
    }
}

/// The token that a line starts with; empty where it starts with none.
pub open spec fn token_of(line: Seq<char>) -> Seq<char> {
    match split(line, ' ') {
        Some((token, _)) => token,
        None => Seq::empty(),
    }
}

/// Whether a line is foreign to a session: it starts with no token, or with another than the one
/// that is established.
pub open spec fn is_foreign(state: SessionState, line: Seq<char>) -> bool {
    token_of(line).len() == 0 || (state.token.len() > 0 && token_of(line) != state.token)
}

/// A foreign line changes nothing, and the backend neither installs anything nor ends on its
/// account.
pub proof fn law_foreign_line_ignored(state: SessionState, line: Seq<char>)
    requires
        is_foreign(state, line),
    ensures
        after_line(state, line).0 == state,
        after_line(state, line).1 == if split(line, ' ') is None || state.token.len() == 0 {
            Outcome::MissingToken(line)
        } else {
            Outcome::TokenMismatch
        },
{
}

/// Whatever lines come, an established token stays.
pub proof fn law_token_stays(state: SessionState, lines: Seq<Seq<char>>)
    requires
        state.token.len() > 0,
    ensures
        after_lines(state, lines).token == state.token,
    decreases lines.len(),
{
    if lines.len() > 0 {
        law_token_stays(state, lines.drop_last());
    }
}

/// Whatever lines come, the first process that an `init` names stays.
pub proof fn law_frontend_stays(state: SessionState, lines: Seq<Seq<char>>)
    requires
        state.frontend_pid is Some,
    ensures
        after_lines(state, lines).frontend_pid == state.frontend_pid,
    decreases lines.len(),
{
    if lines.len() > 0 {
        law_frontend_stays(state, lines.drop_last());
    }
}

/// A backend asks for an installation only on a line that bears the token of the session, after
/// an `init`, and then for the process that the `init` named.
pub proof fn law_install_needs_init(state: SessionState, line: Seq<char>)
    requires
        after_line(state, line).1 is VerifyFrontend,
    ensures
        token_of(line).len() > 0,
        state.token.len() == 0 || token_of(line) == state.token,
        state.frontend_pid == Some(after_line(state, line).1->VerifyFrontend_0),
        after_line(state, line).0.frontend_pid == state.frontend_pid,
{
}

/// Whatever lines a fresh backend reads, it knows of a front end only once it has a token.
pub proof fn law_frontend_needs_token(lines: Seq<Seq<char>>)
    ensures
        after_lines(fresh(), lines).frontend_pid is Some ==> after_lines(
            fresh(),
            lines,
        ).token.len() > 0,
    decreases lines.len(),
{
    if lines.len() > 0 {
        law_frontend_needs_token(lines.drop_last());
    }
}

/// A process that a fresh backend has recorded was named by one of the lines that it read, in an
/// `init` command that it accepted.
proof fn lemma_recorded_by_init(lines: Seq<Seq<char>>)
    requires
        after_lines(fresh(), lines).frontend_pid is Some,
    ensures
        exists|i: int|
            0 <= i < lines.len() && #[trigger] outcome_at(lines, i) == Outcome::Initialized(
                after_lines(fresh(), lines).frontend_pid->0,
            ),
    decreases lines.len(),
{
    if lines.len() > 0 {
        let before = lines.drop_last();
        let n = before.len() as int;
        assert(lines.take(n) =~= before);
        if after_lines(fresh(), before).frontend_pid is Some {
            lemma_recorded_by_init(before);
            law_frontend_stays(after_lines(fresh(), before), seq![lines.last()]);
            let pid = after_lines(fresh(), before).frontend_pid->0;
            let i = choose|i: int|
                0 <= i < before.len() && #[trigger] outcome_at(before, i) == Outcome::Initialized(
                    pid,
                );
            assert(before.take(i) =~= lines.take(i));
            assert(outcome_at(lines, i) == Outcome::Initialized(pid));
        } else {
            assert(outcome_at(lines, n) == Outcome::Initialized(
                after_lines(fresh(), lines).frontend_pid->0,
            ));
        }
    }
}

/// Whatever lines a fresh backend reads, it asks for an installation on behalf of a process only
/// after a line that named that process in an accepted `init` command.
pub proof fn law_install_follows_init(lines: Seq<Seq<char>>, n: int)
    requires
        0 <= n < lines.len(),
        outcome_at(lines, n) is VerifyFrontend,
    ensures
        exists|i: int|
            0 <= i < n && #[trigger] outcome_at(lines, i) == Outcome::Initialized(
                outcome_at(lines, n)->VerifyFrontend_0,
            ),
{
    let before = lines.take(n);
    lemma_recorded_by_init(before);
    let pid = after_lines(fresh(), before).frontend_pid->0;
    let i = choose|i: int|
        0 <= i < before.len() && #[trigger] outcome_at(before, i) == Outcome::Initialized(pid);
    assert(before.take(i) =~= lines.take(i));
    assert(outcome_at(lines, i) == Outcome::Initialized(pid));
}

/// A command that is its token, a space, a word without a space, a space and an argument is read
/// as that word and that argument; without the last space, as that word and no argument.
proof fn lemma_command_parts(token: Seq<char>, word: Seq<char>, argument: Seq<char>)
    requires
        !token.contains(' '),
        !word.contains(' '),
    ensures
        split(token + seq![' '] + (word + seq![' '] + argument), ' ') == Some(
            (token, word + seq![' '] + argument),
        ),
        word_and_argument(word + seq![' '] + argument) == (word, argument),
        split(token + seq![' '] + word, ' ') == Some((token, word)),
        word_and_argument(word) == (word, Seq::<char>::empty()),
{
    lemma_split_joined(token, ' ', word + seq![' '] + argument);
    lemma_split_joined(word, ' ', argument);
    lemma_split_joined(token, ' ', word);
    word.index_of_first_ensures(' ');
}

/// What the front end writes, the backend understands: with any token that holds no space and is
/// not empty, a fresh backend that reads the `init` command records that process; the `install` command then
/// asks for that path, character for character, on behalf of that process; and the `exit` command
/// ends it.
pub proof fn law_commands_understood(token: Seq<char>, pid: u32, path: Seq<char>)
    requires
        token.len() > 0,
        !token.contains(' '),
    ensures
        ({
            let known = SessionState { token, frontend_pid: Some(pid) };
            &&& after_line(fresh(), init_command(token, pid)) == (known, Outcome::Initialized(pid))
            &&& after_line(known, install_command(token, path)) == (
                known,
                Outcome::VerifyFrontend(pid, path),
            )
            &&& after_line(known, exit_command(token)) == (known, Outcome::Exit)
        }),
{
    reveal_strlit("init");
    reveal_strlit(" init ");
    reveal_strlit("install");
    reveal_strlit(" install ");
    reveal_strlit("exit");
    reveal_strlit(" exit");
    let digits = decimal(pid as nat);
    lemma_number_of_decimal(pid);
    lemma_command_parts(token, "init"@, digits);
    lemma_command_parts(token, "install"@, path);
    lemma_command_parts(token, "exit"@, Seq::empty());
    assert(init_command(token, pid) =~= token + seq![' '] + ("init"@ + seq![' '] + digits));
    assert(install_command(token, path) =~= token + seq![' '] + ("install"@ + seq![' '] + path));
    assert(exit_command(token) =~= token + seq![' '] + "exit"@);
    assert("install"@[2] != "init"@[2]);
    assert("exit"@[0] != "init"@[0]);
    assert("exit"@[0] != "install"@[0]);
}

/// What a backend has done about the lines of its input.
pub struct RunView {
    /// The installations that it asked for, each with the process to verify and the path.
    pub requests: Seq<(u32, Seq<char>)>,
    /// Whether it has ended on a command, rather than at the end of its input.
    pub ended: bool,
}

/// All that a backend does about the lines of its input. It stops at the first `exit` that it
/// accepts.
pub open spec fn run(state: SessionState, lines: Seq<Seq<char>>) -> RunView
    decreases lines.len(),
{
    if lines.len() == 0 {
        RunView { requests: Seq::empty(), ended: false }
    } else {
        let (next, outcome) = after_line(state, lines.first());
        let rest = run(next, lines.drop_first());
        match outcome {
            Outcome::Exit => RunView { requests: Seq::empty(), ended: true },
            Outcome::VerifyFrontend(pid, path) => RunView {
                requests: seq![(pid, path)] + rest.requests,
                ended: rest.ended,
            },
            _ => rest,
        }
    }
}

/// The token of the first line that has one; empty where none has.
pub open spec fn first_token(lines: Seq<Seq<char>>) -> Seq<char>
    decreases lines.len(),
{
    if lines.len() == 0 {
        Seq::empty()
    } else if token_of(lines.first()).len() > 0 {
        token_of(lines.first())
    } else {
        first_token(lines.drop_first())
    }
}

/// The commands of the lines that bear a token, in order, each as its word and its argument.
pub open spec fn commands_of(token: Seq<char>, lines: Seq<Seq<char>>) -> Seq<(Seq<char>, Seq<char>)>
    decreases lines.len(),
{
    if lines.len() == 0 {
        Seq::empty()
    } else {
        let rest = commands_of(token, lines.drop_first());
        if token.len() > 0 && token_of(lines.first()) == token {
            seq![word_and_argument((split(lines.first(), ' ')->0).1)] + rest
        } else {
            rest
        }
    }
}

/// The commands before the first `exit`.
pub open spec fn before_exit(commands: Seq<(Seq<char>, Seq<char>)>) -> Seq<(Seq<char>, Seq<char>)>
    decreases commands.len(),
{
    if commands.len() == 0 || commands.first().0 == "exit"@ {
        Seq::empty()
    } else {
        seq![commands.first()] + before_exit(commands.drop_first())
    }
}

/// The `install` commands among others, each with the process that is to be verified.
pub open spec fn installs_for(pid: u32, commands: Seq<(Seq<char>, Seq<char>)>) -> Seq<
    (u32, Seq<char>),
>
    decreases commands.len(),
{
    if commands.len() == 0 {
        Seq::empty()
    } else {
        let rest = installs_for(pid, commands.drop_first());
        if commands.first().0 == "install"@ {
            seq![(pid, commands.first().1)] + rest
        } else {
            rest
        }
    }
}

/// The `install` commands after the first `init` that names a process, each for that process.
pub open spec fn installs_after_init(commands: Seq<(Seq<char>, Seq<char>)>) -> Seq<
    (u32, Seq<char>),
>
    decreases commands.len(),
{
    if commands.len() == 0 {
        Seq::empty()
    } else if commands.first().0 == "init"@ && number(commands.first().1) is Some {
        installs_for(number(commands.first().1)->0, commands.drop_first())
    } else {
        installs_after_init(commands.drop_first())
    }
}

/// Whether there is an `exit` among commands.
pub open spec fn has_exit(commands: Seq<(Seq<char>, Seq<char>)>) -> bool {
    exists|i: int| 0 <= i < commands.len() && (#[trigger] commands[i]).0 == "exit"@
}

/// What an established session does about its lines, by their commands.
proof fn lemma_run_of_session(state: SessionState, lines: Seq<Seq<char>>)
    requires
        state.token.len() > 0,
    ensures
        ({
            let commands = commands_of(state.token, lines);
            run(state, lines) == RunView {
                requests: match state.frontend_pid {
                    Some(pid) => installs_for(pid, before_exit(commands)),
                    None => installs_after_init(before_exit(commands)),
                },
                ended: has_exit(commands),
            }
        }),
    decreases lines.len(),
{
    reveal_strlit("init");
    reveal_strlit("install");
    reveal_strlit("exit");
    assert("install"@[2] != "init"@[2]);
    assert("exit"@[0] != "init"@[0]);
    assert("exit"@[0] != "install"@[0]);
    if lines.len() > 0 {
        let line = lines.first();
        let next = after_line(state, line).0;
        let rest = commands_of(state.token, lines.drop_first());
        let commands = commands_of(state.token, lines);
        lemma_run_of_session(next, lines.drop_first());
        if token_of(line) == state.token {
            let command = word_and_argument((split(line, ' ')->0).1);
            assert(commands == seq![command] + rest);
            assert(commands.first() == command);
            assert(commands.drop_first() =~= rest);
            if has_exit(rest) {
                let i = choose|i: int| 0 <= i < rest.len() && (#[trigger] rest[i]).0 == "exit"@;
                assert(commands[i + 1] == rest[i]);
            }
            if has_exit(commands) && command.0 != "exit"@ {
                let i = choose|i: int|
                    0 <= i < commands.len() && (#[trigger] commands[i]).0 == "exit"@;
                assert(rest[i - 1] == commands[i]);
            }
            if command.0 == "exit"@ {
                assert(commands[0] == command);
            } else {
                let kept = before_exit(commands);
                assert(kept == seq![command] + before_exit(rest));
                assert(kept.first() == command);
                assert(kept.drop_first() =~= before_exit(rest));
            }
        }
    }
}

/// A fresh backend asks for exactly the installations that its own lines ask for: of the lines
/// that bear the token of the first line with one, those with an `install` command after the
/// first `init` that names a process and before the first `exit`, in order, each for that process
/// and with its path. It ends on a command if and only if one of its own lines is an `exit`.
pub proof fn law_run_serves_own_lines(lines: Seq<Seq<char>>)
    ensures
        ({
            let commands = commands_of(first_token(lines), lines);
            run(fresh(), lines) == RunView {
                requests: installs_after_init(before_exit(commands)),
                ended: has_exit(commands),
            }
        }),
    decreases lines.len(),
{
    if lines.len() > 0 {
        let token = token_of(lines.first());
        if token.len() > 0 {
            let own = SessionState { token, frontend_pid: None };
            lemma_run_of_session(own, lines);
            assert(after_line(fresh(), lines.first()) == after_line(own, lines.first()));
        } else {
            law_run_serves_own_lines(lines.drop_first());
        }
    }
}

/// The first of a number of lines can be taken in by itself.
proof fn lemma_after_lines_from_first(state: SessionState, lines: Seq<Seq<char>>)
    requires
        lines.len() > 0,
    ensures
        after_lines(state, lines) == after_lines(
            after_line(state, lines.first()).0,
            lines.drop_first(),
        ),
    decreases lines.len(),
{
    let rest = lines.drop_first();
    if rest.len() == 0 {
        assert(lines.drop_last() =~= Seq::<Seq<char>>::empty());
        assert(after_lines(state, lines.drop_last()) == state);
    } else {
        lemma_after_lines_from_first(state, lines.drop_last());
        assert(lines.drop_last().drop_first() =~= rest.drop_last());
    }
}

/// A foreign line among others changes nothing of what a backend does.
pub proof fn law_foreign_line_leaves_run(
    state: SessionState,
    before: Seq<Seq<char>>,
    foreign: Seq<char>,
    after: Seq<Seq<char>>,
)
    requires
        is_foreign(after_lines(state, before), foreign),
    ensures
        run(state, before + seq![foreign] + after) == run(state, before + after),
    decreases before.len(),
{
    let with = before + seq![foreign] + after;
    let without = before + after;
    if before.len() == 0 {
        assert(with.first() == foreign);
        assert(with.drop_first() =~= after);
        assert(without =~= after);
    } else {
        let next = after_line(state, before.first()).0;
        lemma_after_lines_from_first(state, before);
        law_foreign_line_leaves_run(next, before.drop_first(), foreign, after);
        assert(with.first() == before.first());
        assert(without.first() == before.first());
        assert(with.drop_first() =~= before.drop_first() + seq![foreign] + after);
        assert(without.drop_first() =~= before.drop_first() + after);
    }
}

/// A line of a session's own token, or of any token while none is established, is obeyed by its
/// word: the first `init` with a number names the front end, an `install` after that asks for the
/// whole of its argument on behalf of that front end, an `exit` ends the backend, and any other
/// word does nothing. A word alone has an empty argument.
pub proof fn law_own_line_obeyed(
    state: SessionState,
    token: Seq<char>,
    word: Seq<char>,
    argument: Seq<char>,
)
    requires
        token.len() > 0,
        !token.contains(' '),
        !word.contains(' '),
        state.token.len() == 0 || state.token == token,
    ensures
        ({
            let bare = token + seq![' '] + word;
            let (after, outcome) = after_line(state, bare + seq![' '] + argument);
            &&& after.token == token
            &&& word == seq!['i', 'n', 'i', 't'] ==> match state.frontend_pid {
                Some(_) => after.frontend_pid == state.frontend_pid && outcome
                    == Outcome::AlreadyInitialized,
                None => after.frontend_pid == number(argument) && outcome == match number(
                    argument,
                ) {
                    Some(pid) => Outcome::Initialized(pid),
                    None => Outcome::InvalidPid,
                },
            }
            &&& word != seq!['i', 'n', 'i', 't'] ==> after.frontend_pid == state.frontend_pid
            &&& word == seq!['i', 'n', 's', 't', 'a', 'l', 'l'] ==> outcome
                == match state.frontend_pid {
                Some(pid) => Outcome::VerifyFrontend(pid, argument),
                None => Outcome::NotInitialized,
            }
            &&& word == seq!['e', 'x', 'i', 't'] ==> outcome == Outcome::Exit
            &&& word != seq!['i', 'n', 'i', 't'] && word != seq!['i', 'n', 's', 't', 'a', 'l', 'l']
                && word != seq!['e', 'x', 'i', 't'] ==> outcome == Outcome::UnknownCommand(word)
            &&& after_line(state, bare) == after_line(state, bare + seq![' '])
        }),
{
    reveal_strlit("init");
    reveal_strlit("install");
    reveal_strlit("exit");
    assert("init"@ =~= seq!['i', 'n', 'i', 't']);
    assert("install"@ =~= seq!['i', 'n', 's', 't', 'a', 'l', 'l']);
    assert("exit"@ =~= seq!['e', 'x', 'i', 't']);
    assert("install"@[2] != "init"@[2]);
    assert("exit"@[0] != "init"@[0]);
    assert("exit"@[0] != "install"@[0]);
    let bare = token + seq![' '] + word;
    let empty = Seq::<char>::empty();
    lemma_command_parts(token, word, argument);
    lemma_command_parts(token, word, empty);
    assert(bare + seq![' '] + argument =~= token + seq![' '] + (word + seq![' '] + argument));
    assert(bare + seq![' '] =~= token + seq![' '] + (word + seq![' '] + empty));
}

/// A line of another token than the established one, be it empty, is refused, whatever follows; so
/// is an empty token while none is established, and a line without a space at any time.
pub proof fn law_other_line_refused(
    state: SessionState,
    token: Seq<char>,
    rest: Seq<char>,
    line: Seq<char>,
)
    requires
        !token.contains(' '),
        !line.contains(' '),
    ensures
        state.token.len() > 0 && token != state.token ==> after_line(
            state,
            token + seq![' '] + rest,
        ) == (state, Outcome::TokenMismatch),
        state.token.len() == 0 ==> after_line(state, seq![' '] + rest) == (
            state,
            Outcome::MissingToken(seq![' '] + rest),
        ),
        after_line(state, line) == (state, Outcome::MissingToken(line)),
{
    lemma_split_joined(token, ' ', rest);
    lemma_split_joined(Seq::empty(), ' ', rest);
    assert(Seq::<char>::empty() + seq![' '] + rest =~= seq![' '] + rest);
    line.index_of_first_ensures(' ');
}

/// What is logged of a line names in full what was wrong with it, and of an accepted `init` the
/// process.
pub proof fn law_outcomes_logged(text: Seq<char>, pid: u32, path: Seq<char>)
    ensures
        outcome_log(Outcome::MissingToken(text)) == Some(
            (LogLevel::Error, "Malformed command (missing token): "@ + text),
        ),
        outcome_log(Outcome::UnknownCommand(text)) == Some(
            (LogLevel::Error, "Unknown command: "@ + text),
        ),
        outcome_log(Outcome::TokenMismatch) == Some(
            (LogLevel::Error, "Auth token mismatch: ignoring command"@),
        ),
        outcome_log(Outcome::AlreadyInitialized) == Some(
            (LogLevel::Error, "init already called rejecting duplicate"@),
        ),
        outcome_log(Outcome::Initialized(pid)) == Some(
            (LogLevel::Debug, "Initialized with frontend PID: "@ + decimal(pid as nat)),
        ),
        outcome_log(Outcome::InvalidPid) == Some(
            (LogLevel::Error, "Invalid frontend PID in init command"@),
        ),
        outcome_log(Outcome::NotInitialized) == Some((LogLevel::Error, "Not initialized yet"@)),
        outcome_log(Outcome::VerifyFrontend(pid, path)) is None,
        outcome_log(Outcome::Exit) is None,
{
}

/// Outcomes are shown as they are.
pub proof fn law_outcomes_shown(text: String, pid: u32)
    ensures
        LineOutcome::MissingToken(text)@ == Outcome::MissingToken(text@),
        LineOutcome::TokenMismatch@ == Outcome::TokenMismatch,
        LineOutcome::AlreadyInitialized@ == Outcome::AlreadyInitialized,
        LineOutcome::Initialized(pid)@ == Outcome::Initialized(pid),
        LineOutcome::InvalidPid@ == Outcome::InvalidPid,
        LineOutcome::NotInitialized@ == Outcome::NotInitialized,
        (LineOutcome::VerifyFrontend { pid, path: text })@ == Outcome::VerifyFrontend(pid, text@),
        LineOutcome::Exit@ == Outcome::Exit,
        LineOutcome::UnknownCommand(text)@ == Outcome::UnknownCommand(text@),
{
}

/// A session starts without a token and without a front end, and its lines are taken in one after
/// the other.
pub proof fn law_lines_taken_in_order(
    state: SessionState,
    lines: Seq<Seq<char>>,
    line: Seq<char>,
)
    ensures
        fresh().token.len() == 0,
        fresh().frontend_pid is None,
        after_lines(state, Seq::empty()) == state,
        after_lines(state, lines.push(line)) == after_line(after_lines(state, lines), line).0,
{
    assert(lines.push(line).drop_last() =~= lines);
}

} // verus!
