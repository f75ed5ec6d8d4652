use deb_installer::log::LogLevel;
use deb_installer::protocol::{exit_line, init_line, install_line};
use deb_installer::session::{authorize, install_log, Authorization, LineOutcome, Session};

fn log_of(outcome: &LineOutcome) -> (LogLevel, String) {
    let line = outcome.log().unwrap();
    (line.level, line.text)
}

#[test]
fn command_lines() {
    assert_eq!(init_line("abc", 42), "abc init 42");
    assert_eq!(install_line("abc", "/tmp/a b.deb"), "abc install /tmp/a b.deb");
    assert_eq!(exit_line("abc"), "abc exit");
}

#[test]
fn commands_understood() {
    let mut session = Session::new();
    let outcome = session.handle_line(&init_line("abc", 4294967295));
    assert!(matches!(outcome, LineOutcome::Initialized(4294967295)));
    assert_eq!(
        log_of(&outcome),
        (LogLevel::Debug, "Initialized with frontend PID: 4294967295".to_string())
    );
    for path in ["/tmp/my  package.deb", "", " ", "init 5"] {
        match session.handle_line(&install_line("abc", path)) {
            LineOutcome::VerifyFrontend { pid, path: got } => {
                assert_eq!(pid, 4294967295);
                assert_eq!(got, path);
            }
            other => panic!("{:?}", other),
        }
    }
    let outcome = session.handle_line(&exit_line("abc"));
    assert!(matches!(outcome, LineOutcome::Exit));
    assert!(outcome.log().is_none());
}

#[test]
fn line_without_token() {
    let mut session = Session::new();
    let outcome = session.handle_line("hello");
    assert!(matches!(outcome, LineOutcome::MissingToken(_)));
    assert_eq!(
        log_of(&outcome),
        (LogLevel::Error, "Malformed command (missing token): hello".to_string())
    );
}

#[test]
fn foreign_token_ignored() {
    let mut session = Session::new();
    session.handle_line("abc init 5");
    let outcome = session.handle_line("abd install /x.deb");
    assert!(matches!(outcome, LineOutcome::TokenMismatch));
    assert_eq!(
        log_of(&outcome),
        (LogLevel::Error, "Auth token mismatch: ignoring command".to_string())
    );
    assert!(matches!(session.handle_line("abd exit"), LineOutcome::TokenMismatch));
    assert!(matches!(
        session.handle_line("abc install /x.deb"),
        LineOutcome::VerifyFrontend { pid: 5, path: _ }
    ));
}

#[test]
fn unknown_first_command_establishes_token() {
    let mut session = Session::new();
    let outcome = session.handle_line("abc hello world");
    match &outcome {
        LineOutcome::UnknownCommand(word) => assert_eq!(word, "hello"),
        other => panic!("{:?}", other),
    }
    assert_eq!(log_of(&outcome), (LogLevel::Error, "Unknown command: hello".to_string()));
    assert!(matches!(session.handle_line("abd init 5"), LineOutcome::TokenMismatch));
    match session.handle_line("abc ") {
        LineOutcome::UnknownCommand(word) => assert_eq!(word, ""),
        other => panic!("{:?}", other),
    }
}

#[test]
fn empty_token_establishes_nothing() {
    let mut session = Session::new();
    let outcome = session.handle_line(" init 10");
    assert!(matches!(outcome, LineOutcome::MissingToken(_)));
    assert_eq!(
        log_of(&outcome),
        (LogLevel::Error, "Malformed command (missing token):  init 10".to_string())
    );
    assert!(matches!(session.handle_line("x install /a.deb"), LineOutcome::NotInitialized));
    assert!(matches!(session.handle_line(" exit"), LineOutcome::TokenMismatch));
    assert!(matches!(session.handle_line("exit"), LineOutcome::MissingToken(_)));
    assert!(matches!(session.handle_line("y init 10"), LineOutcome::TokenMismatch));
    assert!(matches!(session.handle_line("x init 6"), LineOutcome::Initialized(6)));
}

/// What a fresh backend asks for, up to the end of its input or an accepted `exit`.
fn requests(lines: &[&str]) -> Vec<(u32, String)> {
    let mut session = Session::new();
    let mut requests = Vec::new();
    for line in lines {
        match session.handle_line(line) {
            LineOutcome::VerifyFrontend { pid, path } => requests.push((pid, path)),
            LineOutcome::Exit => break,
            _ => {}
        }
    }
    requests
}

#[test]
fn run_serves_own_lines() {
    let lines = [
        "hello",
        " init 10",
        "abc install /early.deb",
        "abc init x",
        "abc init 5",
        "abd init 6",
        "abc install /a.deb",
        "abd exit",
        "abc init 7",
        "abc install /b c.deb",
        "abc exit now",
        "abc install /late.deb",
    ];
    let wanted = vec![(5, "/a.deb".to_string()), (5, "/b c.deb".to_string())];
    assert_eq!(requests(&lines), wanted);
    assert!(requests(&[" init 10", "x install /a.deb"]).is_empty());
}

#[test]
fn foreign_lines_leave_run() {
    let lines = ["abc init 5", "abc install /a.deb", "abc exit", "abc install /b.deb"];
    for at in 0..=lines.len() {
        for foreign in ["", "exit", " exit", " install /x.deb", "abd exit", "abd install /x.deb"] {
            if at > 0 || !foreign.starts_with("abd") {
                let mut more = lines.to_vec();
                more.insert(at, foreign);
                assert_eq!(requests(&more), requests(&lines));
            }
        }
    }
}

#[test]
fn first_frontend_stays() {
    let mut session = Session::new();
    session.handle_line("abc init 5");
    let outcome = session.handle_line("abc init 6");
    assert!(matches!(outcome, LineOutcome::AlreadyInitialized));
    assert_eq!(
        log_of(&outcome),
        (LogLevel::Error, "init already called rejecting duplicate".to_string())
    );
    assert!(matches!(
        session.handle_line("abc install"),
        LineOutcome::VerifyFrontend { pid: 5, path: _ }
    ));
}

#[test]
fn invalid_frontend() {
    let mut session = Session::new();
    for line in ["abc init", "abc init ", "abc init x", "abc init 1 2", "abc init 4294967296"] {
        let outcome = session.handle_line(line);
        assert!(matches!(outcome, LineOutcome::InvalidPid));
        assert_eq!(
            log_of(&outcome),
            (LogLevel::Error, "Invalid frontend PID in init command".to_string())
        );
    }
    assert!(matches!(session.handle_line("abc init 1"), LineOutcome::Initialized(1)));
}

#[test]
fn install_needs_init() {
    let mut session = Session::new();
    let outcome = session.handle_line("abc install /x.deb");
    assert!(matches!(outcome, LineOutcome::NotInitialized));
    assert_eq!(log_of(&outcome), (LogLevel::Error, "Not initialized yet".to_string()));
}

#[test]
fn authorization() {
    match authorize(5, "/x.deb".to_string(), true) {
        Authorization::Install(path) => assert_eq!(path, "/x.deb"),
        other => panic!("{:?}", other),
    }
    match authorize(5, "/x.deb".to_string(), false) {
        Authorization::Rejected(line) => {
            assert_eq!(line.level, LogLevel::Error);
            assert_eq!(
                line.text,
                "Frontend PID 5 is not in our ancestry rejecting install"
            );
        }
        other => panic!("{:?}", other),
    }
}

#[test]
fn install_outcome_logged() {
    assert!(install_log(&Ok(())).is_none());
    let line = install_log(&Err("no cache".to_string())).unwrap();
    assert_eq!(line.level, LogLevel::Error);
    assert_eq!(line.text, "Install failed: no cache");
}
