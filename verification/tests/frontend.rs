use deb_installer::frontend::{
    generate_token, interpret, react, token_error, BackendOutput, ProgressEvent, Reaction,
};
use deb_installer::protocol::{progress_change, progress_line, result_line};
use deb_installer::session::{LineOutcome, Session};
use deb_installer::text::format_hex;

fn line(text: &str) -> Reaction {
    react(&BackendOutput::Line(text.to_string()))
}

fn assert_failure(reaction: &Reaction, error: &str) {
    assert!(reaction.finished);
    assert_eq!(reaction.events.len(), 2);
    assert!(matches!(&reaction.events[0], ProgressEvent::Message(m) if m == error));
    assert!(matches!(&reaction.events[1], ProgressEvent::Error(e) if e == error));
}

fn assert_message(reaction: &Reaction, text: &str) {
    assert!(!reaction.finished);
    assert_eq!(reaction.events.len(), 1);
    assert!(matches!(&reaction.events[0], ProgressEvent::Message(m) if m == text));
}

fn assert_percent(reaction: &Reaction, percent: u32) {
    assert!(!reaction.finished);
    assert_eq!(reaction.events.len(), 1);
    assert!(matches!(&reaction.events[0], ProgressEvent::Percent(p) if *p == percent));
}

#[test]
fn token_is_random_hexadecimal() {
    let a = generate_token().unwrap();
    let b = generate_token().unwrap();
    assert_eq!(a.len(), 64);
    assert!(a.chars().all(|c| matches!(c, '0'..='9' | 'a'..='f')));
    assert_ne!(a, b);
    assert_ne!(a, format_hex(&[0u8; 32]));
}

#[test]
fn token_leads_command() {
    let token = generate_token().unwrap();
    let mut session = Session::new();
    let outcome = session.handle_line(&deb_installer::protocol::init_line(&token, 9));
    assert!(matches!(outcome, LineOutcome::Initialized(9)));
}

#[test]
fn token_failure() {
    assert_eq!(
        token_error("no entropy").message,
        "Failed to generate auth token: no entropy"
    );
}

#[test]
fn report_lines() {
    assert_eq!(progress_line(100), "progress 100");
    assert_eq!(result_line(&Ok(())), "result ok");
    assert_eq!(result_line(&Err("disk full".to_string())), "result disk full");
    assert_eq!(progress_change(5, 5), None);
    assert_eq!(progress_change(5, 6), Some("progress 6".to_string()));
}

#[test]
fn progress_understood() {
    for percent in [0u32, 7, 100, 4294967295] {
        assert_percent(&line(&progress_line(percent)), percent);
    }
    assert_percent(&line("progress   42 \t"), 42);
    assert_percent(&line("progress +42"), 42);
}

#[test]
fn odd_progress_is_a_message() {
    for text in ["progress", "progress ", "progress x", "progress 4294967296", "Progress 5", ""] {
        assert_message(&line(text), text);
    }
}

#[test]
fn result_understood() {
    let done = line(&result_line(&Ok(())));
    assert!(done.finished);
    assert_eq!(done.events.len(), 1);
    assert!(matches!(done.events[0], ProgressEvent::Done));
    assert_failure(&line(&result_line(&Err("disk full".to_string()))), "disk full");
    assert_failure(&line("result "), "");
    assert_failure(&line("result ok "), "ok ");
    assert_message(&line("result"), "result");
}

#[test]
fn error_named_ok_reads_as_success() {
    assert!(matches!(
        line(&result_line(&Err("ok".to_string()))).events[0],
        ProgressEvent::Done
    ));
}

#[test]
fn escape_sequences_are_stripped() {
    assert_percent(&line("\u{1b}[32mprogress 5\u{1b}[0m"), 5);
    assert_message(&line("\u{1b}[31mERROR\u{1b}[0m no"), "ERROR no");
    assert_message(&interpret("\u{1b}[31mERROR"), "\u{1b}[31mERROR");
    assert_failure(&line("result \u{9b}1mbold"), "bold");
}

#[test]
fn plain_text_is_left_as_it_is() {
    assert_message(&line("Unpacking [32m 100%"), "Unpacking [32m 100%");
}

#[test]
fn lost_backend() {
    assert_failure(&react(&BackendOutput::Closed), "Backend exited unexpectedly");
    assert_failure(
        &react(&BackendOutput::ReadError("broken pipe".to_string())),
        "Lost connection to backend: broken pipe",
    );
}

#[test]
fn only_the_end_is_terminal() {
    let outputs = vec![
        BackendOutput::Line("starting".to_string()),
        BackendOutput::Line("progress 10".to_string()),
        BackendOutput::Line("result broken".to_string()),
        BackendOutput::Line("result ok".to_string()),
    ];
    let mut events = Vec::new();
    for output in &outputs {
        let reaction = react(output);
        let finished = reaction.finished;
        events.extend(reaction.events);
        if finished {
            break;
        }
    }
    assert_eq!(events.len(), 4);
    let terminal = events
        .iter()
        .filter(|e| matches!(e, ProgressEvent::Done | ProgressEvent::Error(_)))
        .count();
    assert_eq!(terminal, 1);
    assert!(matches!(events[3], ProgressEvent::Error(_)));
}
