use deb_installer::download::{
    download_failure, handle_no_pb_download_error, transfer_line, DownloadStep, NoProgressBar,
    PackageDownloadEvent,
};
use deb_installer::log::LogLevel;
use oma_fetch::SingleDownloadError;

const SECOND: u64 = 1_000_000_000;

fn texts(step: &DownloadStep) -> Vec<(LogLevel, String)> {
    step.logs.iter().map(|line| (line.level, line.text.clone())).collect()
}

fn denied() -> SingleDownloadError {
    SingleDownloadError::Open {
        source: std::io::Error::other("denied"),
    }
}

#[test]
fn bar_starts_empty() {
    let bar = NoProgressBar::default();
    assert_eq!(bar.timer, 0);
    assert_eq!(bar.total_size, None);
    assert_eq!(bar.old_downloaded, 0);
    assert_eq!(bar.progress, 0);
}

#[test]
fn failure_lines() {
    let one = download_failure("a.deb", &vec!["timeout".to_string()]);
    assert_eq!(one.level, LogLevel::Error);
    assert_eq!(one.text, "Failed to download package a.deb, Reason: timeout.");
    let three = download_failure(
        "a.deb",
        &vec!["open".to_string(), "middle".to_string(), "denied".to_string()],
    );
    assert_eq!(three.text, "Failed to download package a.deb, Reason: open: denied.");
}

#[test]
fn failure_of_real_errors() {
    let line = handle_no_pb_download_error("a.deb".to_string(), SingleDownloadError::ChecksumMismatch);
    assert_eq!(line.text, "Failed to download package a.deb, Reason: checksum mismatch.");
    let line = handle_no_pb_download_error("a.deb".to_string(), denied());
    assert_eq!(
        line.text,
        "Failed to download package a.deb, Reason: Failed to open file: denied."
    );
}

#[test]
fn events_that_are_logged() {
    let mut bar = NoProgressBar::default();
    let step = bar.download_event(
        PackageDownloadEvent::ChecksumMismatch { filename: "a.deb".to_string(), times: 3 },
        1,
    );
    assert_eq!(
        texts(&step),
        vec![(
            LogLevel::Error,
            "Checksum verification failed for a.deb. Retrying 3 times ...".to_string()
        )]
    );
    let step = bar.download_event(
        PackageDownloadEvent::NextUrl { file_name: "a.deb".to_string(), err: denied() },
        1,
    );
    assert_eq!(
        texts(&step),
        vec![
            (
                LogLevel::Error,
                "Failed to download package a.deb, Reason: Failed to open file: denied.".to_string()
            ),
            (LogLevel::Info, "Retrying using the next available mirror ...".to_string()),
        ]
    );
    let step = bar.download_event(
        PackageDownloadEvent::Failed {
            file_name: "a.deb".to_string(),
            error: SingleDownloadError::DownloadTimeout,
        },
        1,
    );
    assert_eq!(
        texts(&step),
        vec![(
            LogLevel::Error,
            "Failed to download package a.deb, Reason: Download file timeout.".to_string()
        )]
    );
    let step = bar.download_event(PackageDownloadEvent::DownloadDone { msg: "a".to_string() }, 1);
    assert_eq!(texts(&step), vec![(LogLevel::Info, "Done: a".to_string())]);
    assert!(!step.finished);
}

#[test]
fn only_all_done_finishes() {
    let mut bar = NoProgressBar::default();
    assert!(!bar.download_event(PackageDownloadEvent::Other, 1).finished);
    assert!(!bar.download_event(PackageDownloadEvent::NewGlobalProgressBar(7), 1).finished);
    let step = bar.download_event(PackageDownloadEvent::AllDone, 1);
    assert!(step.finished);
    assert!(step.logs.is_empty());
}

#[test]
fn first_total_stays() {
    let mut bar = NoProgressBar::default();
    bar.download_event(PackageDownloadEvent::NewGlobalProgressBar(7), 1);
    bar.download_event(PackageDownloadEvent::NewGlobalProgressBar(9), 1);
    assert_eq!(bar.total_size, Some(7));
}

#[test]
fn progress_without_total() {
    let mut bar = NoProgressBar::default();
    let step = bar.download_event(PackageDownloadEvent::GlobalProgressAdd(2048), 3 * SECOND - 1);
    assert!(step.logs.is_empty());
    assert_eq!(bar.timer, 0);
    let step = bar.download_event(PackageDownloadEvent::GlobalProgressAdd(1024), 3 * SECOND);
    assert_eq!(texts(&step), vec![(LogLevel::Info, "Downloaded 3.00 KiB".to_string())]);
    assert_eq!(bar.timer, 3 * SECOND);
    assert_eq!(bar.old_downloaded, 0);
}

#[test]
fn progress_against_total() {
    let mut bar = NoProgressBar::default();
    bar.download_event(PackageDownloadEvent::NewGlobalProgressBar(1 << 20), 0);
    let step = bar.download_event(PackageDownloadEvent::GlobalProgressAdd(8192), 4 * SECOND + 999);
    assert_eq!(
        texts(&step),
        vec![(LogLevel::Info, "8.00 KiB / 1.00 MiB (2.00 KiB/s)".to_string())]
    );
    assert_eq!(bar.old_downloaded, 8192);
    let step = bar.download_event(PackageDownloadEvent::GlobalProgressAdd(300), 10 * SECOND);
    assert_eq!(
        texts(&step),
        vec![(LogLevel::Info, "8.29 KiB / 1.00 MiB (60B/s)".to_string())]
    );
    assert_eq!(transfer_line("a", "b", "c"), "a / b (c/s)");
}

#[test]
fn lines_are_apart() {
    let mut bar = NoProgressBar::default();
    assert_eq!(bar.print_progress(5 * SECOND).len(), 1);
    assert_eq!(bar.print_progress(8 * SECOND - 1).len(), 0);
    assert_eq!(bar.print_progress(2 * SECOND).len(), 0);
    assert_eq!(bar.print_progress(8 * SECOND).len(), 1);
}

#[test]
fn sub_undoes_add() {
    let mut bar = NoProgressBar::default();
    bar.download_event(PackageDownloadEvent::GlobalProgressAdd(10), 1);
    bar.download_event(PackageDownloadEvent::GlobalProgressAdd(5), 1);
    bar.download_event(PackageDownloadEvent::GlobalProgressSub(5), 1);
    assert_eq!(bar.progress, 10);
    bar.download_event(PackageDownloadEvent::GlobalProgressSub(50), 1);
    assert_eq!(bar.progress, 0);
}

#[test]
fn amounts_that_wrap_around() {
    let mut bar = NoProgressBar::default();
    assert!(bar.can_take(&PackageDownloadEvent::GlobalProgressAdd(u64::MAX), 0));
    bar.download_event(PackageDownloadEvent::GlobalProgressAdd(u64::MAX), 0);
    assert!(!bar.can_take(&PackageDownloadEvent::GlobalProgressAdd(1), 0));
    bar.download_event(PackageDownloadEvent::NewGlobalProgressBar(1), 0);
    bar.print_progress(3 * SECOND);
    assert!(bar.can_take(&PackageDownloadEvent::GlobalProgressSub(1), 4 * SECOND));
    assert!(!bar.can_take(&PackageDownloadEvent::GlobalProgressSub(1), 6 * SECOND));
    assert!(bar.can_take(&PackageDownloadEvent::GlobalProgressSub(0), 6 * SECOND));
    bar.download_event(PackageDownloadEvent::GlobalProgressAdd(11), 4 * SECOND);
    assert_eq!(bar.progress, 10);
    let step = bar.download_event(PackageDownloadEvent::GlobalProgressAdd(20), 6 * SECOND);
    assert_eq!(texts(&step), vec![(LogLevel::Info, "30B / 1B (10B/s)".to_string())]);
}
