//! Progress of the package downloads, as the backend logs it.
use vstd::arithmetic::div_mod::lemma_fundamental_div_mod_converse;
use vstd::prelude::*;

use crate::log::{LogLevel, LogLine, log_view};
use crate::size::{human_bytes, human_bytes_text};
use crate::text::{decimal, format_decimal, join, join3};

verus! {

/// Why the download of one file failed.
#[verifier::external_type_specification]
#[verifier::external_body]
pub struct ExSingleDownloadError(oma_fetch::SingleDownloadError);

/// What happens while packages are downloaded.
#[derive(Debug)]
pub enum PackageDownloadEvent {
    /// A file did not have the expected checksum.
    ChecksumMismatch { filename: String, times: usize },
    /// More bytes have arrived.
    GlobalProgressAdd(u64),
    /// Bytes that had arrived were thrown away.
    GlobalProgressSub(u64),
    /// A source failed, and the next one is tried.
    NextUrl { file_name: String, err: oma_fetch::SingleDownloadError },
    /// One file is complete.
    DownloadDone { msg: String },
    /// Nothing more will happen.
    AllDone,
    /// The total size has become known.
    NewGlobalProgressBar(u64),
    /// All sources of a file failed.
    Failed { file_name: String, error: oma_fetch::SingleDownloadError },
    /// Something that is not logged.
    Other,
}

/// Whether a row of messages is among those that `anyhow::Chain` can give of an error and of what
/// caused it, on one system or another.
pub uninterp spec fn can_explain(
    error: oma_fetch::SingleDownloadError,
    causes: Seq<Seq<char>>,
) -> bool;

/// `anyhow::Chain`: an error and what caused it, from the outside in, each as its message. The
/// chain starts with the error itself, so it is never empty. What the messages say can depend on
/// the system, and is left open: they are some that [`can_explain`] admits of this error.
#[verifier::external_body]
fn error_chain(error: &oma_fetch::SingleDownloadError) -> (causes: Vec<String>)
    ensures
        causes@.len() > 0,
        can_explain(*error, messages(causes@)),
{
    anyhow::Chain::new(error).map(|cause| cause.to_string()).collect()
}

/// The messages of a chain of errors.
pub open spec fn messages(causes: Seq<String>) -> Seq<Seq<char>> {
    causes.map_values(|cause: String| cause@)
}

/// The report of a failed download: the error, and where it has causes, the innermost of them.
pub open spec fn failure_text(file_name: Seq<char>, causes: Seq<Seq<char>>) -> Seq<char> {
    let reason = if causes.len() > 1 {
        causes.first() + ": "@ + causes.last()
    } else {
        causes.first()
    };
    "Failed to download package "@ + file_name + ", Reason: "@ + reason + "."@
}

/// Writes the report of a failed download, given the error's chain.
pub fn download_failure(file_name: &str, causes: &Vec<String>) -> (line: LogLine)
    requires
        causes@.len() > 0,
    ensures
        line@ == (LogLevel::Error, failure_text(file_name@, messages(causes@))),
{
    let first: &str = causes[0].as_str();
    let reason: String = if causes.len() > 1 {
        join3(first, ": ", causes[causes.len() - 1].as_str())
    } else {
        first.to_owned()
    };
    LogLine::error(
        join3("Failed to download package ", file_name, ", Reason: ").concat(
            reason.as_str(),
        ).concat("."),
    )
}

/// Writes the report of a failed download, with messages that explain its error.
pub fn handle_no_pb_download_error(
    file_name: String,
    error: oma_fetch::SingleDownloadError,
) -> (line: LogLine)
    ensures
        exists|causes: Seq<Seq<char>>|
            causes.len() > 0 && can_explain(error, causes) && line@ == (
                LogLevel::Error,
                #[trigger] failure_text(file_name@, causes),
            ),
{
    let causes: Vec<String> = error_chain(&error);
    assert(messages(causes@).len() > 0);
    download_failure(file_name.as_str(), &causes)
}

/// How many seconds lie between two progress lines.
pub const REPORT_SECS: u64 = 3;

/// The nanoseconds of a second.
pub const NANOS_PER_SEC: u64 = 1_000_000_000;

/// The progress of all downloads together. Time is read off a clock that counts nanoseconds and
/// stands at zero when the bar is made.
#[derive(Debug)]
pub struct NoProgressBar {
    /// When the last progress line was written.
    pub timer: u64,
    /// The total size, from when it is known.
    pub total_size: Option<u64>,
    /// How much had arrived when the last progress line against a total was written.
    pub old_downloaded: u64,
    /// How much has arrived.
    pub progress: u64,
}

impl Default for NoProgressBar {
    fn default() -> (bar: Self)
        ensures
            bar == (NoProgressBar { timer: 0, total_size: None, old_downloaded: 0, progress: 0 }),
    {
        NoProgressBar { timer: 0, total_size: None, old_downloaded: 0, progress: 0 }
    }
}

/// What comes of one event.
#[derive(Debug)]
pub struct DownloadStep {
    /// The lines to log, in order.
    pub logs: Vec<LogLine>,
    /// Whether nothing more will happen.
    pub finished: bool,
}

/// What comes of one event, as values.
pub struct StepView {
    pub logs: Seq<(LogLevel, Seq<char>)>,
    pub finished: bool,
}

impl View for DownloadStep {
    type V = StepView;

    open spec fn view(&self) -> StepView {
        StepView { logs: log_view(self.logs@), finished: self.finished }
    }
}

/// A progress line against a total: what has arrived, the total, and the rate.
pub open spec fn transfer_text(
    done: Seq<char>,
    total: Seq<char>,
    rate: Seq<char>,
) -> Seq<char> {
    done + " / "@ + total + " ("@ + rate + "/s)"@
}

/// Writes a progress line against a total.
pub fn transfer_line(done: &str, total: &str, rate: &str) -> (text: String)
    ensures
        text@ == transfer_text(done@, total@, rate@),
{
    join3(done, " / ", total).concat(" (").concat(rate).concat("/s)")
}

/// The whole seconds since the last progress line.
pub open spec fn elapsed_secs(bar: NoProgressBar, now: u64) -> int {
    if now >= bar.timer {
        (now - bar.timer) / (NANOS_PER_SEC as int)
    } else {
        0
    }
}

/// Whether a rate stays in range where one is due: less than before has not arrived.
pub open spec fn can_print(bar: NoProgressBar, now: u64) -> bool {
    elapsed_secs(bar, now) >= REPORT_SECS && bar.total_size is Some ==> bar.old_downloaded
        <= bar.progress
}

/// A bar after a progress line was due or not, and the line. A line is due once enough seconds
/// have passed; against a known total it says the rate since the last such line. An amount below
/// that of the last line wraps around.
pub open spec fn printed(bar: NoProgressBar, now: u64) -> (
    NoProgressBar,
    Seq<(LogLevel, Seq<char>)>,
) {
    let secs = elapsed_secs(bar, now);
    if secs < REPORT_SECS {
        (bar, Seq::empty())
    } else {
        match bar.total_size {
            Some(total) => (
                NoProgressBar { timer: now, old_downloaded: bar.progress, ..bar },
                seq![
                    (
                        LogLevel::Info,
                        transfer_text(
                            human_bytes_text(bar.progress),
                            human_bytes_text(total),
                            human_bytes_text(
                                bar.progress.wrapping_sub(bar.old_downloaded) / (secs as u64),
                            ),
                        ),
                    ),
                ],
            ),
            None => (
                NoProgressBar { timer: now, ..bar },
                seq![(LogLevel::Info, "Downloaded "@ + human_bytes_text(bar.progress))],
            ),
        }
    }
}

/// The amount that has arrived after some of it was thrown away.
pub open spec fn less(progress: u64, num: u64) -> u64 {
    if progress >= num {
        (progress - num) as u64
    } else {
        0
    }
}

/// Whether a bar can take in an event without an amount wrapping around: neither what has arrived
/// nor a rate that is due.
pub open spec fn can_take(bar: NoProgressBar, event: PackageDownloadEvent, now: u64) -> bool {
    match event {
        PackageDownloadEvent::GlobalProgressAdd(inc) => {
            &&& bar.progress + inc <= u64::MAX
            &&& can_print(NoProgressBar { progress: (bar.progress + inc) as u64, ..bar }, now)
        },
        PackageDownloadEvent::GlobalProgressSub(num) => can_print(
            NoProgressBar { progress: less(bar.progress, num), ..bar },
            now,
        ),
        _ => true,
    }
}

/// Whether a row of messages explains the error that an event bears. An event without an error
/// needs none.
pub open spec fn explains(event: PackageDownloadEvent, causes: Seq<Seq<char>>) -> bool {
    match event {
        PackageDownloadEvent::NextUrl { file_name: _, err } => causes.len() > 0 && can_explain(
            err,
            causes,
        ),
        PackageDownloadEvent::Failed { file_name: _, error } => causes.len() > 0 && can_explain(
            error,
            causes,
        ),
        _ => true,
    }
}

/// A bar after an event, and what comes of the event. `causes` is the chain of the error that
/// the event bears, if it bears one.
pub open spec fn after_event(
    bar: NoProgressBar,
    event: PackageDownloadEvent,
    causes: Seq<Seq<char>>,
    now: u64,
) -> (NoProgressBar, StepView) {
    match event {
        PackageDownloadEvent::ChecksumMismatch { filename, times } => (
            bar,
            StepView {
                logs: seq![
                    (
                        LogLevel::Error,
                        "Checksum verification failed for "@ + filename@ + ". Retrying "@
                            + decimal(times as nat) + " times ..."@,
                    ),
                ],
                finished: false,
            },
        ),
        PackageDownloadEvent::GlobalProgressAdd(inc) => {
            let (after, logs) = printed(
                NoProgressBar { progress: bar.progress.wrapping_add(inc), ..bar },
                now,
            );
            (after, StepView { logs, finished: false })
        },
        PackageDownloadEvent::GlobalProgressSub(num) => {
            let (after, logs) = printed(
                NoProgressBar { progress: less(bar.progress, num), ..bar },
                now,
            );
            (after, StepView { logs, finished: false })
        },
        PackageDownloadEvent::NextUrl { file_name, err: _ } => (
            bar,
            StepView {
                logs: seq![
                    (LogLevel::Error, failure_text(file_name@, causes)),
                    (LogLevel::Info, "Retrying using the next available mirror ..."@),
                ],
                finished: false,
            },
        ),
        PackageDownloadEvent::DownloadDone { msg } => (
            bar,
            StepView { logs: seq![(LogLevel::Info, "Done: "@ + msg@)], finished: false },
        ),
        PackageDownloadEvent::AllDone => (bar, StepView { logs: Seq::empty(), finished: true }),
        PackageDownloadEvent::NewGlobalProgressBar(total) => (
            NoProgressBar {
                total_size: if bar.total_size is Some {
                    bar.total_size
                } else {
                    Some(total)
                },
                ..bar
            },
            StepView { logs: Seq::empty(), finished: false },
        ),
        PackageDownloadEvent::Failed { file_name, error: _ } => (
            bar,
            StepView {
                logs: seq![(LogLevel::Error, failure_text(file_name@, causes))],
                finished: false,
            },
        ),
        PackageDownloadEvent::Other => (bar, StepView { logs: Seq::empty(), finished: false }),
    }
}

impl NoProgressBar {
    fn elapsed_secs(&self, now: u64) -> (secs: u64)
        ensures
            secs == elapsed_secs(*self, now),
    {
        if now >= self.timer {
            (now - self.timer) / NANOS_PER_SEC
        } else {
            0
        }
    }

    /// Writes a progress line, if one is due.
    pub fn print_progress(&mut self, now: u64) -> (logs: Vec<LogLine>)
        ensures
            (*final(self), log_view(logs@)) == printed(*old(self), now),
    {
        let secs: u64 = self.elapsed_secs(now);
        let mut logs: Vec<LogLine> = Vec::new();
        if secs >= REPORT_SECS {
            let done: String = human_bytes(self.progress);
            match self.total_size {
                Some(total) => {
                    let rate: u64 = self.progress.wrapping_sub(self.old_downloaded) / secs;
                    logs.push(
                        LogLine::info(
                            transfer_line(
                                done.as_str(),
                                human_bytes(total).as_str(),
                                human_bytes(rate).as_str(),
                            ),
                        ),
                    );
                    self.old_downloaded = self.progress;
                },
                None => {
                    logs.push(LogLine::info(join("Downloaded ", done.as_str())));
                },
            }
            self.timer = now;
        }
        assert(log_view(logs@) =~= printed(*old(self), now).1);
        logs
    }

    /// Whether an event can be taken in without an amount wrapping around. A program that checks
    /// its arithmetic asks before it hands over an event.
    pub fn can_take(&self, event: &PackageDownloadEvent, now: u64) -> (can: bool)
        ensures
            can == can_take(*self, *event, now),
    {
        let progress: u64 = match event {
            PackageDownloadEvent::GlobalProgressAdd(inc) => match self.progress.checked_add(*inc) {
                Some(sum) => sum,
                None => {
                    return false;
                },
            },
            PackageDownloadEvent::GlobalProgressSub(num) => self.progress.saturating_sub(*num),
            _ => {
                return true;
            },
        };
        self.elapsed_secs(now) < REPORT_SECS || self.total_size.is_none() || self.old_downloaded
            <= progress
    }

    /// Takes in an event.
    pub fn download_event(&mut self, event: PackageDownloadEvent, now: u64) -> (step: DownloadStep)
        ensures
            exists|causes: Seq<Seq<char>>|
                explains(event, causes) && (*final(self), step@) == #[trigger] after_event(
                    *old(self),
                    event,
                    causes,
                    now,
                ),
    {
        let mut logs: Vec<LogLine> = Vec::new();
        let mut finished: bool = false;
        let ghost mut causes: Seq<Seq<char>> = Seq::empty();
        match event {
            PackageDownloadEvent::ChecksumMismatch { filename, times } => {
                logs.push(
                    LogLine::error(
                        join3(
                            "Checksum verification failed for ",
                            filename.as_str(),
                            ". Retrying ",
                        ).concat(format_decimal(times as u64).as_str()).concat(" times ..."),
                    ),
                );
            },
            PackageDownloadEvent::GlobalProgressAdd(inc) => {
                self.progress = self.progress.wrapping_add(inc);
                logs = self.print_progress(now);
            },
            PackageDownloadEvent::GlobalProgressSub(num) => {
                self.progress = self.progress.saturating_sub(num);
                logs = self.print_progress(now);
            },
            PackageDownloadEvent::NextUrl { file_name, err } => {
                let line: LogLine = handle_no_pb_download_error(file_name, err);
                proof {
                    causes = choose|causes: Seq<Seq<char>>|
                        causes.len() > 0 && can_explain(err, causes) && line@ == (
                            LogLevel::Error,
                            #[trigger] failure_text(file_name@, causes),
                        );
                }
                logs.push(line);
                logs.push(
                    LogLine::info("Retrying using the next available mirror ...".to_owned()),
                );
            },
            PackageDownloadEvent::DownloadDone { msg } => {
                logs.push(LogLine::info(join("Done: ", msg.as_str())));
            },
            PackageDownloadEvent::AllDone => {
                finished = true;
            },
            PackageDownloadEvent::NewGlobalProgressBar(total) => {
                if self.total_size.is_none() {
                    self.total_size = Some(total);
                }
            },
            PackageDownloadEvent::Failed { file_name, error } => {
                let line: LogLine = handle_no_pb_download_error(file_name, error);
                proof {
                    causes = choose|causes: Seq<Seq<char>>|
                        causes.len() > 0 && can_explain(error, causes) && line@ == (
                            LogLevel::Error,
                            #[trigger] failure_text(file_name@, causes),
                        );
                }
                logs.push(line);
            },
            PackageDownloadEvent::Other => {},
        }
        let step: DownloadStep = DownloadStep { logs, finished };
        proof {
            assert(step@.logs =~= after_event(*old(self), event, causes, now).1.logs);
        }
        step
    }
}

/// The downloads are over with the one event that says so, and with no other.
pub proof fn law_only_all_done_finishes(
    bar: NoProgressBar,
    event: PackageDownloadEvent,
    causes: Seq<Seq<char>>,
    now: u64,
)
    ensures
        after_event(bar, event, causes, now).1.finished <==> event is AllDone,
{
}

/// The first total that becomes known stays, whatever happens.
pub proof fn law_total_stays(
    bar: NoProgressBar,
    event: PackageDownloadEvent,
    causes: Seq<Seq<char>>,
    now: u64,
)
    requires
        bar.total_size is Some,
    ensures
        after_event(bar, event, causes, now).0.total_size == bar.total_size,
{
}

/// Once a progress line has been written, no other is written before enough seconds have passed
/// again, whatever arrives or is thrown away meanwhile.
pub proof fn law_lines_apart(bar: NoProgressBar, now: u64, progress: u64, later: u64)
    requires
        printed(bar, now).1.len() > 0,
        later < now + REPORT_SECS * NANOS_PER_SEC,
    ensures
        printed(NoProgressBar { progress, ..printed(bar, now).0 }, later).1.len() == 0,
{
}

/// Throwing away what has just arrived gives back the amount there was.
pub proof fn law_sub_undoes_add(
    bar: NoProgressBar,
    amount: u64,
    causes: Seq<Seq<char>>,
    now: u64,
    later: u64,
)
    requires
        bar.progress + amount <= u64::MAX,
    ensures
        ({
            let added = after_event(
                bar,
                PackageDownloadEvent::GlobalProgressAdd(amount),
                causes,
                now,
            ).0;
            after_event(
                added,
                PackageDownloadEvent::GlobalProgressSub(amount),
                causes,
                later,
            ).0.progress == bar.progress
        }),
{
}

/// A failed download is reported with the whole name of the file and the whole message of the
/// error; an error with causes is reported with the message of the innermost cause too, however
/// many lie between.
pub proof fn law_failures_reported(
    file_name: Seq<char>,
    error: Seq<char>,
    between: Seq<Seq<char>>,
    cause: Seq<char>,
)
    ensures
        failure_text(file_name, seq![error]) == "Failed to download package "@ + file_name
            + ", Reason: "@ + error + "."@,
        failure_text(file_name, seq![error] + between + seq![cause])
            == "Failed to download package "@ + file_name + ", Reason: "@ + (error + ": "@ + cause)
            + "."@,
{
    let causes = seq![error] + between + seq![cause];
    assert(causes.first() == error);
    assert(causes.last() == cause);
}

/// The messages of a chain are those of its errors, one for one and in order; and an event with an
/// error is explained only by what explains that error.
pub proof fn law_errors_explained(
    causes: Seq<String>,
    i: int,
    file_name: String,
    error: oma_fetch::SingleDownloadError,
    told: Seq<Seq<char>>,
)
    ensures
        messages(causes).len() == causes.len(),
        0 <= i < causes.len() ==> messages(causes)[i] == causes[i]@,
        explains(PackageDownloadEvent::NextUrl { file_name, err: error }, told) <==> told.len() > 0
            && can_explain(error, told),
        explains(PackageDownloadEvent::Failed { file_name, error }, told) <==> told.len() > 0
            && can_explain(error, told),
{
}

/// A progress line is written if and only if three seconds have passed since the last, and it says
/// what has arrived in all. Against a total it says the total and the rate too: the whole number of
/// bytes for each whole second that makes up what has arrived since the last such line.
pub proof fn law_progress_lines(bar: NoProgressBar, now: u64, rate: u64)
    ensures
        ({
            let (after, lines) = printed(bar, now);
            let waited = now - bar.timer;
            let secs = waited / 1_000_000_000;
            let arrived = if bar.progress >= bar.old_downloaded {
                bar.progress - bar.old_downloaded
            } else {
                bar.progress - bar.old_downloaded + 0x1_0000_0000_0000_0000
            };
            let done = human_bytes_text(bar.progress);
            &&& after.progress == bar.progress
            &&& after.total_size == bar.total_size
            &&& waited < 3_000_000_000 ==> after == bar && lines.len() == 0
            &&& waited >= 3_000_000_000 ==> {
                &&& after.timer == now
                &&& lines.len() == 1
                &&& lines[0].0 == LogLevel::Info
                &&& bar.total_size is None ==> after.old_downloaded == bar.old_downloaded
                    && lines[0].1 == "Downloaded "@ + done
                &&& bar.total_size is Some ==> after.old_downloaded == bar.progress
                &&& bar.total_size is Some && rate * secs <= arrived < (rate + 1) * secs
                    ==> lines[0].1 == done + " / "@ + human_bytes_text(bar.total_size->0) + " ("@
                    + human_bytes_text(rate) + "/s)"@
            }
        }),
{
    let secs = (now - bar.timer) / 1_000_000_000;
    let arrived = if bar.progress >= bar.old_downloaded {
        bar.progress - bar.old_downloaded
    } else {
        bar.progress - bar.old_downloaded + 0x1_0000_0000_0000_0000
    };
    if now - bar.timer >= 3_000_000_000 && bar.total_size is Some && rate * secs <= arrived < (rate
        + 1) * secs {
        assert(secs >= 3);
        assert((rate + 1) * secs == rate * secs + secs) by (nonlinear_arith);
        lemma_fundamental_div_mod_converse(arrived, secs, rate as int, arrived - rate * secs);
        assert(bar.progress.wrapping_sub(bar.old_downloaded) == arrived);
    }
}

/// What arrives is added to what had arrived, and what is thrown away is taken off it, down to
/// nothing; a line is then written as at any other time. A sum that does not fit wraps around.
pub proof fn law_amounts_counted(
    bar: NoProgressBar,
    amount: u64,
    causes: Seq<Seq<char>>,
    now: u64,
    more: u64,
    less: u64,
)
    requires
        more == bar.progress + amount || more == bar.progress + amount - 0x1_0000_0000_0000_0000,
        less == bar.progress - amount || (less == 0 && bar.progress < amount),
    ensures
        ({
            let (after, logs) = printed(NoProgressBar { progress: more, ..bar }, now);
            after_event(bar, PackageDownloadEvent::GlobalProgressAdd(amount), causes, now) == (
                after,
                StepView { logs, finished: false },
            )
        }),
        ({
            let (after, logs) = printed(NoProgressBar { progress: less, ..bar }, now);
            after_event(bar, PackageDownloadEvent::GlobalProgressSub(amount), causes, now) == (
                after,
                StepView { logs, finished: false },
            )
        }),
{
}

/// What is not about amounts leaves them and the clock alone, and is logged in full: a wrong
/// checksum, a failed source with the step to the next one, a file that is complete and one that
/// failed. A total is kept if it is the first; that and the end are not logged.
pub proof fn law_other_events_logged(
    bar: NoProgressBar,
    name: String,
    times: usize,
    error: oma_fetch::SingleDownloadError,
    total: u64,
    causes: Seq<Seq<char>>,
    now: u64,
)
    ensures
        after_event(
            bar,
            PackageDownloadEvent::ChecksumMismatch { filename: name, times },
            causes,
            now,
        ) == (
            bar,
            (StepView {
                logs: seq![
                    (
                        LogLevel::Error,
                        "Checksum verification failed for "@ + name@ + ". Retrying "@ + decimal(
                            times as nat,
                        ) + " times ..."@,
                    ),
                ],
                finished: false,
            }),
        ),
        after_event(
            bar,
            PackageDownloadEvent::NextUrl { file_name: name, err: error },
            causes,
            now,
        ) == (
            bar,
            (StepView {
                logs: seq![
                    (LogLevel::Error, failure_text(name@, causes)),
                    (LogLevel::Info, "Retrying using the next available mirror ..."@),
                ],
                finished: false,
            }),
        ),
        after_event(bar, PackageDownloadEvent::Failed { file_name: name, error }, causes, now) == (
            bar,
            (StepView {
                logs: seq![(LogLevel::Error, failure_text(name@, causes))],
                finished: false,
            }),
        ),
        after_event(bar, PackageDownloadEvent::DownloadDone { msg: name }, causes, now) == (
            bar,
            (StepView { logs: seq![(LogLevel::Info, "Done: "@ + name@)], finished: false }),
        ),
        after_event(bar, PackageDownloadEvent::NewGlobalProgressBar(total), causes, now) == (
            (NoProgressBar {
                total_size: Some(
                    if bar.total_size is Some {
                        bar.total_size->0
                    } else {
                        total
                    },
                ),
                ..bar
            }),
            (StepView { logs: Seq::empty(), finished: false }),
        ),
        after_event(bar, PackageDownloadEvent::AllDone, causes, now) == (
            bar,
            (StepView { logs: Seq::empty(), finished: true }),
        ),
        after_event(bar, PackageDownloadEvent::Other, causes, now) == (
            bar,
            (StepView { logs: Seq::empty(), finished: false }),
        ),
{
}

/// Steps are shown as they are.
pub proof fn law_steps_shown(logs: Vec<LogLine>, finished: bool)
    ensures
        (DownloadStep { logs, finished })@.logs == log_view(logs@),
        (DownloadStep { logs, finished })@.finished == finished,
{
}

/// An event makes an amount wrap around if and only if what has arrived no longer fits, or a line
/// against a total is due and less has arrived than at the last such line.
pub proof fn law_wrapping_foreseen(bar: NoProgressBar, amount: u64, now: u64)
    ensures
        ({
            let due = now - bar.timer >= 3_000_000_000 && bar.total_size is Some;
            &&& can_take(bar, PackageDownloadEvent::GlobalProgressAdd(amount), now) <==> {
                &&& bar.progress + amount < 0x1_0000_0000_0000_0000
                &&& due ==> bar.progress + amount >= bar.old_downloaded
            }
            &&& can_take(bar, PackageDownloadEvent::GlobalProgressSub(amount), now) <==> (due
                ==> bar.progress - amount >= bar.old_downloaded || bar.old_downloaded == 0)
        }),
{
}

/// An event that is not about amounts makes none wrap around.
pub proof fn law_other_events_taken(bar: NoProgressBar, event: PackageDownloadEvent, now: u64)
    requires
        !(event is GlobalProgressAdd),
        !(event is GlobalProgressSub),
    ensures
        can_take(bar, event, now),
{
}

/// A line against a total says all three amounts in full, whatever they are.
pub proof fn law_transfer_spelled(done: Seq<char>, total: Seq<char>, rate: Seq<char>)
    ensures
        transfer_text(done, total, rate) == done + seq![' ', '/', ' '] + total + seq![' ', '(']
            + rate + seq!['/', 's', ')'],
{
    reveal_strlit(" / ");
    reveal_strlit(" (");
    reveal_strlit("/s)");
    assert(" / "@ =~= seq![' ', '/', ' ']);
    assert(" ("@ =~= seq![' ', '(']);
    assert("/s)"@ =~= seq!['/', 's', ')']);
}

} // verus!
