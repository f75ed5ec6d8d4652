//! The course of one installation in the backend: which work comes after which, what a failure
//! does, and what is reported to the front end.
use vstd::prelude::*;

use crate::frontend::{
    conversation, law_progress_understood, law_result_understood, reads_back, EventView,
    OutputView, ReactionView,
};
use crate::log::{LogLevel, LogLine, opt_log_view};
use crate::protocol::{failure_of, progress_line, progress_report, result_line, result_report};
use crate::text::join;

verus! {

/// A piece of work on an installation. The package manager or the history does it; it succeeds
/// or fails.
#[derive(Debug, Clone, Copy, PartialEq, Eq, Structural)]
pub enum Stage {
    /// Open the package cache with the package file in it.
    OpenCache,
    /// Find the packages of the file.
    MatchPackages,
    /// Mark them for installation.
    MarkInstall,
    /// Resolve their dependencies.
    Resolve,
    /// Make the client for the downloads.
    BuildClient,
    /// Draw up the transaction.
    BuildTransaction,
    /// Open the history of installations.
    OpenHistory,
    /// Enter this installation in the history, as not yet successful.
    RecordHistory,
    /// Download and install.
    Commit,
}

/// What an installation does after a stage.
#[derive(Debug)]
pub enum Next {
    /// Go on with this stage.
    Run(Stage),
    /// Give up with this error; nothing is reported to the front end.
    GiveUp(String),
    /// Take these actions, in order. How the installation then ends, [`finish`] says.
    Report { actions: Vec<Action> },
}

/// What an installation does once the commit is over.
#[derive(Debug)]
pub enum Action {
    /// Write a line to the front end.
    Write(String),
    /// Mark the entry in the history as a success or a failure.
    UpdateHistory { success: bool },
}

/// What an installation does: a stage, or something once the commit is over.
pub enum Deed {
    Run(Stage),
    Write(Seq<char>),
    UpdateHistory(bool),
}

impl View for Action {
    type V = Deed;

    open spec fn view(&self) -> Deed {
        match self {
            Action::Write(line) => Deed::Write(line@),
            Action::UpdateHistory { success } => Deed::UpdateHistory(*success),
        }
    }
}

/// What a row of actions does.
pub open spec fn deeds(actions: Seq<Action>) -> Seq<Deed> {
    actions.map_values(|action: Action| action@)
}

/// What is done once the commit is over: the report goes to the front end, and where a history is
/// kept, it is updated after that.
pub open spec fn report_deeds(failure: Option<Seq<char>>, keep_history: bool) -> Seq<Deed> {
    let report = seq![Deed::Write(progress_report(100)), Deed::Write(result_report(failure))];
    if keep_history {
        report.push(Deed::UpdateHistory(failure is None))
    } else {
        report
    }
}

/// The stage after one that succeeded, if it is not the last. The history has its stages only
/// where one is kept.
pub open spec fn next_stage(stage: Stage, keep_history: bool) -> Option<Stage> {
    match stage {
        Stage::OpenCache => Some(Stage::MatchPackages),
        Stage::MatchPackages => Some(Stage::MarkInstall),
        Stage::MarkInstall => Some(Stage::Resolve),
        Stage::Resolve => Some(Stage::BuildClient),
        Stage::BuildClient => Some(Stage::BuildTransaction),
        Stage::BuildTransaction => if keep_history {
            Some(Stage::OpenHistory)
        } else {
            Some(Stage::Commit)
        },
        Stage::OpenHistory => Some(Stage::RecordHistory),
        Stage::RecordHistory => Some(Stage::Commit),
        Stage::Commit => None,
    }
}

/// Decides what comes after a stage. The commit is reported whether it succeeded or not; before
/// it, a stage that fails ends the installation without a report.
pub fn after_stage(stage: Stage, outcome: Result<(), String>, keep_history: bool) -> (next: Next)
    ensures
        match next {
            Next::Run(following) => outcome is Ok && next_stage(stage, keep_history) == Some(
                following,
            ),
            Next::GiveUp(error) => stage != Stage::Commit && outcome == Err::<(), String>(error),
            Next::Report { actions } => stage == Stage::Commit && deeds(actions@) == report_deeds(
                failure_of(outcome),
                keep_history,
            ),
        },
{
    let following: Stage = match stage {
        Stage::OpenCache => Stage::MatchPackages,
        Stage::MatchPackages => Stage::MarkInstall,
        Stage::MarkInstall => Stage::Resolve,
        Stage::Resolve => Stage::BuildClient,
        Stage::BuildClient => Stage::BuildTransaction,
        Stage::BuildTransaction => if keep_history {
            Stage::OpenHistory
        } else {
            Stage::Commit
        },
        Stage::OpenHistory => Stage::RecordHistory,
        Stage::RecordHistory => Stage::Commit,
        Stage::Commit => {
            return Next::Report { actions: report_actions(&outcome, keep_history) };
        },
    };
    match outcome {
        Ok(()) => Next::Run(following),
        Err(error) => Next::GiveUp(error),
    }
}

/// The actions once the commit is over.
fn report_actions(outcome: &Result<(), String>, keep_history: bool) -> (actions: Vec<Action>)
    ensures
        deeds(actions@) == report_deeds(failure_of(*outcome), keep_history),
{
    let mut actions: Vec<Action> = Vec::new();
    actions.push(Action::Write(progress_line(100)));
    actions.push(Action::Write(result_line(outcome)));
    if keep_history {
        actions.push(Action::UpdateHistory { success: outcome.is_ok() });
    }
    assert(deeds(actions@) =~= report_deeds(failure_of(*outcome), keep_history));
    actions
}

/// The log line after the history was told how an installation ended: one for a failure. It has
/// no bearing on the installation.
pub fn history_log(outcome: &Result<(), String>) -> (line: Option<LogLine>)
    ensures
        opt_log_view(line) == match outcome {
            Ok(()) => None,
            Err(error) => Some(
                (LogLevel::Error, "Failed to update install history: "@ + error@),
            ),
        },
{
    match outcome {
        Ok(()) => None,
        Err(error) => Some(
            LogLine::error(join("Failed to update install history: ", error.as_str())),
        ),
    }
}

/// How an installation ends.
#[derive(Debug)]
pub struct Ending {
    /// A line to log, if there is one.
    pub log: Option<LogLine>,
    /// What has come of the installation.
    pub outcome: Result<(), String>,
}

/// How an installation ends after its report: as the commit did, whatever came of updating the
/// history. Without a history there is no update that could fail.
pub fn finish(commit: Result<(), String>, update: &Result<(), String>) -> (ending: Ending)
    ensures
        ending.outcome == commit,
        failure_of(ending.outcome) == failure_at_end(failure_of(commit), failure_of(*update)),
        opt_log_view(ending.log) == match update {
            Ok(()) => None,
            Err(error) => Some(
                (LogLevel::Error, "Failed to update install history: "@ + error@),
            ),
        },
{
    Ending { log: history_log(update), outcome: commit }
}

/// The failure that an installation ends with after its report, by how the commit and the update
/// of the history ended.
pub open spec fn failure_at_end(
    commit: Option<Seq<char>>,
    update: Option<Seq<char>>,
) -> Option<Seq<char>> {
    commit
}

/// A whole installation.
pub struct Course {
    /// What is done, in order.
    pub deeds: Seq<Deed>,
    /// The failure that it ends with, if it fails.
    pub failure: Option<Seq<char>>,
}

/// An installation from a stage on, given how each stage and the update of the history end.
pub open spec fn course(
    stage: Stage,
    failures: spec_fn(Stage) -> Option<Seq<char>>,
    update: Option<Seq<char>>,
    keep_history: bool,
) -> Course
    decreases stages_ahead(stage),
{
    let run = seq![Deed::Run(stage)];
    match next_stage(stage, keep_history) {
        Some(following) => if failures(stage) is Some {
            Course { deeds: run, failure: failures(stage) }
        } else {
            let rest = course(following, failures, update, keep_history);
            Course { deeds: run + rest.deeds, failure: rest.failure }
        },
        None => Course {
            deeds: run + report_deeds(failures(stage), keep_history),
            failure: failure_at_end(failures(stage), update),
        },
    }
}

/// The history is updated after everything else, right after the result of the commit went to the
/// front end, with whether that was a success; and the installation then ends as the commit did.
pub open spec fn updates_history_last(course: Course, commit: Option<Seq<char>>) -> bool {
    forall|i: int|
        0 <= i < course.deeds.len() && (#[trigger] course.deeds[i]) is UpdateHistory ==> {
            &&& 0 < i == course.deeds.len() - 1
            &&& course.deeds[i - 1] == Deed::Write(result_report(commit))
            &&& course.deeds[i] == Deed::UpdateHistory(commit is None)
            &&& course.failure == commit
        }
}

/// Whatever stage an installation is at, and however the stages end: where it updates the
/// history, it does so after the result has gone to the front end; and how the update ends changes
/// neither what is done nor how the installation ends.
pub proof fn law_history_is_not_critical(
    stage: Stage,
    failures: spec_fn(Stage) -> Option<Seq<char>>,
    update: Option<Seq<char>>,
    keep_history: bool,
)
    ensures
        updates_history_last(
            course(stage, failures, update, keep_history),
            failures(Stage::Commit),
        ),
        course(stage, failures, update, keep_history) == course(
            stage,
            failures,
            None,
            keep_history,
        ),
    decreases stages_ahead(stage),
{
    let all = course(stage, failures, update, keep_history);
    if let Some(following) = next_stage(stage, keep_history) {
        law_history_is_not_critical(following, failures, update, keep_history);
        let rest = course(following, failures, update, keep_history);
        if failures(stage) is None {
            assert forall|i: int|
                0 <= i < all.deeds.len() && (#[trigger] all.deeds[i]) is UpdateHistory implies {
                &&& 0 < i == all.deeds.len() - 1
                &&& all.deeds[i - 1] == Deed::Write(result_report(failures(Stage::Commit)))
                &&& all.deeds[i] == Deed::UpdateHistory(failures(Stage::Commit) is None)
                &&& all.failure == failures(Stage::Commit)
            } by {
                assert(all.deeds[i] == rest.deeds[i - 1]);
                assert(all.deeds[i - 1] == rest.deeds[i - 2]);
            }
        }
    }
}

/// How many stages lie ahead of one.
pub open spec fn stages_ahead(stage: Stage) -> nat {
    match stage {
        Stage::OpenCache => 8,
        Stage::MatchPackages => 7,
        Stage::MarkInstall => 6,
        Stage::Resolve => 5,
        Stage::BuildClient => 4,
        Stage::BuildTransaction => 3,
        Stage::OpenHistory => 2,
        Stage::RecordHistory => 1,
        Stage::Commit => 0,
    }
}

/// Whether an installation that has come to a stage gets to its report, given which stages fail.
pub open spec fn gets_to_report(
    stage: Stage,
    fails: spec_fn(Stage) -> bool,
    keep_history: bool,
) -> bool
    decreases stages_ahead(stage),
{
    match next_stage(stage, keep_history) {
        Some(following) => !fails(stage) && gets_to_report(following, fails, keep_history),
        None => true,
    }
}

/// An installation gets to its report if and only if no stage before the commit fails; the
/// stages of the history count only where one is kept, and how the commit ends does not count.
pub proof fn law_report_needs_every_stage(fails: spec_fn(Stage) -> bool, keep_history: bool)
    ensures
        gets_to_report(Stage::OpenCache, fails, keep_history) <==> (forall|stage: Stage|
            stage != Stage::Commit && #[trigger] fails(stage) ==> !keep_history && (stage
                == Stage::OpenHistory || stage == Stage::RecordHistory)),
{
    reveal_with_fuel(gets_to_report, 9);
    if gets_to_report(Stage::OpenCache, fails, keep_history) {
        assert forall|stage: Stage| stage != Stage::Commit && #[trigger] fails(stage) implies
            !keep_history && (stage == Stage::OpenHistory || stage == Stage::RecordHistory) by {
            match stage {
                Stage::OpenCache => {},
                Stage::MatchPackages => {},
                Stage::MarkInstall => {},
                Stage::Resolve => {},
                Stage::BuildClient => {},
                Stage::BuildTransaction => {},
                Stage::OpenHistory => {},
                Stage::RecordHistory => {},
                Stage::Commit => {},
            }
        }
    } else {
        assert(fails(Stage::OpenCache) || fails(Stage::MatchPackages) || fails(Stage::MarkInstall)
            || fails(Stage::Resolve) || fails(Stage::BuildClient) || fails(Stage::BuildTransaction)
            || (keep_history && (fails(Stage::OpenHistory) || fails(Stage::RecordHistory))));
    }
}

/// What the front end makes of the report: it hears that everything is done, and then the result,
/// where there are no escape sequences to strip off it. Left out is the error `ok`, whose report
/// is the one for success.
pub proof fn law_report_ends_conversation(outcome: Option<Seq<char>>)
    requires
        outcome != Some("ok"@),
    ensures
        reads_back(outcome) ==> conversation(
            seq![
                OutputView::Line(progress_report(100)),
                OutputView::Line(result_report(outcome)),
            ],
        ) == (ReactionView {
            events: match outcome {
                None => seq![EventView::Percent(100), EventView::Done],
                Some(error) => seq![
                    EventView::Percent(100),
                    EventView::Message(error),
                    EventView::Error(error),
                ],
            },
            finished: true,
        }),
{
    let outputs = seq![
        OutputView::Line(progress_report(100)),
        OutputView::Line(result_report(outcome)),
    ];
    law_progress_understood(100);
    law_result_understood(outcome);
    let first = outputs.drop_last();
    assert(first.drop_last() =~= Seq::<OutputView>::empty());
    assert(conversation(first.drop_last()).events =~= Seq::<EventView>::empty());
    assert(conversation(first).events =~= seq![EventView::Percent(100)]);
    let events = match outcome {
        None => seq![EventView::Percent(100), EventView::Done],
        Some(error) => seq![
            EventView::Percent(100),
            EventView::Message(error),
            EventView::Error(error),
        ],
    };
    if reads_back(outcome) {
        assert(conversation(outputs).events =~= events);
    }
}

/// The stages of an installation that nothing stops, in order.
pub open spec fn all_stages(keep_history: bool) -> Seq<Stage> {
    let prepared = seq![
        Stage::OpenCache,
        Stage::MatchPackages,
        Stage::MarkInstall,
        Stage::Resolve,
        Stage::BuildClient,
        Stage::BuildTransaction,
    ];
    let recorded = if keep_history {
        prepared + seq![Stage::OpenHistory, Stage::RecordHistory]
    } else {
        prepared
    };
    recorded.push(Stage::Commit)
}

/// An installation whose stages all succeed up to one before the commit that fails runs those
/// stages, in order and once each, does nothing else, and fails with the error of that stage.
pub proof fn law_failed_stage_ends_course(
    failures: spec_fn(Stage) -> Option<Seq<char>>,
    update: Option<Seq<char>>,
    keep_history: bool,
    n: int,
)
    requires
        0 <= n < all_stages(keep_history).len() - 1,
        forall|i: int| 0 <= i < n ==> failures(#[trigger] all_stages(keep_history)[i]) is None,
        failures(all_stages(keep_history)[n]) is Some,
    ensures
        ({
            let whole = course(Stage::OpenCache, failures, update, keep_history);
            &&& whole.deeds == all_stages(keep_history).take(n + 1).map_values(
                |stage: Stage| Deed::Run(stage),
            )
            &&& whole.failure == failures(all_stages(keep_history)[n])
        }),
{
    lemma_course_from(failures, update, keep_history, 0, n);
    let stages = all_stages(keep_history);
    assert(stages[0] == Stage::OpenCache);
    assert(stages.subrange(0, n + 1) =~= stages.take(n + 1));
}

/// The rest of a course from one of its stages to the one that fails.
proof fn lemma_course_from(
    failures: spec_fn(Stage) -> Option<Seq<char>>,
    update: Option<Seq<char>>,
    keep_history: bool,
    k: int,
    n: int,
)
    requires
        0 <= k <= n < all_stages(keep_history).len() - 1,
        forall|i: int| k <= i < n ==> failures(#[trigger] all_stages(keep_history)[i]) is None,
        failures(all_stages(keep_history)[n]) is Some,
    ensures
        ({
            let rest = course(all_stages(keep_history)[k], failures, update, keep_history);
            &&& rest.deeds == all_stages(keep_history).subrange(k, n + 1).map_values(
                |stage: Stage| Deed::Run(stage),
            )
            &&& rest.failure == failures(all_stages(keep_history)[n])
        }),
    decreases n - k,
{
    let stages = all_stages(keep_history);
    let rest = course(stages[k], failures, update, keep_history);
    assert(next_stage(stages[k], keep_history) == Some(stages[k + 1]));
    if k < n {
        lemma_course_from(failures, update, keep_history, k + 1, n);
        let later = course(stages[k + 1], failures, update, keep_history);
        assert(rest.deeds =~= seq![Deed::Run(stages[k])] + later.deeds);
    }
    assert(rest.deeds =~= stages.subrange(k, n + 1).map_values(|stage: Stage| Deed::Run(stage)));
}

/// An installation that gets to the commit has run every stage, in order and once each. Then the
/// front end is told that everything is done and how the commit ended, the history, where one is
/// kept, is told whether it succeeded, and the installation ends as the commit did.
pub proof fn law_commit_is_reported(
    failures: spec_fn(Stage) -> Option<Seq<char>>,
    update: Option<Seq<char>>,
    keep_history: bool,
)
    requires
        forall|i: int|
            0 <= i < all_stages(keep_history).len() - 1 ==> failures(
                #[trigger] all_stages(keep_history)[i],
            ) is None,
    ensures
        ({
            let whole = course(Stage::OpenCache, failures, update, keep_history);
            let commit = failures(Stage::Commit);
            let told = seq![Deed::Write(progress_report(100)), Deed::Write(result_report(commit))];
            &&& whole.deeds == all_stages(keep_history).map_values(
                |stage: Stage| Deed::Run(stage),
            ) + told + if keep_history {
                seq![Deed::UpdateHistory(commit is None)]
            } else {
                Seq::empty()
            }
            &&& whole.failure == commit
        }),
{
    lemma_course_to_commit(failures, update, keep_history, 0);
    let stages = all_stages(keep_history);
    assert(stages[0] == Stage::OpenCache);
    assert(stages.subrange(0, stages.len() as int) =~= stages);
}

/// The rest of a course from one of its stages through the commit.
proof fn lemma_course_to_commit(
    failures: spec_fn(Stage) -> Option<Seq<char>>,
    update: Option<Seq<char>>,
    keep_history: bool,
    k: int,
)
    requires
        0 <= k < all_stages(keep_history).len(),
        forall|i: int|
            0 <= i < all_stages(keep_history).len() - 1 ==> failures(
                #[trigger] all_stages(keep_history)[i],
            ) is None,
    ensures
        ({
            let stages = all_stages(keep_history);
            let rest = course(stages[k], failures, update, keep_history);
            let commit = failures(Stage::Commit);
            let told = seq![Deed::Write(progress_report(100)), Deed::Write(result_report(commit))];
            &&& rest.deeds == stages.subrange(k, stages.len() as int).map_values(
                |stage: Stage| Deed::Run(stage),
            ) + told + if keep_history {
                seq![Deed::UpdateHistory(commit is None)]
            } else {
                Seq::empty()
            }
            &&& rest.failure == commit
        }),
    decreases all_stages(keep_history).len() - k,
{
    let stages = all_stages(keep_history);
    let rest = course(stages[k], failures, update, keep_history);
    let commit = failures(Stage::Commit);
    let told = seq![Deed::Write(progress_report(100)), Deed::Write(result_report(commit))];
    let updated = if keep_history {
        seq![Deed::UpdateHistory(commit is None)]
    } else {
        Seq::empty()
    };
    if k < stages.len() - 1 {
        assert(next_stage(stages[k], keep_history) == Some(stages[k + 1]));
        assert(failures(stages[k]) is None);
        lemma_course_to_commit(failures, update, keep_history, k + 1);
        let later = course(stages[k + 1], failures, update, keep_history);
        assert(rest.deeds =~= seq![Deed::Run(stages[k])] + later.deeds);
    } else {
        assert(stages[k] == Stage::Commit);
        assert(report_deeds(commit, keep_history) =~= told + updated);
    }
    assert(rest.deeds =~= stages.subrange(k, stages.len() as int).map_values(
        |stage: Stage| Deed::Run(stage),
    ) + told + updated);
}

/// Actions are shown as they are, one for one and in order.
pub proof fn law_actions_shown(line: String, success: bool, actions: Seq<Action>, i: int)
    ensures
        Action::Write(line)@ == Deed::Write(line@),
        (Action::UpdateHistory { success })@ == Deed::UpdateHistory(success),
        deeds(actions).len() == actions.len(),
        0 <= i < actions.len() ==> deeds(actions)[i] == actions[i]@,
{
}

} // verus!
