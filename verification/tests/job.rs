use deb_installer::job::{after_stage, finish, history_log, Action, Next, Stage};

/// Actions as texts.
fn texts(actions: &[Action]) -> Vec<String> {
    actions
        .iter()
        .map(|action| match action {
            Action::Write(line) => line.clone(),
            Action::UpdateHistory { success } => format!("history {}", success),
        })
        .collect()
}

fn course(keep_history: bool) -> Vec<Stage> {
    let mut stages = vec![Stage::OpenCache];
    loop {
        let stage = *stages.last().unwrap();
        match after_stage(stage, Ok(()), keep_history) {
            Next::Run(next) => stages.push(next),
            Next::Report { actions } => {
                assert_eq!(texts(&actions)[..2], ["progress 100", "result ok"]);
                return stages;
            }
            Next::GiveUp(error) => panic!("{}", error),
        }
    }
}

#[test]
fn stages_in_order() {
    assert_eq!(
        course(false),
        vec![
            Stage::OpenCache,
            Stage::MatchPackages,
            Stage::MarkInstall,
            Stage::Resolve,
            Stage::BuildClient,
            Stage::BuildTransaction,
            Stage::Commit,
        ]
    );
    let with_history = course(true);
    assert_eq!(with_history.len(), 9);
    assert_eq!(with_history[6], Stage::OpenHistory);
    assert_eq!(with_history[7], Stage::RecordHistory);
    assert_eq!(with_history[8], Stage::Commit);
}

#[test]
fn failure_before_commit_is_not_reported() {
    for stage in course(true) {
        if stage != Stage::Commit {
            match after_stage(stage, Err("broken".to_string()), true) {
                Next::GiveUp(error) => assert_eq!(error, "broken"),
                next => panic!("{:?}", next),
            }
        }
    }
}

#[test]
fn failed_commit_is_reported() {
    match after_stage(Stage::Commit, Err("no space".to_string()), false) {
        Next::Report { actions } => {
            assert_eq!(texts(&actions), ["progress 100", "result no space"]);
        }
        next => panic!("{:?}", next),
    }
}

#[test]
fn history_is_updated_after_the_result() {
    match after_stage(Stage::Commit, Ok(()), true) {
        Next::Report { actions } => {
            assert_eq!(texts(&actions), ["progress 100", "result ok", "history true"]);
        }
        next => panic!("{:?}", next),
    }
    match after_stage(Stage::Commit, Err("no space".to_string()), true) {
        Next::Report { actions } => {
            assert_eq!(texts(&actions), ["progress 100", "result no space", "history false"]);
        }
        next => panic!("{:?}", next),
    }
}

#[test]
fn history_failure_leaves_outcome() {
    for commit in [Ok(()), Err("no space".to_string())] {
        let ending = finish(commit.clone(), &Err("locked".to_string()));
        assert_eq!(ending.outcome, commit);
        assert_eq!(ending.log.unwrap().text, "Failed to update install history: locked");
        let ending = finish(commit.clone(), &Ok(()));
        assert_eq!(ending.outcome, commit);
        assert!(ending.log.is_none());
    }
}

#[test]
fn history_failure_is_logged() {
    assert!(history_log(&Ok(())).is_none());
    assert_eq!(
        history_log(&Err("locked".to_string())).unwrap().text,
        "Failed to update install history: locked"
    );
}
