use gfresh::flow::{ensure_on_branch, Action, BranchSwitch, Event, Refresh, Stage};

fn name(a: &Action) -> String {
    match a {
        Action::CheckRepository => "check-repo".into(),
        Action::CheckRemote(r) => format!("check-remote {r}"),
        Action::ReadStatus => "status".into(),
        Action::ResetHard => "reset".into(),
        Action::DetectMainBranch => "detect".into(),
        Action::EnsureOnBranch(b) => format!("ensure {b}"),
        Action::CountAheadBehind { remote_ref, required } => format!("count {remote_ref} {required}"),
        Action::Fetch => "fetch".into(),
        Action::ConfirmRemoteBranch(b) => format!("confirm {b}"),
        Action::Rebase(r) => format!("rebase {r}"),
        Action::SkipRebase => "skip-rebase".into(),
        Action::CleanStaleBranches(b) => format!("clean {b}"),
        Action::ShowRecentCommits(n) => format!("recent {n}"),
        Action::Fail(e) => format!("fail {}", e.message()),
        Action::Finish => "finish".into(),
        Action::Halt => "halt".into(),
    }
}

fn drive(force: bool, events: Vec<Event>) -> (Stage, Vec<String>) {
    let (mut s, first) = Refresh::start(force);
    let mut seen = vec![name(&first)];
    for e in events {
        let (t, a) = s.step(e);
        seen.push(name(&a));
        s = t;
    }
    (s.stage, seen)
}

#[test]
fn clean_tree_refresh() {
    let (stage, seen) = drive(false, vec![
        Event::Done,
        Event::Done,
        Event::Status { dirty: false },
        Event::MainBranch("main".to_string()),
        Event::Done,
        Event::Done,
        Event::Done,
        Event::RemoteBranch { exists: true },
        Event::Counts { ahead: 0, behind: 2 },
        Event::Done,
        Event::Counts { ahead: 0, behind: 0 },
        Event::Done,
        Event::Done,
    ]);
    assert_eq!(stage, Stage::Finished);
    assert_eq!(seen, vec![
        "check-repo", "check-remote origin", "status", "detect", "ensure main",
        "count origin/main false", "fetch", "confirm main", "count origin/main true",
        "rebase origin/main", "count origin/main true", "clean main", "recent 3", "finish",
    ]);
}

#[test]
fn up_to_date_skips_rebase() {
    let (_, seen) = drive(false, vec![
        Event::Done,
        Event::Done,
        Event::Status { dirty: false },
        Event::MainBranch("develop".to_string()),
        Event::Done,
        Event::Counts { ahead: 1, behind: 1 },
        Event::Done,
        Event::RemoteBranch { exists: true },
        Event::Counts { ahead: 4, behind: 0 },
    ]);
    assert_eq!(seen.last().unwrap(), "skip-rebase");
}

#[test]
fn dirty_tree_without_force_aborts() {
    let (stage, seen) = drive(false, vec![Event::Done, Event::Done, Event::Status { dirty: true }, Event::Done]);
    assert_eq!(stage, Stage::Failed);
    assert_eq!(seen[3], "fail Aborting to avoid losing local changes");
    assert_eq!(seen[4], "halt");
}

#[test]
fn dirty_tree_with_force_resets() {
    let (stage, seen) = drive(true, vec![Event::Done, Event::Done, Event::Status { dirty: true }, Event::Done]);
    assert_eq!(stage, Stage::AwaitMain);
    assert_eq!(seen[3], "reset");
    assert_eq!(seen[4], "detect");
}

#[test]
fn missing_remote_branch_fails() {
    let (stage, seen) = drive(false, vec![
        Event::Done,
        Event::Done,
        Event::Status { dirty: false },
        Event::MainBranch("main".to_string()),
        Event::Done,
        Event::Done,
        Event::Done,
        Event::RemoteBranch { exists: false },
    ]);
    assert_eq!(stage, Stage::Failed);
    assert_eq!(seen.last().unwrap(), "fail remote branch 'origin/main' not found after fetch");
}

#[test]
fn unexpected_events_repeat_the_request() {
    let (stage, seen) = drive(false, vec![Event::Status { dirty: true }, Event::Counts { ahead: 1, behind: 1 }]);
    assert_eq!(stage, Stage::AwaitRepo);
    assert_eq!(seen, vec!["check-repo", "check-repo", "check-repo"]);
}

#[test]
fn branch_switch_decision() {
    assert_eq!(ensure_on_branch("HEAD", "main"), BranchSwitch::LeaveDetached);
    assert_eq!(ensure_on_branch("feature", "main"), BranchSwitch::Switch);
    assert_eq!(ensure_on_branch("main", "main"), BranchSwitch::Stay);
    assert_eq!(ensure_on_branch("HEAD", "HEAD"), BranchSwitch::LeaveDetached);
}
