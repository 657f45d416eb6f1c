use gfresh::git::{
    ahead_behind, checkout_branch, delete_stale_branches, detect_main_branch, ensure_git_repo,
    ensure_remote, git_output, git_status_dirty, local_branch_ref, origin_branch_ref,
    origin_default_branch, parse_branch_vv_line, parse_origin_head_ref,
    should_delete_stale_branch, tracking_is_gone, BranchVvLine, CheckoutStep, GitCommand,
    MainBranchStep, RefreshError,
};
use gfresh::text::IntErrorKind;

#[test]
fn parse_origin_head_main() {
    assert_eq!(
        parse_origin_head_ref("refs/remotes/origin/main\n"),
        Some("main".to_string())
    );
}

#[test]
fn parse_origin_head_invalid() {
    assert_eq!(parse_origin_head_ref(""), None);
    assert_eq!(parse_origin_head_ref("refs/heads/main\n"), None);
    assert_eq!(parse_origin_head_ref("refs/remotes/origin/\n"), None);
}

#[test]
fn parse_branch_vv_current() {
    let info = parse_branch_vv_line("* main 123abcd [origin/main] msg").unwrap();
    assert_eq!(
        info,
        BranchVvLine {
            name: "main".to_string(),
            is_current: true,
            is_gone: false,
        }
    );
}

#[test]
fn parse_branch_vv_gone() {
    let info = parse_branch_vv_line("  feature 123abcd [origin/feature: gone] msg").unwrap();
    assert_eq!(info.name, "feature");
    assert!(!info.is_current);
    assert!(info.is_gone);
}

#[test]
fn gone_detection_compat() {
    assert!(tracking_is_gone("[gone]"));
    assert!(tracking_is_gone("[origin/x: gone]"));
    assert!(!tracking_is_gone("[origin/x]"));
}

#[test]
fn should_delete_respects_main_and_current() {
    let base = BranchVvLine {
        name: "main".to_string(),
        is_current: false,
        is_gone: true,
    };
    assert!(!should_delete_stale_branch(&base, "main"));

    let current = BranchVvLine {
        name: "feat".to_string(),
        is_current: true,
        is_gone: true,
    };
    assert!(!should_delete_stale_branch(&current, "main"));

    let stale = BranchVvLine {
        name: "feat".to_string(),
        is_current: false,
        is_gone: true,
    };
    assert!(should_delete_stale_branch(&stale, "main"));
}

#[test]
fn origin_head_round_trip_and_trimming() {
    let r = origin_branch_ref("develop");
    assert_eq!(r, "refs/remotes/origin/develop");
    assert_eq!(parse_origin_head_ref(&format!("{r}\n")), Some("develop".to_string()));
    assert_eq!(parse_origin_head_ref("  refs/remotes/origin/feature/x \r\n"), Some("feature/x".to_string()));
    assert_eq!(parse_origin_head_ref("refs/remotes/origin/ \n"), None);
    assert_eq!(local_branch_ref("main"), "refs/heads/main");
}

#[test]
fn origin_default_branch_needs_success() {
    assert_eq!(origin_default_branch(false, "refs/remotes/origin/main\n"), None);
    assert_eq!(origin_default_branch(true, "refs/remotes/origin/main\n"), Some("main".to_string()));
}

#[test]
fn branch_vv_edge_cases() {
    assert_eq!(parse_branch_vv_line(""), None);
    assert_eq!(parse_branch_vv_line("   \t "), None);
    assert_eq!(parse_branch_vv_line("*"), None);
    assert_eq!(parse_branch_vv_line("  * "), None);
    let solo = parse_branch_vv_line("topic").unwrap();
    assert_eq!(solo, BranchVvLine { name: "topic".to_string(), is_current: false, is_gone: false });
    let plain = parse_branch_vv_line("  old 1234567 [gone] fix").unwrap();
    assert!(plain.is_gone);
}

#[test]
fn stale_branches_from_branch_vv() {
    let out = "* main 1111111 [origin/main] top\n  feat 2222222 [origin/feat: gone] a\n  keep 3333333 [origin/keep] b\n  main2 4444444 [gone] c\n\n";
    assert_eq!(delete_stale_branches(out, "main"), vec!["feat".to_string(), "main2".to_string()]);
    let out2 = "  main 1111111 [origin/main: gone] x\n* feat 2222222 [origin/feat: gone] y\n";
    assert!(delete_stale_branches(out2, "main").is_empty());
    assert!(delete_stale_branches("", "main").is_empty());
}

#[test]
fn status_lines_and_dirtiness() {
    let (dirty, lines) = git_status_dirty(" M src/lib.rs\n?? new.txt\n  \n");
    assert!(dirty);
    assert_eq!(lines, vec![" M src/lib.rs".to_string(), "?? new.txt".to_string()]);
    let (clean, none) = git_status_dirty("");
    assert!(!clean);
    assert!(none.is_empty());
    let (blank, none2) = git_status_dirty("\n \r\n\t\n");
    assert!(!blank);
    assert!(none2.is_empty());
}

#[test]
fn counts_from_rev_list() {
    assert_eq!(ahead_behind("3\t5").unwrap(), (3, 5));
    assert_eq!(ahead_behind("0\t0\n").unwrap(), (0, 0));
    assert_eq!(ahead_behind("  +7   8 extra").unwrap(), (7, 8));
    assert_eq!(ahead_behind("4294967295\t1").unwrap(), (4294967295, 1));
}

#[test]
fn count_errors() {
    match ahead_behind("") {
        Err(RefreshError::UnexpectedRevList { output }) => assert_eq!(output, ""),
        other => panic!("{other:?}"),
    }
    match ahead_behind("12") {
        Err(RefreshError::UnexpectedRevList { output }) => assert_eq!(output, "12"),
        other => panic!("{other:?}"),
    }
    match ahead_behind("x 1") {
        Err(RefreshError::AheadCount { kind }) => assert_eq!(kind, IntErrorKind::InvalidDigit),
        other => panic!("{other:?}"),
    }
    match ahead_behind("x") {
        Err(RefreshError::AheadCount { kind }) => assert_eq!(kind, IntErrorKind::InvalidDigit),
        other => panic!("{other:?}"),
    }
    match ahead_behind("1 4294967296") {
        Err(RefreshError::BehindCount { kind }) => assert_eq!(kind, IntErrorKind::PosOverflow),
        other => panic!("{other:?}"),
    }
    let e = ahead_behind("1 -2").unwrap_err();
    assert_eq!(e.message(), "failed parsing behind count: invalid digit found in string");
}

#[test]
fn main_branch_search_steps() {
    let found = detect_main_branch(&Some("trunk".to_string()), &[]).unwrap();
    assert!(matches!(found, MainBranchStep::Found(ref b) if b == "trunk"));
    let expected = [
        "refs/heads/main",
        "refs/remotes/origin/main",
        "refs/heads/develop",
        "refs/remotes/origin/develop",
        "refs/heads/master",
        "refs/remotes/origin/master",
    ];
    let mut probes: Vec<bool> = Vec::new();
    for r in expected {
        match detect_main_branch(&None, &probes).unwrap() {
            MainBranchStep::Probe(p) => assert_eq!(p, r),
            MainBranchStep::Found(b) => panic!("found {b} too early"),
        }
        probes.push(false);
    }
    assert!(matches!(detect_main_branch(&None, &probes), Err(RefreshError::NoMainBranch)));
    let step = detect_main_branch(&None, &[false, false, false, true]).unwrap();
    assert!(matches!(step, MainBranchStep::Found(ref b) if b == "develop"));
    let step = detect_main_branch(&None, &[true]).unwrap();
    assert!(matches!(step, MainBranchStep::Found(ref b) if b == "main"));
    let step = detect_main_branch(&None, &[false, false, false, false, true]).unwrap();
    assert!(matches!(step, MainBranchStep::Found(ref b) if b == "master"));
}

#[test]
fn checkout_steps() {
    match checkout_branch("dev", &[]).unwrap() {
        CheckoutStep::Probe(r) => assert_eq!(r, "refs/heads/dev"),
        _ => panic!(),
    }
    match checkout_branch("dev", &[true]).unwrap() {
        CheckoutStep::Run(c) => assert_eq!(c.args(), vec!["checkout".to_string(), "dev".to_string()]),
        _ => panic!(),
    }
    match checkout_branch("dev", &[false]).unwrap() {
        CheckoutStep::Probe(r) => assert_eq!(r, "refs/remotes/origin/dev"),
        _ => panic!(),
    }
    match checkout_branch("dev", &[false, true]).unwrap() {
        CheckoutStep::Run(c) => assert_eq!(c.display(), "checkout -t origin/dev"),
        _ => panic!(),
    }
    let e = checkout_branch("dev", &[false, false]).err().unwrap();
    assert_eq!(e.message(), "branch 'dev' not found locally or on origin");
}

#[test]
fn command_lines() {
    assert_eq!(GitCommand::Log(3).display(), "log --graph --decorate --oneline -n3");
    assert_eq!(GitCommand::Log(120).display(), "log --graph --decorate --oneline -n120");
    assert_eq!(
        GitCommand::RevListCount("HEAD".to_string(), "origin/main".to_string()).display(),
        "rev-list --left-right --count HEAD...origin/main"
    );
    assert_eq!(GitCommand::StatusPorcelain.display(), "status --porcelain");
    assert_eq!(GitCommand::OriginHead.display(), "symbolic-ref --quiet refs/remotes/origin/HEAD");
    assert_eq!(GitCommand::ResetHard.args().len(), 3);
    assert_eq!(GitCommand::DeleteBranch("x".to_string()).display(), "branch -D x");
    assert_eq!(GitCommand::FetchPrune.display(), "fetch --prune origin");
}

#[test]
fn command_results() {
    assert_eq!(git_output(&GitCommand::CurrentBranch, true, "main\n\n", "").unwrap(), "main");
    let e = git_output(&GitCommand::StatusPorcelain, false, "", "  fatal: nope \n").unwrap_err();
    assert_eq!(e.message(), "git status --porcelain failed: fatal: nope");
}

#[test]
fn repository_and_remote_checks() {
    assert!(ensure_git_repo(true, "true\n").is_ok());
    assert!(matches!(ensure_git_repo(true, "false\n"), Err(RefreshError::NotAWorkTree)));
    assert!(matches!(ensure_git_repo(false, "true\n"), Err(RefreshError::NotAWorkTree)));
    assert_eq!(
        ensure_git_repo(false, "").unwrap_err().message(),
        "not inside a git work tree (run gfresh from within a repository)"
    );
    assert!(ensure_remote("origin", true).is_ok());
    assert_eq!(
        ensure_remote("origin", false).unwrap_err().message(),
        "no remote named 'origin' is configured"
    );
}

#[test]
fn error_messages() {
    assert_eq!(
        RefreshError::RemoteBranchMissing { name: "main".to_string() }.message(),
        "remote branch 'origin/main' not found after fetch"
    );
    assert_eq!(RefreshError::DirtyWorkTree.message(), "Aborting to avoid losing local changes");
    assert_eq!(
        RefreshError::NoMainBranch.message(),
        "Could not find a main branch (tried main/develop/master)"
    );
    assert_eq!(
        RefreshError::UnexpectedRevList { output: "zz".to_string() }.message(),
        "unexpected rev-list output: zz"
    );
    assert_eq!(
        RefreshError::AheadCount { kind: IntErrorKind::Empty }.message(),
        "failed parsing ahead count: cannot parse integer from empty string"
    );
}
