//! The git side of a refresh: the commands it runs, and what it makes of
//! their output.
use vstd::prelude::*;
use vstd::string::*;
use crate::text::{
    IntErrorKind, append_str, concat_strs, is_blank, is_ws, lemma_decimal_no_ws, lemma_parse_decimal,
    lemma_trim_end_blank_tail, lemma_word_len_run, lemma_words_are_words, lemma_words_single, concat3_strs, contains, contains_str, decimal, lemma_trim_start,
    lemma_words_head, lemma_words_trim_start, lemma_contains_trim_start, parse_u32, parse_u32_spec, split_whitespace, trim_start, trim_start_str, words, join_spaced, join_spaced_strings, lines,
    lines_of, push_decimal, starts_with, str_eq, strip_prefix, trim, trim_end, trim_end_str, trim_str,
};

verus! {

broadcast use vstd::string::group_string_axioms;

// ---------------------------------------------------------------------------
// Errors
// ---------------------------------------------------------------------------

/// Why a refresh stops.
#[derive(Debug)]
pub enum RefreshError {
    /// A git command exited unsuccessfully (`command` is its arguments joined
    /// by spaces, `stderr` its trimmed error output).
    CommandFailed { command: String, stderr: String },
    /// The current directory is not inside a git work tree.
    NotAWorkTree,
    /// No remote of that name is configured.
    NoRemote { remote: String },
    /// None of the main branch candidates exists.
    NoMainBranch,
    /// The branch exists neither locally nor on origin.
    BranchNotFound { name: String },
    /// `git rev-list --count` printed fewer than two words.
    UnexpectedRevList { output: String },
    /// The ahead count is not a `u32`.
    AheadCount { kind: IntErrorKind },
    /// The behind count is not a `u32`.
    BehindCount { kind: IntErrorKind },
    /// The work tree has local changes and no `--force` was given.
    DirtyWorkTree,
    /// The main branch is missing on origin after fetching.
    RemoteBranchMissing { name: String },
}

/// Text of std's `ParseIntError` for each kind.
pub open spec fn int_error_text(k: IntErrorKind) -> Seq<char> {
    match k {
        IntErrorKind::Empty => "cannot parse integer from empty string"@,
        IntErrorKind::InvalidDigit => "invalid digit found in string"@,
        IntErrorKind::PosOverflow => "number too large to fit in target type"@,
    }
}

impl RefreshError {
    /// The message that reports this error, with its cause where it has one.
    pub open spec fn message_spec(&self) -> Seq<char> {
        match self {
            RefreshError::CommandFailed { command, stderr } => "git "@ + command@ + " failed: "@
                + stderr@,
            RefreshError::NotAWorkTree => "not inside a git work tree (run gfresh from within a repository)"@,
            RefreshError::NoRemote { remote } => "no remote named '"@ + remote@ + "' is configured"@,
            RefreshError::NoMainBranch => "Could not find a main branch (tried main/develop/master)"@,
            RefreshError::BranchNotFound { name } => "branch '"@ + name@
                + "' not found locally or on origin"@,
            RefreshError::UnexpectedRevList { output } => "unexpected rev-list output: "@
                + output@,
            RefreshError::AheadCount { kind } => "failed parsing ahead count: "@ + int_error_text(
                *kind,
            ),
            RefreshError::BehindCount { kind } => "failed parsing behind count: "@
                + int_error_text(*kind),
            RefreshError::DirtyWorkTree => "Aborting to avoid losing local changes"@,
            RefreshError::RemoteBranchMissing { name } => "remote branch 'origin/"@ + name@
                + "' not found after fetch"@,
        }
    }

    /// The message that reports this error.
    pub fn message(&self) -> (m: String)
        ensures
            m@ == self.message_spec(),
    {
        match self {
            RefreshError::CommandFailed { command, stderr } => {
                let mut m = concat3_strs("git ", command.as_str(), " failed: ");
                append_str(&mut m, stderr.as_str());
                m
            },
            RefreshError::NotAWorkTree => String::from_str(
                "not inside a git work tree (run gfresh from within a repository)",
            ),
            RefreshError::NoRemote { remote } => concat3_strs(
                "no remote named '",
                remote.as_str(),
                "' is configured",
            ),
            RefreshError::NoMainBranch => String::from_str(
                "Could not find a main branch (tried main/develop/master)",
            ),
            RefreshError::BranchNotFound { name } => concat3_strs(
                "branch '",
                name.as_str(),
                "' not found locally or on origin",
            ),
            RefreshError::UnexpectedRevList { output } => concat_strs(
                "unexpected rev-list output: ",
                output.as_str(),
            ),
            RefreshError::AheadCount { kind } => concat_strs(
                "failed parsing ahead count: ",
                int_error_str(*kind),
            ),
            RefreshError::BehindCount { kind } => concat_strs(
                "failed parsing behind count: ",
                int_error_str(*kind),
            ),
            RefreshError::DirtyWorkTree => String::from_str(
                "Aborting to avoid losing local changes",
            ),
            RefreshError::RemoteBranchMissing { name } => concat3_strs(
                "remote branch 'origin/",
                name.as_str(),
                "' not found after fetch",
            ),
        }
    }
}

/// Text of std's `ParseIntError` for each kind.
pub fn int_error_str(k: IntErrorKind) -> (s: &'static str)
    ensures
        s@ == int_error_text(k),
{
    match k {
        IntErrorKind::Empty => "cannot parse integer from empty string",
        IntErrorKind::InvalidDigit => "invalid digit found in string",
        IntErrorKind::PosOverflow => "number too large to fit in target type",
    }
}


// ---------------------------------------------------------------------------
// Commands
// ---------------------------------------------------------------------------

/// A git invocation that a refresh makes.
#[derive(Debug)]
pub enum GitCommand {
    /// `rev-parse --is-inside-work-tree`
    IsInsideWorkTree,
    /// `remote get-url <remote>`
    RemoteGetUrl(String),
    /// `status --porcelain`
    StatusPorcelain,
    /// `reset --hard HEAD`
    ResetHard,
    /// `symbolic-ref --quiet refs/remotes/origin/HEAD`
    OriginHead,
    /// `rev-parse --verify --quiet <ref>`
    VerifyRef(String),
    /// `symbolic-ref --short HEAD`
    CurrentBranch,
    /// `checkout <branch>`
    Checkout(String),
    /// `checkout -t origin/<branch>`
    CheckoutTracking(String),
    /// `rev-list --left-right --count <local>...<remote>`
    RevListCount(String, String),
    /// `fetch --prune origin`
    FetchPrune,
    /// `rebase <upstream>`
    Rebase(String),
    /// `branch -vv --no-color`
    BranchVerbose,
    /// `branch -D <branch>`
    DeleteBranch(String),
    /// `log --graph --decorate --oneline -n<count>`
    Log(usize),
}

/// The full name of a local branch.
pub open spec fn local_ref_spec(name: Seq<char>) -> Seq<char> {
    "refs/heads/"@ + name
}

/// The full name of a branch of origin.
pub open spec fn origin_ref_spec(name: Seq<char>) -> Seq<char> {
    "refs/remotes/origin/"@ + name
}

impl GitCommand {
    /// The arguments given to `git`.
    pub open spec fn args_spec(&self) -> Seq<Seq<char>> {
        match self {
            GitCommand::IsInsideWorkTree => seq!["rev-parse"@, "--is-inside-work-tree"@],
            GitCommand::RemoteGetUrl(remote) => seq!["remote"@, "get-url"@, remote@],
            GitCommand::StatusPorcelain => seq!["status"@, "--porcelain"@],
            GitCommand::ResetHard => seq!["reset"@, "--hard"@, "HEAD"@],
            GitCommand::OriginHead => seq!["symbolic-ref"@, "--quiet"@, "refs/remotes/origin/HEAD"@],
            GitCommand::VerifyRef(r) => seq!["rev-parse"@, "--verify"@, "--quiet"@, r@],
            GitCommand::CurrentBranch => seq!["symbolic-ref"@, "--short"@, "HEAD"@],
            GitCommand::Checkout(b) => seq!["checkout"@, b@],
            GitCommand::CheckoutTracking(b) => seq!["checkout"@, "-t"@, "origin/"@ + b@],
            GitCommand::RevListCount(l, r) => seq![
                "rev-list"@,
                "--left-right"@,
                "--count"@,
                l@ + "..."@ + r@,
            ],
            GitCommand::FetchPrune => seq!["fetch"@, "--prune"@, "origin"@],
            GitCommand::Rebase(u) => seq!["rebase"@, u@],
            GitCommand::BranchVerbose => seq!["branch"@, "-vv"@, "--no-color"@],
            GitCommand::DeleteBranch(b) => seq!["branch"@, "-D"@, b@],
            GitCommand::Log(n) => seq![
                "log"@,
                "--graph"@,
                "--decorate"@,
                "--oneline"@,
                "-n"@ + decimal(*n as nat),
            ],
        }
    }

    /// The arguments given to `git`.
    pub fn args(&self) -> (a: Vec<String>)
        ensures
            a.deep_view() == self.args_spec(),
    {
        let mut a: Vec<String> = Vec::new();
        match self {
            GitCommand::IsInsideWorkTree => {
                a.push(String::from_str("rev-parse"));
                a.push(String::from_str("--is-inside-work-tree"));
            },
            GitCommand::RemoteGetUrl(remote) => {
                a.push(String::from_str("remote"));
                a.push(String::from_str("get-url"));
                a.push(remote.clone());
            },
            GitCommand::StatusPorcelain => {
                a.push(String::from_str("status"));
                a.push(String::from_str("--porcelain"));
            },
            GitCommand::ResetHard => {
                a.push(String::from_str("reset"));
                a.push(String::from_str("--hard"));
                a.push(String::from_str("HEAD"));
            },
            GitCommand::OriginHead => {
                a.push(String::from_str("symbolic-ref"));
                a.push(String::from_str("--quiet"));
                a.push(String::from_str("refs/remotes/origin/HEAD"));
            },
            GitCommand::VerifyRef(r) => {
                a.push(String::from_str("rev-parse"));
                a.push(String::from_str("--verify"));
                a.push(String::from_str("--quiet"));
                a.push(r.clone());
            },
            GitCommand::CurrentBranch => {
                a.push(String::from_str("symbolic-ref"));
                a.push(String::from_str("--short"));
                a.push(String::from_str("HEAD"));
            },
            GitCommand::Checkout(b) => {
                a.push(String::from_str("checkout"));
                a.push(b.clone());
            },
            GitCommand::CheckoutTracking(b) => {
                a.push(String::from_str("checkout"));
                a.push(String::from_str("-t"));
                a.push(concat_strs("origin/", b.as_str()));
            },
            GitCommand::RevListCount(l, r) => {
                a.push(String::from_str("rev-list"));
                a.push(String::from_str("--left-right"));
                a.push(String::from_str("--count"));
                a.push(concat3_strs(l.as_str(), "...", r.as_str()));
            },
            GitCommand::FetchPrune => {
                a.push(String::from_str("fetch"));
                a.push(String::from_str("--prune"));
                a.push(String::from_str("origin"));
            },
            GitCommand::Rebase(u) => {
                a.push(String::from_str("rebase"));
                a.push(u.clone());
            },
            GitCommand::BranchVerbose => {
                a.push(String::from_str("branch"));
                a.push(String::from_str("-vv"));
                a.push(String::from_str("--no-color"));
            },
            GitCommand::DeleteBranch(b) => {
                a.push(String::from_str("branch"));
                a.push(String::from_str("-D"));
                a.push(b.clone());
            },
            GitCommand::Log(n) => {
                a.push(String::from_str("log"));
                a.push(String::from_str("--graph"));
                a.push(String::from_str("--decorate"));
                a.push(String::from_str("--oneline"));
                let mut c = String::from_str("-n");
                push_decimal(&mut c, *n as u64);
                a.push(c);
            },
        }
        assert(a.deep_view() =~= self.args_spec());
        a
    }
}


impl GitCommand {
    /// The arguments joined by spaces, as error messages show the command.
    pub fn display(&self) -> (d: String)
        ensures
            d@ == join_spaced(self.args_spec()),
    {
        join_spaced_strings(&self.args())
    }
}

// ---------------------------------------------------------------------------
// Interpreting command results
// ---------------------------------------------------------------------------

/// What a finished `git` process yields: its output without trailing
/// whitespace when it succeeded, else an error naming the command and its
/// trimmed error output.
pub fn git_output(command: &GitCommand, success: bool, stdout: &str, stderr: &str) -> (r: Result<
    String,
    RefreshError,
>)
    ensures
        success ==> (r matches Ok(out) && out@ == trim_end(stdout@)),
        !success ==> (r matches Err(RefreshError::CommandFailed { command: c, stderr: e }) && c@
            == join_spaced(command.args_spec()) && e@ == trim(stderr@)),
{
    if success {
        Ok(trim_end_str(stdout))
    } else {
        Err(RefreshError::CommandFailed { command: command.display(), stderr: trim_str(stderr) })
    }
}

/// Whether `git rev-parse --is-inside-work-tree` says that we are in a work
/// tree: it must succeed and print `true`.
pub fn ensure_git_repo(success: bool, stdout: &str) -> (r: Result<(), RefreshError>)
    ensures
        r is Ok <==> success && trim(stdout@) == "true"@,
        r matches Err(e) ==> e is NotAWorkTree,
{
    if !success {
        return Err(RefreshError::NotAWorkTree);
    }
    let t = trim_str(stdout);
    if !str_eq(t.as_str(), "true") {
        return Err(RefreshError::NotAWorkTree);
    }
    Ok(())
}

/// Whether `git remote get-url <remote>` found the remote.
pub fn ensure_remote(remote: &str, success: bool) -> (r: Result<(), RefreshError>)
    ensures
        r is Ok <==> success,
        r matches Err(RefreshError::NoRemote { remote: n }) ==> n@ == remote@,
        r matches Err(e) ==> e is NoRemote,
{
    if success {
        Ok(())
    } else {
        Err(RefreshError::NoRemote { remote: String::from_str(remote) })
    }
}

/// The full name of the local branch `name`.
pub fn local_branch_ref(name: &str) -> (r: String)
    ensures
        r@ == local_ref_spec(name@),
{
    concat_strs("refs/heads/", name)
}

/// The full name of the branch `name` of origin.
pub fn origin_branch_ref(name: &str) -> (r: String)
    ensures
        r@ == origin_ref_spec(name@),
{
    concat_strs("refs/remotes/origin/", name)
}

/// The branch that `git symbolic-ref refs/remotes/origin/HEAD` names, if its
/// trimmed output is a branch of origin with a non-empty name.
pub open spec fn origin_head_spec(stdout: Seq<char>) -> Option<Seq<char>> {
    let t = trim(stdout);
    let p = "refs/remotes/origin/"@;
    if starts_with(t, p) && t.len() > p.len() {
        Some(t.skip(p.len() as int))
    } else {
        None
    }
}

/// Reads the default branch of origin from `git symbolic-ref` output.
pub fn parse_origin_head_ref(stdout: &str) -> (r: Option<String>)
    ensures
        r.deep_view() == origin_head_spec(stdout@),
{
    let full_ref = trim_str(stdout);
    match strip_prefix(full_ref.as_str(), "refs/remotes/origin/") {
        Some(rest) => {
            if rest.as_str().is_empty() {
                None
            } else {
                Some(rest)
            }
        },
        None => None,
    }
}

/// The default branch of origin: none when the command failed.
pub fn origin_default_branch(success: bool, stdout: &str) -> (r: Option<String>)
    ensures
        r.deep_view() == (if success {
            origin_head_spec(stdout@)
        } else {
            None
        }),
{
    if !success {
        return None;
    }
    parse_origin_head_ref(stdout)
}

/// Whether a line of `git status --porcelain` says something.
pub open spec fn is_change_line(l: Seq<char>) -> bool {
    trim(l).len() > 0
}

/// The lines of `ls` that say something, in order.
pub open spec fn change_lines(ls: Seq<Seq<char>>) -> Seq<Seq<char>>
    decreases ls.len(),
{
    if ls.len() == 0 {
        seq![]
    } else if is_change_line(ls.last()) {
        change_lines(ls.drop_last()).push(ls.last())
    } else {
        change_lines(ls.drop_last())
    }
}

/// Reads `git status --porcelain` output: whether the tree is dirty, and the
/// lines that are not blank.
pub fn git_status_dirty(output: &str) -> (r: (bool, Vec<String>))
    ensures
        r.1.deep_view() == change_lines(lines(output@)),
        r.0 == (r.1.len() > 0),
{
    let all = lines_of(output);
    let mut kept: Vec<String> = Vec::new();
    let mut i: usize = 0;
    while i < all.len()
        invariant
            i <= all.len(),
            all.deep_view() == lines(output@),
            kept.deep_view() == change_lines(all.deep_view().take(i as int)),
        decreases all.len() - i,
    {
        let ghost before = kept.deep_view();
        assert(all.deep_view().take(i + 1).drop_last() =~= all.deep_view().take(i as int));
        assert(all.deep_view().take(i + 1).last() == all[i as int]@);
        let t = trim_str(all[i].as_str());
        if !t.as_str().is_empty() {
            kept.push(all[i].clone());
            assert(kept.deep_view() =~= before.push(all[i as int]@));
        }
        i += 1;
    }
    assert(all.deep_view().take(all.len() as int) =~= all.deep_view());
    let dirty = kept.len() > 0;
    (dirty, kept)
}


// ---------------------------------------------------------------------------
// `git branch -vv`
// ---------------------------------------------------------------------------

/// One line of `git branch -vv`, as far as stale-branch cleanup reads it.
#[derive(Debug, PartialEq, Eq)]
pub struct BranchVvLine {
    pub name: String,
    pub is_current: bool,
    pub is_gone: bool,
}

/// The meaning of a [`BranchVvLine`].
pub struct BranchInfo {
    pub name: Seq<char>,
    pub is_current: bool,
    pub is_gone: bool,
}

impl View for BranchVvLine {
    type V = BranchInfo;

    open spec fn view(&self) -> BranchInfo {
        BranchInfo { name: self.name@, is_current: self.is_current, is_gone: self.is_gone }
    }
}

/// The upstream of the branch on this line is gone.
pub open spec fn gone_spec(line: Seq<char>) -> bool {
    contains(line, ": gone]"@) || contains(line, "[gone]"@)
}

/// What a line of `git branch -vv` says: nothing for a blank line; else the
/// branch is the first word, or the second one when the first is the `*` that
/// marks the current branch.
pub open spec fn branch_line_spec(line: Seq<char>) -> Option<BranchInfo> {
    let t = trim_start(line);
    let ws = words(t);
    if t.len() == 0 {
        None
    } else if ws[0] == "*"@ {
        if ws.len() < 2 {
            None
        } else {
            Some(BranchInfo { name: ws[1], is_current: true, is_gone: gone_spec(t) })
        }
    } else {
        Some(BranchInfo { name: ws[0], is_current: false, is_gone: gone_spec(t) })
    }
}

/// A branch is deleted as stale when its upstream is gone, it is not checked
/// out, and it is not the main branch.
pub open spec fn should_delete_spec(info: BranchInfo, main: Seq<char>) -> bool {
    info.is_gone && !info.is_current && info.name != main
}

/// The branches, in order, that the lines `ls` of `git branch -vv` make stale.
pub open spec fn stale_branches_spec(ls: Seq<Seq<char>>, main: Seq<char>) -> Seq<Seq<char>>
    decreases ls.len(),
{
    if ls.len() == 0 {
        seq![]
    } else {
        let rest = stale_branches_spec(ls.drop_last(), main);
        match branch_line_spec(ls.last()) {
            Some(info) => if should_delete_spec(info, main) {
                rest.push(info.name)
            } else {
                rest
            },
            None => rest,
        }
    }
}

/// Whether a `git branch -vv` line says that the upstream is gone.
pub fn tracking_is_gone(line: &str) -> (b: bool)
    ensures
        b == gone_spec(line@),
{
    contains_str(line, ": gone]") || contains_str(line, "[gone]")
}

/// Reads one line of `git branch -vv`.
pub fn parse_branch_vv_line(line: &str) -> (r: Option<BranchVvLine>)
    ensures
        r is None <==> branch_line_spec(line@) is None,
        r matches Some(info) ==> branch_line_spec(line@) == Some(info@),
{
    let trimmed = trim_start_str(line);
    if trimmed.as_str().is_empty() {
        return None;
    }
    let parts = split_whitespace(trimmed.as_str());
    proof {
        lemma_trim_start(line@);
        lemma_words_head(trimmed@);
    }
    assert(parts.deep_view()[0] == parts[0]@);
    let is_gone = tracking_is_gone(trimmed.as_str());
    if str_eq(parts[0].as_str(), "*") {
        if parts.len() < 2 {
            return None;
        }
        assert(parts.deep_view()[1] == parts[1]@);
        Some(BranchVvLine { name: parts[1].clone(), is_current: true, is_gone })
    } else {
        Some(BranchVvLine { name: parts[0].clone(), is_current: false, is_gone })
    }
}

/// Whether stale-branch cleanup deletes the branch of this line.
pub fn should_delete_stale_branch(info: &BranchVvLine, main_branch: &str) -> (b: bool)
    ensures
        b == should_delete_spec(info@, main_branch@),
{
    info.is_gone && !info.is_current && !str_eq(info.name.as_str(), main_branch)
}

/// The branches, in order, that stale-branch cleanup deletes, read from the
/// output of `git branch -vv --no-color`.
pub fn delete_stale_branches(branch_vv_output: &str, main_branch: &str) -> (names: Vec<String>)
    ensures
        names.deep_view() == stale_branches_spec(lines(branch_vv_output@), main_branch@),
{
    let all = lines_of(branch_vv_output);
    let mut names: Vec<String> = Vec::new();
    let mut i: usize = 0;
    while i < all.len()
        invariant
            i <= all.len(),
            all.deep_view() == lines(branch_vv_output@),
            names.deep_view() == stale_branches_spec(
                all.deep_view().take(i as int),
                main_branch@,
            ),
        decreases all.len() - i,
    {
        let ghost before = names.deep_view();
        assert(all.deep_view().take(i + 1).drop_last() =~= all.deep_view().take(i as int));
        assert(all.deep_view().take(i + 1).last() == all[i as int]@);
        match parse_branch_vv_line(all[i].as_str()) {
            Some(info) => {
                if should_delete_stale_branch(&info, main_branch) {
                    let ghost n = info.name@;
                    names.push(info.name);
                    assert(names.deep_view() =~= before.push(n));
                }
            },
            None => {},
        }
        i += 1;
    }
    assert(all.deep_view().take(all.len() as int) =~= all.deep_view());
    names
}


// ---------------------------------------------------------------------------
// `git rev-list --left-right --count`
// ---------------------------------------------------------------------------

/// Reads how many commits the local side is ahead and behind from the output
/// of `git rev-list --left-right --count`: the first two words are the
/// counts; words after them are ignored.
pub fn ahead_behind(output: &str) -> (r: Result<(u32, u32), RefreshError>)
    ensures
        ({
            let ws = words(output@);
            match r {
                Ok((a, b)) => ws.len() >= 2 && parse_u32_spec(ws[0]) == Ok::<u32, IntErrorKind>(a)
                    && parse_u32_spec(ws[1]) == Ok::<u32, IntErrorKind>(b),
                Err(RefreshError::UnexpectedRevList { output: o }) => o@ == output@ && (ws.len()
                    == 0 || (ws.len() == 1 && parse_u32_spec(ws[0]) is Ok)),
                Err(RefreshError::AheadCount { kind }) => ws.len() >= 1 && parse_u32_spec(ws[0])
                    == Err::<u32, IntErrorKind>(kind),
                Err(RefreshError::BehindCount { kind }) => ws.len() >= 2 && parse_u32_spec(ws[0])
                    is Ok && parse_u32_spec(ws[1]) == Err::<u32, IntErrorKind>(kind),
                Err(_) => false,
            }
        }),
{
    let parts = split_whitespace(output);
    if parts.len() == 0 {
        return Err(RefreshError::UnexpectedRevList { output: String::from_str(output) });
    }
    assert(parts.deep_view()[0] == parts[0]@);
    let ahead = match parse_u32(parts[0].as_str()) {
        Ok(v) => v,
        Err(kind) => {
            return Err(RefreshError::AheadCount { kind });
        },
    };
    if parts.len() < 2 {
        return Err(RefreshError::UnexpectedRevList { output: String::from_str(output) });
    }
    assert(parts.deep_view()[1] == parts[1]@);
    let behind = match parse_u32(parts[1].as_str()) {
        Ok(v) => v,
        Err(kind) => {
            return Err(RefreshError::BehindCount { kind });
        },
    };
    Ok((ahead, behind))
}

// ---------------------------------------------------------------------------
// Finding the main branch
// ---------------------------------------------------------------------------

/// The branch names tried, in order, when origin names no default branch.
pub open spec fn candidate(i: int) -> Seq<char> {
    if i == 0 {
        "main"@
    } else if i == 1 {
        "develop"@
    } else {
        "master"@
    }
}

/// The ref probed at step `k` of the search: for each candidate in turn, the
/// local branch and then the branch of origin.
pub open spec fn probe_ref(k: int) -> Seq<char> {
    if k % 2 == 0 {
        local_ref_spec(candidate(k / 2))
    } else {
        origin_ref_spec(candidate(k / 2))
    }
}

/// Number of refs the search may probe.
pub open spec fn probe_count() -> int {
    6
}

/// Index of the first `true` in `p`, or `p.len()`.
pub open spec fn first_true(p: Seq<bool>) -> nat
    decreases p.len(),
{
    if p.len() == 0 || p[0] {
        0
    } else {
        1 + first_true(p.drop_first())
    }
}

/// What the search for the main branch does next.
pub enum MainBranchStep {
    /// The main branch is found.
    Found(String),
    /// Probe whether this ref exists, and call again with the answer added.
    Probe(String),
}

/// What the search for the main branch does next, given origin's default
/// branch and the answers of the probes made so far (only the first
/// `probe_count()` answers count).
pub open spec fn main_branch_step_spec(origin_default: Option<Seq<char>>, probes: Seq<bool>) -> Option<
    (bool, Seq<char>),
> {
    match origin_default {
        Some(b) => Some((true, b)),
        None => {
            let p = if probes.len() <= probe_count() {
                probes
            } else {
                probes.take(probe_count())
            };
            let k = first_true(p);
            if k < p.len() {
                Some((true, candidate(k as int / 2)))
            } else if p.len() < probe_count() {
                Some((false, probe_ref(p.len() as int)))
            } else {
                None
            }
        },
    }
}

/// The view of a step: whether it is `Found`, and its branch or ref.
pub open spec fn main_step_view(s: MainBranchStep) -> (bool, Seq<char>) {
    match s {
        MainBranchStep::Found(b) => (true, b@),
        MainBranchStep::Probe(r) => (false, r@),
    }
}

pub proof fn lemma_first_true(p: Seq<bool>)
    ensures
        first_true(p) <= p.len(),
        first_true(p) < p.len() ==> p[first_true(p) as int],
        forall|i: int| 0 <= i < first_true(p) ==> !#[trigger] p[i],
    decreases p.len(),
{
    if p.len() > 0 && !p[0] {
        lemma_first_true(p.drop_first());
        assert forall|i: int| 0 <= i < first_true(p) implies !#[trigger] p[i] by {
            if i > 0 {
                assert(p[i] == p.drop_first()[i - 1]);
            }
        }
    }
}

/// The candidate branch names.
fn candidate_name(i: usize) -> (s: &'static str)
    requires
        i < 3,
    ensures
        s@ == candidate(i as int),
{
    if i == 0 {
        "main"
    } else if i == 1 {
        "develop"
    } else {
        "master"
    }
}

/// The decision of the search for the main branch: origin's default branch
/// if it names one; else the first of `main`, `develop`, `master` that exists
/// locally or on origin, probing one ref at a time.
pub fn detect_main_branch(origin_default: &Option<String>, probes: &[bool]) -> (r: Result<
    MainBranchStep,
    RefreshError,
>)
    ensures
        match r {
            Ok(s) => main_branch_step_spec(origin_default.deep_view(), probes@) == Some(
                main_step_view(s),
            ),
            Err(e) => main_branch_step_spec(origin_default.deep_view(), probes@) is None
                && e is NoMainBranch,
        },
{
    match origin_default {
        Some(b) => {
            return Ok(MainBranchStep::Found(b.clone()));
        },
        None => {},
    }
    let n: usize = if probes.len() <= 6 {
        probes.len()
    } else {
        6
    };
    let ghost p = if probes@.len() <= 6 {
        probes@
    } else {
        probes@.take(6)
    };
    assert(p.len() == n);
    assert(forall|j: int| 0 <= j < n ==> p[j] == probes@[j]);
    proof {
        lemma_first_true(p);
    }
    let mut k: usize = 0;
    while k < n
        invariant
            k <= n <= probes.len(),
            origin_default.deep_view() is None,
            p == (if probes@.len() <= 6 {
                probes@
            } else {
                probes@.take(6)
            }),
            n == p.len(),
            n <= 6,
            forall|j: int| 0 <= j < n ==> p[j] == probes@[j],
            forall|j: int| 0 <= j < k ==> !p[j],
            first_true(p) <= p.len(),
            first_true(p) < p.len() ==> p[first_true(p) as int],
            forall|i: int| 0 <= i < first_true(p) ==> !#[trigger] p[i],
        decreases n - k,
    {
        if probes[k] {
            assert(p[k as int]);
            assert(first_true(p) == k) by {
                if first_true(p) < k {
                    assert(p[first_true(p) as int]);
                }
            }
            return Ok(MainBranchStep::Found(String::from_str(candidate_name(k / 2))));
        }
        k += 1;
    }
    assert(first_true(p) == n) by {
        if first_true(p) < n {
            assert(p[first_true(p) as int]);
        }
    }
    if n < 6 {
        let name = candidate_name(n / 2);
        let r = if n % 2 == 0 {
            local_branch_ref(name)
        } else {
            origin_branch_ref(name)
        };
        Ok(MainBranchStep::Probe(r))
    } else {
        Err(RefreshError::NoMainBranch)
    }
}

// ---------------------------------------------------------------------------
// Checking out a branch
// ---------------------------------------------------------------------------

/// What checking out a branch does next.
pub enum CheckoutStep {
    /// Probe whether this ref exists, and call again with the answer added.
    Probe(String),
    /// Run this command, which checks the branch out.
    Run(GitCommand),
}

/// The decision of `checkout_branch`: the local branch if it exists, else a
/// new local branch that tracks the one of origin if that exists, else an
/// error; `probes` holds the answers so far (local first, then origin).
pub fn checkout_branch(name: &str, probes: &[bool]) -> (r: Result<CheckoutStep, RefreshError>)
    ensures
        probes@.len() == 0 ==> (r matches Ok(CheckoutStep::Probe(x)) && x@ == local_ref_spec(
            name@,
        )),
        probes@.len() >= 1 && probes@[0] ==> (r matches Ok(CheckoutStep::Run(c)) && c
            matches GitCommand::Checkout(b) && b@ == name@),
        probes@.len() == 1 && !probes@[0] ==> (r matches Ok(CheckoutStep::Probe(x)) && x@
            == origin_ref_spec(name@)),
        probes@.len() >= 2 && !probes@[0] && probes@[1] ==> (r matches Ok(CheckoutStep::Run(c))
            && c matches GitCommand::CheckoutTracking(b) && b@ == name@),
        probes@.len() >= 2 && !probes@[0] && !probes@[1] ==> (r matches Err(
            RefreshError::BranchNotFound { name: n },
        ) && n@ == name@),
{
    if probes.len() == 0 {
        return Ok(CheckoutStep::Probe(local_branch_ref(name)));
    }
    if probes[0] {
        return Ok(CheckoutStep::Run(GitCommand::Checkout(String::from_str(name))));
    }
    if probes.len() == 1 {
        return Ok(CheckoutStep::Probe(origin_branch_ref(name)));
    }
    if probes[1] {
        return Ok(CheckoutStep::Run(GitCommand::CheckoutTracking(String::from_str(name))));
    }
    Err(RefreshError::BranchNotFound { name: String::from_str(name) })
}


// ---------------------------------------------------------------------------
// Laws
// ---------------------------------------------------------------------------

/// Reading back what `git symbolic-ref` prints for a branch of origin gives
/// that branch: for any branch name that does not end in whitespace, and any
/// blank tail (such as the final newline).
pub proof fn law_origin_head_roundtrip(name: Seq<char>, tail: Seq<char>)
    requires
        name.len() > 0,
        !is_ws(name.last()),
        is_blank(tail),
    ensures
        origin_head_spec(origin_ref_spec(name) + tail) == Some(name),
{
    reveal_strlit("refs/remotes/origin/");
    let p = "refs/remotes/origin/"@;
    let x = p + name;
    assert(x.last() == name.last());
    lemma_trim_end_blank_tail(x, tail);
    assert((x + tail)[0] == 'r');
    assert(trim_start(x + tail) == x + tail);
    assert(trim(x + tail) == x);
    assert(x.take(p.len() as int) =~= p);
    assert(x.skip(p.len() as int) =~= name);
}

/// A branch read from a line of `git branch -vv` is a single non-empty word.
pub proof fn lemma_branch_name_is_word(line: Seq<char>)
    ensures
        branch_line_spec(line) matches Some(info) ==> info.name.len() > 0 && forall|j: int|
            0 <= j < info.name.len() ==> !is_ws(#[trigger] info.name[j]),
{
    let t = trim_start(line);
    lemma_words_are_words(t);
    if t.len() > 0 {
        lemma_trim_start(line);
        lemma_words_head(t);
        let ws = words(t);
        if ws[0] != "*"@ {
            assert(ws[0].len() > 0);
            assert(forall|j: int| 0 <= j < ws[0].len() ==> !is_ws(#[trigger] ws[0][j]));
        } else if ws.len() >= 2 {
            assert(ws[1].len() > 0);
            assert(forall|j: int| 0 <= j < ws[1].len() ==> !is_ws(#[trigger] ws[1][j]));
        }
    }
}

/// Stale-branch cleanup never deletes the main branch, and every branch it
/// deletes is a non-empty name without whitespace.
pub proof fn law_stale_branches_keep_main(ls: Seq<Seq<char>>, main: Seq<char>)
    ensures
        forall|i: int|
            0 <= i < stale_branches_spec(ls, main).len() ==> #[trigger] stale_branches_spec(
                ls,
                main,
            )[i] != main,
        forall|i: int|
            0 <= i < stale_branches_spec(ls, main).len() ==> (#[trigger] stale_branches_spec(
                ls,
                main,
            )[i]).len() > 0,
        forall|i: int, j: int|
            0 <= i < stale_branches_spec(ls, main).len() && 0 <= j < stale_branches_spec(
                ls,
                main,
            )[i].len() ==> !is_ws(#[trigger] stale_branches_spec(ls, main)[i][j]),
    decreases ls.len(),
{
    if ls.len() > 0 {
        law_stale_branches_keep_main(ls.drop_last(), main);
        lemma_branch_name_is_word(ls.last());
        let rest = stale_branches_spec(ls.drop_last(), main);
        let all = stale_branches_spec(ls, main);
        assert forall|i: int| 0 <= i < all.len() implies #[trigger] all[i] != main && all[i].len()
            > 0 && forall|j: int| 0 <= j < all[i].len() ==> !is_ws(#[trigger] all[i][j]) by {
            if i < rest.len() {
                assert(all[i] == rest[i]);
            }
        }
    }
}

/// Counts as `git rev-list --left-right --count` prints them (two decimal
/// numbers, a tab between, blank after) read back as those numbers.
pub proof fn law_counts_roundtrip(ahead: u32, behind: u32, tail: Seq<char>)
    requires
        is_blank(tail),
    ensures
        words(decimal(ahead as nat) + seq!['\t'] + decimal(behind as nat) + tail) == seq![
            decimal(ahead as nat),
            decimal(behind as nat),
        ],
        parse_u32_spec(decimal(ahead as nat)) == Ok::<u32, IntErrorKind>(ahead),
        parse_u32_spec(decimal(behind as nat)) == Ok::<u32, IntErrorKind>(behind),
{
    let d1 = decimal(ahead as nat);
    let d2 = decimal(behind as nat);
    lemma_decimal_no_ws(ahead as nat);
    lemma_decimal_no_ws(behind as nat);
    lemma_parse_decimal(ahead);
    lemma_parse_decimal(behind);
    let u = seq!['\t'] + d2 + tail;
    let s = d1 + seq!['\t'] + d2 + tail;
    assert(s =~= d1 + u);
    lemma_word_len_run(d1, u);
    assert(!is_ws(s[0]));
    assert(s.take(d1.len() as int) =~= d1);
    assert(s.skip(d1.len() as int) =~= u);
    assert(words(s) == seq![d1] + words(u));
    assert(u.drop_first() =~= d2 + tail);
    assert(words(u) == words(d2 + tail));
    lemma_words_single(d2, tail);
    assert(seq![d1] + seq![d2] =~= seq![d1, d2]);
}

/// The work tree is dirty exactly when some line of `git status --porcelain`
/// is not blank; the lines reported are exactly the non-blank lines, every one
/// of them, in their order.
pub proof fn law_status_dirty(ls: Seq<Seq<char>>)
    ensures
        change_lines(ls).len() > 0 <==> exists|i: int| 0 <= i < ls.len() && trim(#[trigger] ls[i]).len() > 0,
        forall|j: int| 0 <= j < change_lines(ls).len() ==> trim(#[trigger] change_lines(ls)[j]).len() > 0,
        forall|i: int| 0 <= i < ls.len() && trim(#[trigger] ls[i]).len() > 0 ==> change_lines(ls).contains(ls[i]),
        change_lines(ls) == ls.filter(|l: Seq<char>| trim(l).len() > 0),
    decreases ls.len(),
{
    reveal_with_fuel(Seq::<_>::filter, 1);
    if ls.len() > 0 {
        let init = ls.drop_last();
        law_status_dirty(init);
        let all = change_lines(ls);
        let rest = change_lines(init);
        assert forall|j: int| 0 <= j < all.len() implies trim(#[trigger] all[j]).len() > 0 by {
            if j < rest.len() {
                assert(all[j] == rest[j]);
            }
        }
        if exists|i: int| 0 <= i < init.len() && trim(#[trigger] init[i]).len() > 0 {
            let i = choose|i: int| 0 <= i < init.len() && trim(#[trigger] init[i]).len() > 0;
            assert(ls[i] == init[i]);
        }
        if exists|i: int| 0 <= i < ls.len() && trim(#[trigger] ls[i]).len() > 0 {
            let i = choose|i: int| 0 <= i < ls.len() && trim(#[trigger] ls[i]).len() > 0;
            if i < init.len() {
                assert(init[i] == ls[i]);
            }
        }
        assert forall|i: int| 0 <= i < ls.len() && trim(#[trigger] ls[i]).len() > 0 implies all.contains(ls[i]) by {
            if i < init.len() {
                assert(init[i] == ls[i]);
                assert(rest.contains(init[i]));
                let k = choose|k: int| 0 <= k < rest.len() && rest[k] == init[i];
                assert(all[k] == rest[k]);
            } else {
                assert(all[all.len() - 1] == ls.last());
            }
        }
    }
}

/// The answers of the first `n` probes of the search, where `has_ref` tells
/// which refs exist.
pub open spec fn probe_answers(has_ref: spec_fn(Seq<char>) -> bool, n: nat) -> Seq<bool> {
    Seq::new(n, |k: int| has_ref(probe_ref(k)))
}

/// When origin names no default branch, the search probes the refs in order
/// until one exists, and then names the candidate that ref belongs to; the
/// first of `main`, `develop`, `master` that exists locally or on origin wins,
/// the local branch probed first. When none exists it fails. A default branch
/// of origin wins over all probes.
pub proof fn law_main_branch_search(has_ref: spec_fn(Seq<char>) -> bool, n: nat)
    requires
        n <= probe_count(),
    ensures
        (forall|k: int| 0 <= k < n ==> !has_ref(#[trigger] probe_ref(k))) && n < probe_count()
            ==> main_branch_step_spec(None, probe_answers(has_ref, n)) == Some(
            (false, probe_ref(n as int)),
        ),
        n >= 1 && (forall|k: int| 0 <= k < n - 1 ==> !has_ref(#[trigger] probe_ref(k))) && has_ref(
            probe_ref(n - 1),
        ) ==> main_branch_step_spec(None, probe_answers(has_ref, n)) == Some(
            (true, candidate((n - 1) / 2)),
        ),
        (forall|k: int| 0 <= k < probe_count() ==> !has_ref(#[trigger] probe_ref(k))) && n
            == probe_count() ==> main_branch_step_spec(None, probe_answers(has_ref, n)) is None,
        forall|b: Seq<char>, p: Seq<bool>| main_branch_step_spec(Some(b), p) == Some((true, b)),
{
    let p = probe_answers(has_ref, n);
    lemma_first_true(p);
    if forall|k: int| 0 <= k < n ==> !has_ref(#[trigger] probe_ref(k)) {
        assert(first_true(p) == n) by {
            if first_true(p) < n {
                assert(p[first_true(p) as int] == has_ref(probe_ref(first_true(p) as int)));
            }
        }
    }
    if n >= 1 && (forall|k: int| 0 <= k < n - 1 ==> !has_ref(#[trigger] probe_ref(k))) && has_ref(
        probe_ref(n - 1),
    ) {
        assert(p[n - 1]);
        assert(first_true(p) == n - 1) by {
            if first_true(p) < n - 1 {
                assert(p[first_true(p) as int] == has_ref(probe_ref(first_true(p) as int)));
            }
        }
    }
}


/// How a line of `git branch -vv` whose first word is not the `*` of the
/// current branch is read: the branch is the first word, and its upstream is
/// gone exactly when the line says `: gone]` or `[gone]`; only such lines give
/// a branch that is not current.
pub proof fn lemma_branch_line_plain(line: Seq<char>)
    ensures
        words(line).len() > 0 && words(line)[0] != "*"@ ==> branch_line_spec(line) == Some(
            BranchInfo {
                name: words(line)[0],
                is_current: false,
                is_gone: contains(line, ": gone]"@) || contains(line, "[gone]"@),
            },
        ),
        branch_line_spec(line) matches Some(info) ==> (!info.is_current ==> words(line).len() > 0
            && words(line)[0] != "*"@ && info.name == words(line)[0]),
{
    reveal_strlit(": gone]");
    reveal_strlit("[gone]");
    let t = trim_start(line);
    lemma_words_trim_start(line);
    lemma_trim_start(line);
    lemma_contains_trim_start(line, ": gone]"@);
    lemma_contains_trim_start(line, "[gone]"@);
    if t.len() > 0 {
        lemma_words_head(t);
    }
}

/// Stale-branch cleanup deletes exactly the branches of the lines that say
/// their upstream is gone (`: gone]` or `[gone]`), that are not marked `*` as
/// the current branch, and whose branch is not the main branch: each branch it
/// deletes is the first word of such a line, and the first word of every such
/// line is deleted.
pub proof fn law_stale_branches_exact(ls: Seq<Seq<char>>, main: Seq<char>)
    ensures
        forall|i: int|
            0 <= i < stale_branches_spec(ls, main).len() ==> exists|j: int|
                0 <= j < ls.len() && (contains(#[trigger] ls[j], ": gone]"@) || contains(
                    ls[j],
                    "[gone]"@,
                )) && words(ls[j]).len() > 0 && words(ls[j])[0] != "*"@ && words(ls[j])[0]
                    == #[trigger] stale_branches_spec(ls, main)[i] && stale_branches_spec(ls, main)[i]
                    != main,
        forall|j: int|
            0 <= j < ls.len() && (contains(#[trigger] ls[j], ": gone]"@) || contains(
                ls[j],
                "[gone]"@,
            )) && words(ls[j]).len() > 0 && words(ls[j])[0] != "*"@ && words(ls[j])[0] != main
                ==> stale_branches_spec(ls, main).contains(words(ls[j])[0]),
    decreases ls.len(),
{
    if ls.len() > 0 {
        let init = ls.drop_last();
        law_stale_branches_exact(init, main);
        lemma_branch_line_plain(ls.last());
        let all = stale_branches_spec(ls, main);
        let rest = stale_branches_spec(init, main);
        assert forall|i: int| 0 <= i < all.len() implies exists|j: int|
            0 <= j < ls.len() && (contains(#[trigger] ls[j], ": gone]"@) || contains(
                ls[j],
                "[gone]"@,
            )) && words(ls[j]).len() > 0 && words(ls[j])[0] != "*"@ && words(ls[j])[0]
                == #[trigger] all[i] && all[i] != main by {
            if i < rest.len() {
                assert(all[i] == rest[i]);
                let j = choose|j: int|
                    0 <= j < init.len() && (contains(#[trigger] init[j], ": gone]"@) || contains(
                        init[j],
                        "[gone]"@,
                    )) && words(init[j]).len() > 0 && words(init[j])[0] != "*"@ && words(
                        init[j],
                    )[0] == rest[i] && rest[i] != main;
                assert(ls[j] == init[j]);
            } else {
                let j = ls.len() - 1;
                assert(ls[j] == ls.last());
                let info = branch_line_spec(ls.last()).unwrap();
                assert(branch_line_spec(ls.last()) is Some);
                assert(should_delete_spec(info, main));
                assert(all[i] == info.name);
                assert(words(ls[j]).len() > 0 && words(ls[j])[0] != "*"@);
                assert(info.is_gone == (contains(ls[j], ": gone]"@) || contains(ls[j], "[gone]"@)));
            }
        }
        assert forall|j: int|
            0 <= j < ls.len() && (contains(#[trigger] ls[j], ": gone]"@) || contains(
                ls[j],
                "[gone]"@,
            )) && words(ls[j]).len() > 0 && words(ls[j])[0] != "*"@ && words(ls[j])[0] != main
            implies all.contains(words(ls[j])[0]) by {
            if j < init.len() {
                assert(init[j] == ls[j]);
                let k = choose|k: int| 0 <= k < rest.len() && rest[k] == words(init[j])[0];
                assert(all[k] == rest[k]);
            } else {
                assert(ls[j] == ls.last());
                assert(all[all.len() - 1] == words(ls.last())[0]);
            }
        }
    }
}


/// The git invocations of a refresh, argument by argument, as the tool runs
/// them: among them `reset --hard HEAD` for a forced reset of a dirty tree,
/// `fetch --prune origin`, `branch -D <branch>` for stale branches, and
/// `log --graph --decorate --oneline -n<count>`.
pub proof fn law_command_lines(c: GitCommand)
    ensures
        c is IsInsideWorkTree ==> c.args_spec() == seq!["rev-parse"@, "--is-inside-work-tree"@],
        c matches GitCommand::RemoteGetUrl(r) ==> c.args_spec() == seq![
            "remote"@,
            "get-url"@,
            r@,
        ],
        c is StatusPorcelain ==> c.args_spec() == seq!["status"@, "--porcelain"@],
        c is ResetHard ==> c.args_spec() == seq!["reset"@, "--hard"@, "HEAD"@],
        c is OriginHead ==> c.args_spec() == seq![
            "symbolic-ref"@,
            "--quiet"@,
            "refs/remotes/origin/HEAD"@,
        ],
        c matches GitCommand::VerifyRef(r) ==> c.args_spec() == seq![
            "rev-parse"@,
            "--verify"@,
            "--quiet"@,
            r@,
        ],
        c is CurrentBranch ==> c.args_spec() == seq!["symbolic-ref"@, "--short"@, "HEAD"@],
        c matches GitCommand::Checkout(b) ==> c.args_spec() == seq!["checkout"@, b@],
        c matches GitCommand::CheckoutTracking(b) ==> c.args_spec() == seq![
            "checkout"@,
            "-t"@,
            "origin/"@ + b@,
        ],
        c matches GitCommand::RevListCount(l, r) ==> c.args_spec() == seq![
            "rev-list"@,
            "--left-right"@,
            "--count"@,
            l@ + "..."@ + r@,
        ],
        c is FetchPrune ==> c.args_spec() == seq!["fetch"@, "--prune"@, "origin"@],
        c matches GitCommand::Rebase(u) ==> c.args_spec() == seq!["rebase"@, u@],
        c is BranchVerbose ==> c.args_spec() == seq!["branch"@, "-vv"@, "--no-color"@],
        c matches GitCommand::DeleteBranch(b) ==> c.args_spec() == seq!["branch"@, "-D"@, b@],
        c matches GitCommand::Log(n) ==> c.args_spec() == seq![
            "log"@,
            "--graph"@,
            "--decorate"@,
            "--oneline"@,
            "-n"@ + decimal(n as nat),
        ],
{
}


/// The refs the search for the main branch probes, in order: `main`,
/// `develop`, `master`, each first as a local branch, then on origin.
pub proof fn law_probe_order()
    ensures
        probe_count() == 6,
        probe_ref(0) == "refs/heads/"@ + "main"@,
        probe_ref(1) == "refs/remotes/origin/"@ + "main"@,
        probe_ref(2) == "refs/heads/"@ + "develop"@,
        probe_ref(3) == "refs/remotes/origin/"@ + "develop"@,
        probe_ref(4) == "refs/heads/"@ + "master"@,
        probe_ref(5) == "refs/remotes/origin/"@ + "master"@,
        candidate(0) == "main"@,
        candidate(1) == "develop"@,
        candidate(2) == "master"@,
{
}

/// Reading `git symbolic-ref refs/remotes/origin/HEAD`: a branch `x` is read
/// exactly when the trimmed output is `refs/remotes/origin/` followed by the
/// non-empty `x`.
pub proof fn law_origin_head_reads(out: Seq<char>, x: Seq<char>)
    ensures
        origin_head_spec(out) == Some(x) <==> (trim(out) == "refs/remotes/origin/"@ + x && x.len()
            > 0),
{
    let p = "refs/remotes/origin/"@;
    let t = trim(out);
    if origin_head_spec(out) == Some(x) {
        assert(t =~= t.take(p.len() as int) + t.skip(p.len() as int));
    }
    if t == p + x && x.len() > 0 {
        assert(t.take(p.len() as int) =~= p);
        assert(t.skip(p.len() as int) =~= x);
    }
}

} // verus!
