//! The course of a refresh, as a state machine: given where the refresh
//! stands and the outcome of the last action, it says what to do next. The
//! caller performs each action (running git, printing) and reports back.
use vstd::prelude::*;
use vstd::string::*;
use crate::git::RefreshError;
use crate::text::{concat_strs, str_eq};

verus! {

broadcast use vstd::string::group_string_axioms;

/// The action whose outcome the refresh waits for.
#[derive(Debug, Clone, Copy, PartialEq, Eq, Structural)]
pub enum Stage {
    AwaitRepo,
    AwaitRemote,
    AwaitStatus,
    AwaitReset,
    AwaitMain,
    AwaitBranch,
    AwaitCountsBefore,
    AwaitFetch,
    AwaitRemoteBranch,
    AwaitCountsAfter,
    AwaitRebase,
    AwaitCountsFinal,
    AwaitCleanup,
    AwaitRecent,
    Finished,
    Failed,
}

/// Where a refresh stands.
pub struct Refresh {
    /// `--force` was given.
    pub force: bool,
    pub stage: Stage,
    /// The main branch, once detected.
    pub main_branch: String,
    /// Commits the main branch is behind origin, once counted after fetching.
    pub behind: u32,
}

/// The outcome of the last action.
pub enum Event {
    /// The action completed (with nothing to report).
    Done,
    /// The work tree was read: whether it has local changes.
    Status { dirty: bool },
    /// The main branch was detected.
    MainBranch(String),
    /// Whether the main branch exists on origin.
    RemoteBranch { exists: bool },
    /// Commits ahead of and behind origin's main branch.
    Counts { ahead: u32, behind: u32 },
}

/// What to do next.
pub enum Action {
    /// Check that the current directory is inside a git work tree.
    CheckRepository,
    /// Check that this remote is configured.
    CheckRemote(String),
    /// Read the status of the work tree.
    ReadStatus,
    /// Throw away local changes: `git reset --hard HEAD`.
    ResetHard,
    /// Find the main branch.
    DetectMainBranch,
    /// Make sure this branch is checked out.
    EnsureOnBranch(String),
    /// Count commits ahead and behind this ref; a failure stops the refresh
    /// only when `required`.
    CountAheadBehind { remote_ref: String, required: bool },
    /// Fetch from origin, pruning.
    Fetch,
    /// Check that origin has this branch.
    ConfirmRemoteBranch(String),
    /// Rebase onto this ref.
    Rebase(String),
    /// Nothing to rebase: the branch is up to date.
    SkipRebase,
    /// Delete the stale branches, keeping this main branch.
    CleanStaleBranches(String),
    /// Show this many recent commits.
    ShowRecentCommits(usize),
    /// Stop with this error.
    Fail(RefreshError),
    /// The refresh is complete.
    Finish,
    /// Nothing more to do: the refresh has ended.
    Halt,
}

// ---------------------------------------------------------------------------
// Views
// ---------------------------------------------------------------------------

pub struct RefreshView {
    pub force: bool,
    pub stage: Stage,
    pub main_branch: Seq<char>,
    pub behind: u32,
}

impl View for Refresh {
    type V = RefreshView;

    open spec fn view(&self) -> RefreshView {
        RefreshView {
            force: self.force,
            stage: self.stage,
            main_branch: self.main_branch@,
            behind: self.behind,
        }
    }
}

pub enum EventView {
    Done,
    Status { dirty: bool },
    MainBranch(Seq<char>),
    RemoteBranch { exists: bool },
    Counts { ahead: u32, behind: u32 },
}

impl View for Event {
    type V = EventView;

    open spec fn view(&self) -> EventView {
        match self {
            Event::Done => EventView::Done,
            Event::Status { dirty } => EventView::Status { dirty: *dirty },
            Event::MainBranch(b) => EventView::MainBranch(b@),
            Event::RemoteBranch { exists } => EventView::RemoteBranch { exists: *exists },
            Event::Counts { ahead, behind } => EventView::Counts { ahead: *ahead, behind: *behind },
        }
    }
}

/// An action, its strings by their text and an error by its message.
pub enum ActionView {
    CheckRepository,
    CheckRemote(Seq<char>),
    ReadStatus,
    ResetHard,
    DetectMainBranch,
    EnsureOnBranch(Seq<char>),
    CountAheadBehind(Seq<char>, bool),
    Fetch,
    ConfirmRemoteBranch(Seq<char>),
    Rebase(Seq<char>),
    SkipRebase,
    CleanStaleBranches(Seq<char>),
    ShowRecentCommits(usize),
    Fail(Seq<char>),
    Finish,
    Halt,
}

impl View for Action {
    type V = ActionView;

    open spec fn view(&self) -> ActionView {
        match self {
            Action::CheckRepository => ActionView::CheckRepository,
            Action::CheckRemote(r) => ActionView::CheckRemote(r@),
            Action::ReadStatus => ActionView::ReadStatus,
            Action::ResetHard => ActionView::ResetHard,
            Action::DetectMainBranch => ActionView::DetectMainBranch,
            Action::EnsureOnBranch(b) => ActionView::EnsureOnBranch(b@),
            Action::CountAheadBehind { remote_ref, required } => ActionView::CountAheadBehind(
                remote_ref@,
                *required,
            ),
            Action::Fetch => ActionView::Fetch,
            Action::ConfirmRemoteBranch(b) => ActionView::ConfirmRemoteBranch(b@),
            Action::Rebase(r) => ActionView::Rebase(r@),
            Action::SkipRebase => ActionView::SkipRebase,
            Action::CleanStaleBranches(b) => ActionView::CleanStaleBranches(b@),
            Action::ShowRecentCommits(n) => ActionView::ShowRecentCommits(*n),
            Action::Fail(e) => ActionView::Fail(e.message_spec()),
            Action::Finish => ActionView::Finish,
            Action::Halt => ActionView::Halt,
        }
    }
}

// ---------------------------------------------------------------------------
// The course of a refresh
// ---------------------------------------------------------------------------

/// The remote a refresh works with.
pub open spec fn origin() -> Seq<char> {
    "origin"@
}

/// The branch of origin that the main branch follows.
pub open spec fn remote_ref_spec(main: Seq<char>) -> Seq<char> {
    "origin/"@ + main
}

/// Number of recent commits shown at the end.
pub open spec fn recent_count() -> usize {
    3
}

/// The message of the error that stops a refresh with local changes.
pub open spec fn dirty_message() -> Seq<char> {
    "Aborting to avoid losing local changes"@
}

/// The message of the error that stops a refresh whose main branch is
/// missing on origin.
pub open spec fn remote_missing_message(main: Seq<char>) -> Seq<char> {
    "remote branch 'origin/"@ + main + "' not found after fetch"@
}

/// The action that a refresh waits on in each stage.
pub open spec fn pending_spec(s: RefreshView) -> ActionView {
    match s.stage {
        Stage::AwaitRepo => ActionView::CheckRepository,
        Stage::AwaitRemote => ActionView::CheckRemote(origin()),
        Stage::AwaitStatus => ActionView::ReadStatus,
        Stage::AwaitReset => ActionView::ResetHard,
        Stage::AwaitMain => ActionView::DetectMainBranch,
        Stage::AwaitBranch => ActionView::EnsureOnBranch(s.main_branch),
        Stage::AwaitCountsBefore => ActionView::CountAheadBehind(
            remote_ref_spec(s.main_branch),
            false,
        ),
        Stage::AwaitFetch => ActionView::Fetch,
        Stage::AwaitRemoteBranch => ActionView::ConfirmRemoteBranch(s.main_branch),
        Stage::AwaitCountsAfter => ActionView::CountAheadBehind(
            remote_ref_spec(s.main_branch),
            true,
        ),
        Stage::AwaitRebase => if s.behind > 0 {
            ActionView::Rebase(remote_ref_spec(s.main_branch))
        } else {
            ActionView::SkipRebase
        },
        Stage::AwaitCountsFinal => ActionView::CountAheadBehind(
            remote_ref_spec(s.main_branch),
            true,
        ),
        Stage::AwaitCleanup => ActionView::CleanStaleBranches(s.main_branch),
        Stage::AwaitRecent => ActionView::ShowRecentCommits(recent_count()),
        Stage::Finished => ActionView::Halt,
        Stage::Failed => ActionView::Halt,
    }
}

/// `s` in another stage.
pub open spec fn at(s: RefreshView, stage: Stage) -> RefreshView {
    RefreshView { stage, ..s }
}

/// `s` moved on to `stage`, with the action that stage waits on.
pub open spec fn advance(s: RefreshView, stage: Stage) -> (RefreshView, ActionView) {
    (at(s, stage), pending_spec(at(s, stage)))
}

/// The next state and action. An event that the stage does not wait for
/// changes nothing, and the pending action is asked for again.
pub open spec fn step_spec(s: RefreshView, e: EventView) -> (RefreshView, ActionView) {
    match (s.stage, e) {
        (Stage::AwaitRepo, EventView::Done) => advance(s, Stage::AwaitRemote),
        (Stage::AwaitRemote, EventView::Done) => advance(s, Stage::AwaitStatus),
        (Stage::AwaitStatus, EventView::Status { dirty }) => if dirty && !s.force {
            (at(s, Stage::Failed), ActionView::Fail(dirty_message()))
        } else if dirty {
            advance(s, Stage::AwaitReset)
        } else {
            advance(s, Stage::AwaitMain)
        },
        (Stage::AwaitReset, EventView::Done) => advance(s, Stage::AwaitMain),
        (Stage::AwaitMain, EventView::MainBranch(b)) => {
            let t = RefreshView { main_branch: b, ..s };
            advance(t, Stage::AwaitBranch)
        },
        (Stage::AwaitBranch, EventView::Done) => advance(s, Stage::AwaitCountsBefore),
        (Stage::AwaitCountsBefore, EventView::Done) => advance(s, Stage::AwaitFetch),
        (Stage::AwaitCountsBefore, EventView::Counts { .. }) => advance(s, Stage::AwaitFetch),
        (Stage::AwaitFetch, EventView::Done) => advance(s, Stage::AwaitRemoteBranch),
        (Stage::AwaitRemoteBranch, EventView::RemoteBranch { exists }) => if exists {
            advance(s, Stage::AwaitCountsAfter)
        } else {
            (at(s, Stage::Failed), ActionView::Fail(remote_missing_message(s.main_branch)))
        },
        (Stage::AwaitCountsAfter, EventView::Counts { behind, .. }) => {
            let t = RefreshView { behind, ..s };
            advance(t, Stage::AwaitRebase)
        },
        (Stage::AwaitRebase, EventView::Done) => advance(s, Stage::AwaitCountsFinal),
        (Stage::AwaitCountsFinal, EventView::Counts { .. }) => advance(s, Stage::AwaitCleanup),
        (Stage::AwaitCleanup, EventView::Done) => advance(s, Stage::AwaitRecent),
        (Stage::AwaitRecent, EventView::Done) => (at(s, Stage::Finished), ActionView::Finish),
        _ => (s, pending_spec(s)),
    }
}

/// The state a refresh starts in.
pub open spec fn initial_spec(force: bool) -> RefreshView {
    RefreshView { force, stage: Stage::AwaitRepo, main_branch: Seq::empty(), behind: 0 }
}

impl Refresh {
    /// A refresh that is about to start, and its first action.
    pub fn start(force: bool) -> (r: (Refresh, Action))
        ensures
            r.0@ == initial_spec(force),
            r.1@ == pending_spec(initial_spec(force)),
    {
        let s = Refresh { force, stage: Stage::AwaitRepo, main_branch: String::new(), behind: 0 };
        (s, Action::CheckRepository)
    }

    /// The action this refresh waits on.
    pub fn pending(&self) -> (a: Action)
        ensures
            a@ == pending_spec(self@),
    {
        match self.stage {
            Stage::AwaitRepo => Action::CheckRepository,
            Stage::AwaitRemote => Action::CheckRemote(String::from_str("origin")),
            Stage::AwaitStatus => Action::ReadStatus,
            Stage::AwaitReset => Action::ResetHard,
            Stage::AwaitMain => Action::DetectMainBranch,
            Stage::AwaitBranch => Action::EnsureOnBranch(self.main_branch.clone()),
            Stage::AwaitCountsBefore => Action::CountAheadBehind {
                remote_ref: concat_strs("origin/", self.main_branch.as_str()),
                required: false,
            },
            Stage::AwaitFetch => Action::Fetch,
            Stage::AwaitRemoteBranch => Action::ConfirmRemoteBranch(self.main_branch.clone()),
            Stage::AwaitCountsAfter => Action::CountAheadBehind {
                remote_ref: concat_strs("origin/", self.main_branch.as_str()),
                required: true,
            },
            Stage::AwaitRebase => if self.behind > 0 {
                Action::Rebase(concat_strs("origin/", self.main_branch.as_str()))
            } else {
                Action::SkipRebase
            },
            Stage::AwaitCountsFinal => Action::CountAheadBehind {
                remote_ref: concat_strs("origin/", self.main_branch.as_str()),
                required: true,
            },
            Stage::AwaitCleanup => Action::CleanStaleBranches(self.main_branch.clone()),
            Stage::AwaitRecent => Action::ShowRecentCommits(3),
            Stage::Finished => Action::Halt,
            Stage::Failed => Action::Halt,
        }
    }

    /// Moves on to `stage` and says what that stage waits on.
    fn advance(self, stage: Stage) -> (r: (Refresh, Action))
        ensures
            r.0@ == at(self@, stage),
            r.1@ == pending_spec(at(self@, stage)),
    {
        let s = Refresh { stage, ..self };
        let a = s.pending();
        (s, a)
    }

    /// The next state and action, given the outcome of the pending action.
    pub fn step(self, event: Event) -> (r: (Refresh, Action))
        ensures
            (r.0@, r.1@) == step_spec(self@, event@),
    {
        match (self.stage, event) {
            (Stage::AwaitRepo, Event::Done) => self.advance(Stage::AwaitRemote),
            (Stage::AwaitRemote, Event::Done) => self.advance(Stage::AwaitStatus),
            (Stage::AwaitStatus, Event::Status { dirty }) => {
                if dirty && !self.force {
                    (Refresh { stage: Stage::Failed, ..self }, Action::Fail(
                        RefreshError::DirtyWorkTree,
                    ))
                } else if dirty {
                    self.advance(Stage::AwaitReset)
                } else {
                    self.advance(Stage::AwaitMain)
                }
            },
            (Stage::AwaitReset, Event::Done) => self.advance(Stage::AwaitMain),
            (Stage::AwaitMain, Event::MainBranch(b)) => {
                let t = Refresh { main_branch: b, ..self };
                t.advance(Stage::AwaitBranch)
            },
            (Stage::AwaitBranch, Event::Done) => self.advance(Stage::AwaitCountsBefore),
            (Stage::AwaitCountsBefore, Event::Done) => self.advance(Stage::AwaitFetch),
            (Stage::AwaitCountsBefore, Event::Counts { .. }) => self.advance(Stage::AwaitFetch),
            (Stage::AwaitFetch, Event::Done) => self.advance(Stage::AwaitRemoteBranch),
            (Stage::AwaitRemoteBranch, Event::RemoteBranch { exists }) => {
                if exists {
                    self.advance(Stage::AwaitCountsAfter)
                } else {
                    let name = self.main_branch.clone();
                    (Refresh { stage: Stage::Failed, ..self }, Action::Fail(
                        RefreshError::RemoteBranchMissing { name },
                    ))
                }
            },
            (Stage::AwaitCountsAfter, Event::Counts { behind, .. }) => {
                let t = Refresh { behind, ..self };
                t.advance(Stage::AwaitRebase)
            },
            (Stage::AwaitRebase, Event::Done) => self.advance(Stage::AwaitCountsFinal),
            (Stage::AwaitCountsFinal, Event::Counts { .. }) => self.advance(Stage::AwaitCleanup),
            (Stage::AwaitCleanup, Event::Done) => self.advance(Stage::AwaitRecent),
            (Stage::AwaitRecent, Event::Done) => (
                Refresh { stage: Stage::Finished, ..self },
                Action::Finish,
            ),
            _ => {
                let a = self.pending();
                (self, a)
            },
        }
    }
}


// ---------------------------------------------------------------------------
// Getting onto the main branch
// ---------------------------------------------------------------------------

/// How to get onto the main branch.
#[derive(Debug, Clone, Copy, PartialEq, Eq, Structural)]
pub enum BranchSwitch {
    /// Already on it.
    Stay,
    /// On another branch: switch.
    Switch,
    /// On a detached HEAD: check the main branch out.
    LeaveDetached,
}

/// How to get onto `main`, when the current branch is `current` (`"HEAD"`
/// when it could not be read, as for a detached HEAD).
pub open spec fn branch_switch_spec(current: Seq<char>, main: Seq<char>) -> BranchSwitch {
    if current == "HEAD"@ {
        BranchSwitch::LeaveDetached
    } else if current != main {
        BranchSwitch::Switch
    } else {
        BranchSwitch::Stay
    }
}

/// The decision of getting onto the main branch.
pub fn ensure_on_branch(current: &str, main_branch: &str) -> (r: BranchSwitch)
    ensures
        r == branch_switch_spec(current@, main_branch@),
{
    let head = str_eq(current, "HEAD");
    if !head && !str_eq(current, main_branch) {
        BranchSwitch::Switch
    } else if head {
        BranchSwitch::LeaveDetached
    } else {
        BranchSwitch::Stay
    }
}

// ---------------------------------------------------------------------------
// Laws
// ---------------------------------------------------------------------------

/// What every state a refresh reaches satisfies: it only waits for a hard
/// reset when `--force` was given.
pub open spec fn well_formed(s: RefreshView) -> bool {
    s.stage == Stage::AwaitReset ==> s.force
}

/// The states and actions of a refresh fed the events `es`, from `s`.
pub open spec fn run(s: RefreshView, es: Seq<EventView>) -> (RefreshView, Seq<ActionView>)
    decreases es.len(),
{
    if es.len() == 0 {
        (s, seq![])
    } else {
        let (t, a) = step_spec(s, es[0]);
        let (u, rest) = run(t, es.drop_first());
        (u, seq![a] + rest)
    }
}

/// A refresh starts well formed, and every step keeps it so; and a hard
/// reset is only ever asked for when `--force` was given. `--force` never
/// changes.
pub proof fn law_reset_needs_force(s: RefreshView, e: EventView)
    ensures
        well_formed(initial_spec(s.force)),
        well_formed(s) ==> well_formed(step_spec(s, e).0),
        well_formed(s) && step_spec(s, e).1 == ActionView::ResetHard ==> s.force,
        step_spec(s, e).0.force == s.force,
{
}

/// A refresh that finds local changes stops without touching them unless
/// `--force` was given, in which case it hard-resets; a clean tree goes on to
/// find the main branch.
pub proof fn law_dirty_tree(s: RefreshView)
    requires
        s.stage == Stage::AwaitStatus,
    ensures
        !s.force ==> step_spec(s, EventView::Status { dirty: true }) == (
            at(s, Stage::Failed),
            ActionView::Fail(dirty_message()),
        ),
        s.force ==> step_spec(s, EventView::Status { dirty: true }) == (
            at(s, Stage::AwaitReset),
            ActionView::ResetHard,
        ),
        step_spec(s, EventView::Status { dirty: false }) == (
            at(s, Stage::AwaitMain),
            ActionView::DetectMainBranch,
        ),
{
}

/// A refresh that has ended (completed or failed) does nothing more.
pub proof fn law_ended_is_final(s: RefreshView, e: EventView)
    requires
        s.stage == Stage::Finished || s.stage == Stage::Failed,
    ensures
        step_spec(s, e) == (s, ActionView::Halt),
{
}

/// After fetching, a refresh rebases onto origin's main branch exactly when
/// it is behind it.
pub proof fn law_rebase_only_when_behind(s: RefreshView, ahead: u32, behind: u32)
    requires
        s.stage == Stage::AwaitCountsAfter,
    ensures
        step_spec(s, EventView::Counts { ahead, behind }).1 == (if behind > 0 {
            ActionView::Rebase(remote_ref_spec(s.main_branch))
        } else {
            ActionView::SkipRebase
        }),
{
}

/// Whether a refresh in `stage` waits for an event of this kind.
pub open spec fn accepts(stage: Stage, e: EventView) -> bool {
    match (stage, e) {
        (Stage::AwaitRepo, EventView::Done) => true,
        (Stage::AwaitRemote, EventView::Done) => true,
        (Stage::AwaitStatus, EventView::Status { .. }) => true,
        (Stage::AwaitReset, EventView::Done) => true,
        (Stage::AwaitMain, EventView::MainBranch(_)) => true,
        (Stage::AwaitBranch, EventView::Done) => true,
        (Stage::AwaitCountsBefore, EventView::Done) => true,
        (Stage::AwaitCountsBefore, EventView::Counts { .. }) => true,
        (Stage::AwaitFetch, EventView::Done) => true,
        (Stage::AwaitRemoteBranch, EventView::RemoteBranch { .. }) => true,
        (Stage::AwaitCountsAfter, EventView::Counts { .. }) => true,
        (Stage::AwaitRebase, EventView::Done) => true,
        (Stage::AwaitCountsFinal, EventView::Counts { .. }) => true,
        (Stage::AwaitCleanup, EventView::Done) => true,
        (Stage::AwaitRecent, EventView::Done) => true,
        _ => false,
    }
}

/// An event that the refresh does not wait for changes nothing, and the
/// pending action is asked for again; an event it waits for always moves it
/// to another stage.
pub proof fn law_unexpected_event(s: RefreshView, e: EventView)
    ensures
        !accepts(s.stage, e) ==> step_spec(s, e) == (s, pending_spec(s)),
        accepts(s.stage, e) ==> step_spec(s, e).0.stage != s.stage,
{
}

/// The events of a refresh in which everything succeeds on a clean tree.
pub open spec fn clean_run_events(main: Seq<char>, ahead: u32, behind: u32) -> Seq<EventView> {
    seq![
        EventView::Done,
        EventView::Done,
        EventView::Status { dirty: false },
        EventView::MainBranch(main),
        EventView::Done,
        EventView::Done,
        EventView::Done,
        EventView::RemoteBranch { exists: true },
        EventView::Counts { ahead, behind },
        EventView::Done,
        EventView::Counts { ahead, behind: 0 },
        EventView::Done,
        EventView::Done,
    ]
}

/// On a clean tree where every step succeeds, a refresh checks the remote,
/// reads the status, finds the main branch and gets onto it, counts, fetches,
/// confirms the branch on origin, counts again, rebases if behind, counts,
/// cleans stale branches, shows the last three commits, and finishes, in that
/// order.
pub proof fn law_clean_run(force: bool, main: Seq<char>, ahead: u32, behind: u32)
    ensures
        run(initial_spec(force), clean_run_events(main, ahead, behind)).0.stage == Stage::Finished,
        run(initial_spec(force), clean_run_events(main, ahead, behind)).1 == seq![
            ActionView::CheckRemote(origin()),
            ActionView::ReadStatus,
            ActionView::DetectMainBranch,
            ActionView::EnsureOnBranch(main),
            ActionView::CountAheadBehind(remote_ref_spec(main), false),
            ActionView::Fetch,
            ActionView::ConfirmRemoteBranch(main),
            ActionView::CountAheadBehind(remote_ref_spec(main), true),
            if behind > 0 {
                ActionView::Rebase(remote_ref_spec(main))
            } else {
                ActionView::SkipRebase
            },
            ActionView::CountAheadBehind(remote_ref_spec(main), true),
            ActionView::CleanStaleBranches(main),
            ActionView::ShowRecentCommits(recent_count()),
            ActionView::Finish,
        ],
{
    reveal_with_fuel(run, 14);
}


/// Getting onto the main branch: a detached HEAD (or an unreadable current
/// branch, shown as `HEAD`) is left by checking the main branch out; on any
/// other branch, the refresh stays exactly when that branch is the main
/// branch, and switches otherwise.
pub proof fn law_branch_switch(current: Seq<char>, main: Seq<char>)
    ensures
        (branch_switch_spec(current, main) == BranchSwitch::LeaveDetached) <==> current == "HEAD"@,
        current != "HEAD"@ ==> ((branch_switch_spec(current, main) == BranchSwitch::Stay)
            <==> current == main),
        current != "HEAD"@ ==> ((branch_switch_spec(current, main) == BranchSwitch::Switch)
            <==> current != main),
{
}

/// The course of a refresh, step by step: which stage each expected outcome
/// leads to, and the action it asks for next. In particular origin is always
/// fetched (with pruning) after the first count, whether that count
/// succeeded or not; the branch on origin is confirmed only after fetching;
/// a rebase is asked for only when behind; the main branch is never changed
/// after it is detected.
pub proof fn law_refresh_course(s: RefreshView, e: EventView)
    ensures
        initial_spec(s.force) == (RefreshView {
            force: s.force,
            stage: Stage::AwaitRepo,
            main_branch: Seq::empty(),
            behind: 0,
        }),
        pending_spec(initial_spec(s.force)) == ActionView::CheckRepository,
        s.stage == Stage::AwaitRepo && e == EventView::Done ==> step_spec(s, e) == (
            RefreshView { stage: Stage::AwaitRemote, ..s },
            ActionView::CheckRemote("origin"@),
        ),
        s.stage == Stage::AwaitRemote && e == EventView::Done ==> step_spec(s, e) == (
            RefreshView { stage: Stage::AwaitStatus, ..s },
            ActionView::ReadStatus,
        ),
        s.stage == Stage::AwaitStatus && e == (EventView::Status { dirty: false }) ==> step_spec(
            s,
            e,
        ) == (RefreshView { stage: Stage::AwaitMain, ..s }, ActionView::DetectMainBranch),
        s.stage == Stage::AwaitStatus && e == (EventView::Status { dirty: true }) && !s.force
            ==> step_spec(s, e) == (
            RefreshView { stage: Stage::Failed, ..s },
            ActionView::Fail("Aborting to avoid losing local changes"@),
        ),
        s.stage == Stage::AwaitStatus && e == (EventView::Status { dirty: true }) && s.force
            ==> step_spec(s, e) == (
            RefreshView { stage: Stage::AwaitReset, ..s },
            ActionView::ResetHard,
        ),
        s.stage == Stage::AwaitReset && e == EventView::Done ==> step_spec(s, e) == (
            RefreshView { stage: Stage::AwaitMain, ..s },
            ActionView::DetectMainBranch,
        ),
        s.stage == Stage::AwaitMain ==> (e matches EventView::MainBranch(b) ==> step_spec(s, e)
            == (
            RefreshView { stage: Stage::AwaitBranch, main_branch: b, ..s },
            ActionView::EnsureOnBranch(b),
        )),
        s.stage == Stage::AwaitBranch && e == EventView::Done ==> step_spec(s, e) == (
            RefreshView { stage: Stage::AwaitCountsBefore, ..s },
            ActionView::CountAheadBehind("origin/"@ + s.main_branch, false),
        ),
        s.stage == Stage::AwaitCountsBefore && (e == EventView::Done || e is Counts)
            ==> step_spec(s, e) == (
            RefreshView { stage: Stage::AwaitFetch, ..s },
            ActionView::Fetch,
        ),
        s.stage == Stage::AwaitFetch && e == EventView::Done ==> step_spec(s, e) == (
            RefreshView { stage: Stage::AwaitRemoteBranch, ..s },
            ActionView::ConfirmRemoteBranch(s.main_branch),
        ),
        s.stage == Stage::AwaitRemoteBranch && e == (EventView::RemoteBranch { exists: true })
            ==> step_spec(s, e) == (
            RefreshView { stage: Stage::AwaitCountsAfter, ..s },
            ActionView::CountAheadBehind("origin/"@ + s.main_branch, true),
        ),
        s.stage == Stage::AwaitRemoteBranch && e == (EventView::RemoteBranch { exists: false })
            ==> step_spec(s, e) == (
            RefreshView { stage: Stage::Failed, ..s },
            ActionView::Fail(
                "remote branch 'origin/"@ + s.main_branch + "' not found after fetch"@,
            ),
        ),
        s.stage == Stage::AwaitCountsAfter ==> (e matches EventView::Counts { behind: b, .. }
            ==> step_spec(s, e) == (
                RefreshView { stage: Stage::AwaitRebase, behind: b, ..s },
                if b > 0 {
                    ActionView::Rebase("origin/"@ + s.main_branch)
                } else {
                    ActionView::SkipRebase
                },
            )),
        s.stage == Stage::AwaitRebase && e == EventView::Done ==> step_spec(s, e) == (
            RefreshView { stage: Stage::AwaitCountsFinal, ..s },
            ActionView::CountAheadBehind("origin/"@ + s.main_branch, true),
        ),
        s.stage == Stage::AwaitCountsFinal && e is Counts ==> step_spec(s, e) == (
            RefreshView { stage: Stage::AwaitCleanup, ..s },
            ActionView::CleanStaleBranches(s.main_branch),
        ),
        s.stage == Stage::AwaitCleanup && e == EventView::Done ==> step_spec(s, e) == (
            RefreshView { stage: Stage::AwaitRecent, ..s },
            ActionView::ShowRecentCommits(3),
        ),
        s.stage == Stage::AwaitRecent && e == EventView::Done ==> step_spec(s, e) == (
            RefreshView { stage: Stage::Finished, ..s },
            ActionView::Finish,
        ),
        step_spec(s, e).1 is Fetch ==> s.stage == Stage::AwaitCountsBefore || s.stage
            == Stage::AwaitFetch,
        step_spec(s, e).1 is ConfirmRemoteBranch ==> s.stage == Stage::AwaitFetch || s.stage
            == Stage::AwaitRemoteBranch,
        step_spec(s, e).1 is Rebase ==> (s.stage == Stage::AwaitCountsAfter || s.stage
            == Stage::AwaitRebase) && step_spec(s, e).0.behind > 0,
        s.stage != Stage::AwaitMain ==> step_spec(s, e).0.main_branch == s.main_branch,
{
}

} // verus!
