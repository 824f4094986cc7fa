//! Merging and rebasing branches, including stopping on conflicts and resuming.
//!
//! Whenever an operation needs the working tree, the branch that was checked out (and any
//! autostash) is recorded in the git dir, and restored once the operation completes or is
//! aborted, so the user ends up where they started.
//!
//! Each procedure is a machine: it asks for one `GitCall` at a time and is stepped with
//! the `Reply`, until it finishes with its result.

use vstd::prelude::*;
use vstd::string::*;

use crate::git::{failure_of, GitCall, Op, Pending, Reply};
use crate::text::{cat, cat3, cat4, lines_of, split_lines, starts_with, views};

verus! {

#[derive(Debug, Clone, PartialEq, Eq)]
pub enum Outcome {
    /// Finished; the status message to show.
    Done(String),
    /// Stopped on conflicts and still in progress.
    Stopped,
}

/// A merge / rebase in progress, whoever started it.
#[derive(Debug, Clone, PartialEq, Eq)]
pub struct Operation {
    pub op: Op,
    pub desc: String,
    /// Unresolved paths, relative to the top level.
    pub conflicts: Vec<String>,
}

/// What a machine does next: ask for a call (and wait in a new state), or finish.
pub enum Step<M, R> {
    Ask(M, GitCall),
    Finish(R),
}

/// The step finishes with an error whose message is `msg`.
pub open spec fn fails_with<M, T>(s: Step<M, Result<T, String>>, msg: Seq<char>) -> bool {
    s matches Step::Finish(Err(e)) && e@ == msg
}

fn fail<M, T>(r: Reply) -> (s: Step<M, Result<T, String>>)
    ensures
        fails_with(s, failure_of(r)),
{
    Step::Finish(Err(r.failure()))
}

pub open spec fn op_name(op: Op) -> Seq<char> {
    match op {
        Op::Merge => "merge"@,
        Op::Rebase => "rebase"@,
    }
}

fn op_word(op: Op) -> (s: &'static str)
    ensures
        s@ == op_name(op),
{
    match op {
        Op::Merge => "merge",
        Op::Rebase => "rebase",
    }
}

// ---------------------------------------------------------------------------
// What is in progress

/// Finding out which merge / rebase is in progress.
pub enum Probe {
    /// Waiting for `InProgress`.
    Asking,
    /// Waiting for `LoadPending`.
    Loading { op: Op },
    /// Waiting for `ConflictedFiles`.
    Listing { op: Op, desc: String },
}

/// Machine `m`, given reply `r`, takes step `s`.
pub open spec fn probe_next(m: Probe, r: Reply, s: Step<Probe, Result<Option<Operation>, String>>) -> bool {
    match m {
        Probe::Asking => match r {
            Reply::State(None) => s == Step::<Probe, Result<Option<Operation>, String>>::Finish(Ok(None)),
            Reply::State(Some(op)) => s == Step::<Probe, Result<Option<Operation>, String>>::Ask(
                Probe::Loading { op },
                GitCall::LoadPending,
            ),
            _ => fails_with(s, failure_of(r)),
        },
        Probe::Loading { op } => match r {
            Reply::Record(Some(p)) => s == Step::<Probe, Result<Option<Operation>, String>>::Ask(
                Probe::Listing { op, desc: p.desc },
                GitCall::ConflictedFiles,
            ),
            Reply::Record(None) => s matches Step::Ask(Probe::Listing { op: o, desc }, GitCall::ConflictedFiles)
                && o == op && desc@ == op_name(op) + " in progress"@,
            _ => fails_with(s, failure_of(r)),
        },
        Probe::Listing { op, desc } => match r {
            Reply::Texts(files) => s == Step::<Probe, Result<Option<Operation>, String>>::Finish(
                Ok(Some(Operation { op, desc, conflicts: files })),
            ),
            _ => fails_with(s, failure_of(r)),
        },
    }
}

/// The merge / rebase in progress, whoever started it: begins by asking `InProgress`.
pub fn in_progress() -> (r: (Probe, GitCall))
    ensures
        r.0 == Probe::Asking,
        r.1 == GitCall::InProgress,
{
    (Probe::Asking, GitCall::InProgress)
}

impl Probe {
    pub fn step(self, r: Reply) -> (s: Step<Probe, Result<Option<Operation>, String>>)
        ensures
            probe_next(self, r, s),
    {
        match self {
            Probe::Asking => match r {
                Reply::State(None) => Step::Finish(Ok(None)),
                Reply::State(Some(op)) => Step::Ask(Probe::Loading { op }, GitCall::LoadPending),
                _ => fail(r),
            },
            Probe::Loading { op } => match r {
                Reply::Record(Some(p)) => Step::Ask(Probe::Listing { op, desc: p.desc }, GitCall::ConflictedFiles),
                Reply::Record(None) => {
                    let desc = cat(op_word(op), " in progress");
                    Step::Ask(Probe::Listing { op, desc }, GitCall::ConflictedFiles)
                },
                _ => fail(r),
            },
            Probe::Listing { op, desc } => match r {
                Reply::Texts(files) => Step::Finish(Ok(Some(Operation { op, desc, conflicts: files }))),
                _ => fail(r),
            },
        }
    }
}

// ---------------------------------------------------------------------------
// Going back to where the user started

/// Checking the original branch out again and popping the autostash, if gim recorded them.
pub enum Restore {
    /// Waiting for `LoadPending`.
    Loading,
    /// Waiting for `ClearPending`.
    Clearing { p: Pending },
    /// Waiting for `HeadRef`.
    Checking { p: Pending },
    /// Waiting for `Checkout` of `p.orig`.
    CheckingOut { p: Pending },
    /// Waiting for `StashPop`.
    Popping { stash: String },
}

/// After the original branch is checked out: pop the stash, if there is one.
pub open spec fn restore_stash(p: Pending, s: Step<Restore, Result<(), String>>) -> bool {
    match p.stash {
        Some(st) => s == Step::<Restore, Result<(), String>>::Ask(
            Restore::Popping { stash: st },
            GitCall::StashPop { stash: st },
        ),
        None => s == Step::<Restore, Result<(), String>>::Finish(Ok(())),
    }
}

pub open spec fn restore_next(m: Restore, r: Reply, s: Step<Restore, Result<(), String>>) -> bool {
    match m {
        Restore::Loading => match r {
            Reply::Record(None) => s == Step::<Restore, Result<(), String>>::Finish(Ok(())),
            Reply::Record(Some(p)) => s == Step::<Restore, Result<(), String>>::Ask(
                Restore::Clearing { p },
                GitCall::ClearPending,
            ),
            _ => fails_with(s, failure_of(r)),
        },
        Restore::Clearing { p } => match r {
            Reply::Done => s == Step::<Restore, Result<(), String>>::Ask(
                Restore::Checking { p },
                GitCall::HeadRef,
            ),
            _ => fails_with(s, failure_of(r)),
        },
        Restore::Checking { p } => match r {
            Reply::Text(h) => if h@ != p.orig@ {
                s == Step::<Restore, Result<(), String>>::Ask(
                    Restore::CheckingOut { p },
                    GitCall::Checkout { name: p.orig },
                )
            } else {
                restore_stash(p, s)
            },
            _ => fails_with(s, failure_of(r)),
        },
        Restore::CheckingOut { p } => match r {
            Reply::Done => restore_stash(p, s),
            _ => fails_with(
                s,
                "could not check "@ + p.orig@ + " out again: "@ + failure_of(r),
            ),
        },
        Restore::Popping { stash } => match r {
            Reply::Done => s == Step::<Restore, Result<(), String>>::Finish(Ok(())),
            _ => fails_with(
                s,
                "could not restore stashed changes ("@ + stash@ + "): "@ + failure_of(r),
            ),
        },
    }
}

/// Begins restoring the starting point by asking `LoadPending`.
pub fn restore() -> (r: (Restore, GitCall))
    ensures
        r.0 == Restore::Loading,
        r.1 == GitCall::LoadPending,
{
    (Restore::Loading, GitCall::LoadPending)
}

fn pop_stash(p: Pending) -> (s: Step<Restore, Result<(), String>>)
    ensures
        restore_stash(p, s),
{
    match p.stash {
        Some(st) => {
            let c = st.clone();
            Step::Ask(Restore::Popping { stash: st }, GitCall::StashPop { stash: c })
        },
        None => Step::Finish(Ok(())),
    }
}

impl Restore {
    pub fn step(self, r: Reply) -> (s: Step<Restore, Result<(), String>>)
        ensures
            restore_next(self, r, s),
    {
        match self {
            Restore::Loading => match r {
                Reply::Record(None) => Step::Finish(Ok(())),
                Reply::Record(Some(p)) => Step::Ask(Restore::Clearing { p }, GitCall::ClearPending),
                _ => fail(r),
            },
            Restore::Clearing { p } => match r {
                Reply::Done => Step::Ask(Restore::Checking { p }, GitCall::HeadRef),
                _ => fail(r),
            },
            Restore::Checking { p } => match r {
                Reply::Text(h) => {
                    if h != p.orig {
                        let name = p.orig.clone();
                        Step::Ask(Restore::CheckingOut { p }, GitCall::Checkout { name })
                    } else {
                        pop_stash(p)
                    }
                },
                _ => fail(r),
            },
            Restore::CheckingOut { p } => match r {
                Reply::Done => pop_stash(p),
                _ => {
                    let e = r.failure();
                    Step::Finish(Err(cat4("could not check ", p.orig.as_str(), " out again: ", e.as_str())))
                },
            },
            Restore::Popping { stash } => match r {
                Reply::Done => Step::Finish(Ok(())),
                _ => {
                    let e = r.failure();
                    let mut m = cat3("could not restore stashed changes (", stash.as_str(), "): ");
                    m.append(e.as_str());
                    Step::Finish(Err(m))
                },
            },
        }
    }
}

// ---------------------------------------------------------------------------
// Settling a step

/// Turning the result of a step into an outcome, restoring the starting point unless the
/// operation is still in progress.
pub struct Settle {
    pub result: Result<(), String>,
    pub done: String,
    pub stage: SettleStage,
}

pub enum SettleStage {
    /// Waiting for `InProgress` (only after a failed step).
    Probing,
    Restoring(Restore),
}

/// The outcome once the starting point is restored: the step's error first, then the
/// restore's, else done.
pub open spec fn settled(result: Result<(), String>, restored: Result<(), String>, done: String, o: Result<Outcome, String>) -> bool {
    match result {
        Err(e) => o == Err::<Outcome, String>(e),
        Ok(()) => match restored {
            Err(e) => o == Err::<Outcome, String>(e),
            Ok(()) => o == Ok::<Outcome, String>(Outcome::Done(done)),
        },
    }
}

/// How settling begins: a failed step asks whether the operation is still in progress,
/// a successful one goes on to restore.
pub open spec fn settle_begins(result: Result<(), String>, done: String, s: Step<Settle, Result<Outcome, String>>) -> bool {
    if result is Err {
        s == Step::<Settle, Result<Outcome, String>>::Ask(
            Settle { result, done, stage: SettleStage::Probing },
            GitCall::InProgress,
        )
    } else {
        s == Step::<Settle, Result<Outcome, String>>::Ask(
            Settle { result, done, stage: SettleStage::Restoring(Restore::Loading) },
            GitCall::LoadPending,
        )
    }
}

pub open spec fn settle_next(m: Settle, r: Reply, s: Step<Settle, Result<Outcome, String>>) -> bool {
    match m.stage {
        SettleStage::Probing => match r {
            Reply::State(Some(_)) => s == Step::<Settle, Result<Outcome, String>>::Finish(Ok(Outcome::Stopped)),
            Reply::State(None) => s == Step::<Settle, Result<Outcome, String>>::Ask(
                Settle { stage: SettleStage::Restoring(Restore::Loading), ..m },
                GitCall::LoadPending,
            ),
            _ => fails_with(s, failure_of(r)),
        },
        SettleStage::Restoring(rm) => exists|t: Step<Restore, Result<(), String>>|
            #[trigger] restore_next(rm, r, t) && match t {
                Step::Ask(rm2, c) => s == Step::<Settle, Result<Outcome, String>>::Ask(
                    Settle { stage: SettleStage::Restoring(rm2), ..m },
                    c,
                ),
                Step::Finish(restored) => s matches Step::Finish(o) && settled(m.result, restored, m.done, o),
            },
    }
}

fn conclude(result: Result<(), String>, restored: Result<(), String>, done: String) -> (o: Result<Outcome, String>)
    ensures
        settled(result, restored, done, o),
{
    match result {
        Err(e) => Err(e),
        Ok(()) => match restored {
            Err(e) => Err(e),
            Ok(()) => Ok(Outcome::Done(done)),
        },
    }
}

impl Settle {
    pub fn begin(result: Result<(), String>, done: String) -> (s: Step<Settle, Result<Outcome, String>>)
        ensures
            settle_begins(result, done, s),
    {
        if result.is_err() {
            Step::Ask(Settle { result, done, stage: SettleStage::Probing }, GitCall::InProgress)
        } else {
            Step::Ask(
                Settle { result, done, stage: SettleStage::Restoring(Restore::Loading) },
                GitCall::LoadPending,
            )
        }
    }

    pub fn step(self, r: Reply) -> (s: Step<Settle, Result<Outcome, String>>)
        ensures
            settle_next(self, r, s),
    {
        let Settle { result, done, stage } = self;
        match stage {
            SettleStage::Probing => match r {
                Reply::State(Some(_)) => Step::Finish(Ok(Outcome::Stopped)),
                Reply::State(None) => Step::Ask(
                    Settle { result, done, stage: SettleStage::Restoring(Restore::Loading) },
                    GitCall::LoadPending,
                ),
                _ => fail(r),
            },
            SettleStage::Restoring(rm) => {
                let t = rm.step(r);
                match t {
                    Step::Ask(rm2, c) => Step::Ask(Settle { result, done, stage: SettleStage::Restoring(rm2) }, c),
                    Step::Finish(restored) => Step::Finish(conclude(result, restored, done)),
                }
            },
        }
    }
}

// ---------------------------------------------------------------------------
// Starting a merge / rebase

pub open spec fn desc_text(op: Op, branch: Seq<char>, target: Seq<char>) -> Seq<char> {
    match op {
        Op::Merge => "merging "@ + branch + " into "@ + target,
        Op::Rebase => "rebasing "@ + branch + " onto "@ + target,
    }
}

pub open spec fn done_text(op: Op, branch: Seq<char>, target: Seq<char>) -> Seq<char> {
    match op {
        Op::Merge => "merged "@ + branch + " into "@ + target,
        Op::Rebase => "rebased "@ + branch + " onto "@ + target,
    }
}

/// The message when there is nothing to do.
pub open spec fn already_text(op: Op, branch: Seq<char>, target: Seq<char>) -> Seq<char> {
    match op {
        Op::Merge => target + " already contains "@ + branch,
        Op::Rebase => branch + " is already based on "@ + target,
    }
}

pub open spec fn uncommitted_text() -> Seq<char> {
    "uncommitted changes: commit or stash them first (or set autostash = true)"@
}

/// Merging `branch` into `target`, or rebasing `branch` onto `target`.
pub struct Start {
    pub op: Op,
    pub branch: String,
    pub target: String,
    pub autostash: bool,
    pub stage: StartStage,
}

pub enum StartStage {
    /// Waiting for `RevParse` of the branch.
    ParsingBranch,
    /// Waiting for `RevParse` of the target.
    ParsingTarget { b: String },
    /// Waiting for `IsAncestor`: is there anything to do?
    CheckingContained { b: String, t: String },
    /// Merge: waiting for `CurrentBranch`.
    CheckingHead { b: String, t: String },
    /// Merge into a branch that isn't checked out: waiting for `IsAncestor` (fast-forward?).
    CheckingFastForward { b: String, t: String },
    /// Waiting for the `UpdateBranch` of a fast-forward.
    FastForwarding,
    /// Waiting for `MergeTree`.
    MergingTrees { b: String, t: String },
    /// Waiting for `CommitTree`.
    Committing { t: String },
    /// Waiting for the `UpdateBranch` to the merge commit.
    Recording,
    /// The working tree is needed: waiting for `HeadRef`.
    ReadingHead,
    /// Waiting for `IsDirty`.
    CheckingDirty { orig: String },
    /// Waiting for `StashPush`.
    Stashing { orig: String },
    /// Waiting for `SavePending`.
    Saving,
    /// Merge: waiting for the `Checkout` of the target.
    CheckingOut,
    /// Waiting for `Merge` / `Rebase`.
    Running,
    Settling(Settle),
}

impl Start {
    /// The same procedure in another stage.
    pub open spec fn at(self, stage: StartStage) -> Start {
        Start { stage, ..self }
    }

    pub open spec fn desc(self) -> Seq<char> {
        desc_text(self.op, self.branch@, self.target@)
    }

    pub open spec fn done(self) -> Seq<char> {
        done_text(self.op, self.branch@, self.target@)
    }
}

/// Moving on to the working tree: asking for `HeadRef`.
pub open spec fn start_reads_head(m: Start, s: Step<Start, Result<Outcome, String>>) -> bool {
    s == Step::<Start, Result<Outcome, String>>::Ask(m.at(StartStage::ReadingHead), GitCall::HeadRef)
}

/// Recording where to come back to, before the working tree is touched.
pub open spec fn start_saves(m: Start, orig: String, stash: Option<String>, s: Step<Start, Result<Outcome, String>>) -> bool {
    s matches Step::Ask(m2, GitCall::SavePending { pending })
        && m2 == m.at(StartStage::Saving)
        && pending.orig == orig && pending.stash == stash
        && pending.desc@ == m.desc() && pending.done@ == m.done()
}

/// Settling the result of the merge / rebase run.
pub open spec fn start_settles(m: Start, result: Result<(), String>, s: Step<Start, Result<Outcome, String>>) -> bool {
    exists|t: Step<Settle, Result<Outcome, String>>|
        #[trigger] settle_begins(result, t->Ask_0.done, t) && t->Ask_0.done@ == m.done()
            && s == Step::<Start, Result<Outcome, String>>::Ask(m.at(StartStage::Settling(t->Ask_0)), t->Ask_1)
}

/// The commit message recorded for a branch moved without the working tree.
pub open spec fn reflog_text(m: Start) -> Seq<char> {
    "gim: "@ + m.done()
}

pub open spec fn start_next(m: Start, r: Reply, s: Step<Start, Result<Outcome, String>>) -> bool {
    match m.stage {
        StartStage::ParsingBranch => match r {
            Reply::Text(b) => s == Step::<Start, Result<Outcome, String>>::Ask(
                m.at(StartStage::ParsingTarget { b }),
                GitCall::RevParse { rev: m.target },
            ),
            _ => fails_with(s, failure_of(r)),
        },
        StartStage::ParsingTarget { b } => match r {
            Reply::Text(t) => s == Step::<Start, Result<Outcome, String>>::Ask(
                m.at(StartStage::CheckingContained { b, t }),
                match m.op {
                    Op::Merge => GitCall::IsAncestor { ancestor: b, descendant: t },
                    Op::Rebase => GitCall::IsAncestor { ancestor: t, descendant: b },
                },
            ),
            _ => fails_with(s, failure_of(r)),
        },
        StartStage::CheckingContained { b, t } => match r {
            Reply::Flag(true) => s matches Step::Finish(Ok(Outcome::Done(msg)))
                && msg@ == already_text(m.op, m.branch@, m.target@),
            Reply::Flag(false) => match m.op {
                Op::Merge => s == Step::<Start, Result<Outcome, String>>::Ask(
                    m.at(StartStage::CheckingHead { b, t }),
                    GitCall::CurrentBranch,
                ),
                Op::Rebase => start_reads_head(m, s),
            },
            _ => fails_with(s, failure_of(r)),
        },
        StartStage::CheckingHead { b, t } => match r {
            Reply::MaybeText(cur) => if cur matches Some(c) && c@ == m.target@ {
                start_reads_head(m, s)
            } else {
                s == Step::<Start, Result<Outcome, String>>::Ask(
                    m.at(StartStage::CheckingFastForward { b, t }),
                    GitCall::IsAncestor { ancestor: t, descendant: b },
                )
            },
            _ => fails_with(s, failure_of(r)),
        },
        StartStage::CheckingFastForward { b, t } => match r {
            Reply::Flag(true) => s matches Step::Ask(m2, GitCall::UpdateBranch { name, new, old, msg })
                && m2 == m.at(StartStage::FastForwarding) && name == m.target && new == b && old == t
                && msg@ == reflog_text(m),
            Reply::Flag(false) => s == Step::<Start, Result<Outcome, String>>::Ask(
                m.at(StartStage::MergingTrees { b, t }),
                GitCall::MergeTree { ours: t, theirs: b },
            ),
            _ => fails_with(s, failure_of(r)),
        },
        StartStage::FastForwarding => match r {
            Reply::Done => s matches Step::Finish(Ok(Outcome::Done(msg)))
                && msg@ == "fast-forwarded "@ + m.target@ + " to "@ + m.branch@,
            _ => fails_with(s, failure_of(r)),
        },
        StartStage::MergingTrees { b, t } => match r {
            Reply::MaybeText(Some(tree)) => s matches Step::Ask(m2, GitCall::CommitTree { tree: tr, parents, subject })
                && m2 == m.at(StartStage::Committing { t }) && tr == tree && parents@ == seq![t, b]
                && subject@ == "Merge branch '"@ + m.branch@ + "' into "@ + m.target@,
            Reply::MaybeText(None) => start_reads_head(m, s),
            _ => fails_with(s, failure_of(r)),
        },
        StartStage::Committing { t } => match r {
            Reply::Text(commit) => s matches Step::Ask(m2, GitCall::UpdateBranch { name, new, old, msg })
                && m2 == m.at(StartStage::Recording) && name == m.target && new == commit && old == t
                && msg@ == reflog_text(m),
            _ => fails_with(s, failure_of(r)),
        },
        StartStage::Recording => match r {
            Reply::Done => s matches Step::Finish(Ok(Outcome::Done(msg))) && msg@ == m.done(),
            _ => fails_with(s, failure_of(r)),
        },
        StartStage::ReadingHead => match r {
            Reply::Text(orig) => s == Step::<Start, Result<Outcome, String>>::Ask(
                m.at(StartStage::CheckingDirty { orig }),
                GitCall::IsDirty,
            ),
            _ => fails_with(s, failure_of(r)),
        },
        StartStage::CheckingDirty { orig } => match r {
            Reply::Flag(false) => start_saves(m, orig, None, s),
            Reply::Flag(true) => if m.autostash {
                s == Step::<Start, Result<Outcome, String>>::Ask(
                    m.at(StartStage::Stashing { orig }),
                    GitCall::StashPush,
                )
            } else {
                fails_with(s, uncommitted_text())
            },
            _ => fails_with(s, failure_of(r)),
        },
        StartStage::Stashing { orig } => match r {
            Reply::Text(stash) => start_saves(m, orig, Some(stash), s),
            _ => fails_with(s, failure_of(r)),
        },
        StartStage::Saving => match r {
            Reply::Done => match m.op {
                Op::Merge => s == Step::<Start, Result<Outcome, String>>::Ask(
                    m.at(StartStage::CheckingOut),
                    GitCall::Checkout { name: m.target },
                ),
                Op::Rebase => s == Step::<Start, Result<Outcome, String>>::Ask(
                    m.at(StartStage::Running),
                    GitCall::Rebase { branch: m.branch, onto: m.target },
                ),
            },
            _ => fails_with(s, failure_of(r)),
        },
        StartStage::CheckingOut => match r {
            Reply::Done => s == Step::<Start, Result<Outcome, String>>::Ask(
                m.at(StartStage::Running),
                GitCall::Merge { branch: m.branch },
            ),
            _ => exists|e: String| e@ == failure_of(r) && #[trigger] start_settles(m, Err(e), s),
        },
        StartStage::Running => match r {
            Reply::Done => start_settles(m, Ok(()), s),
            _ => exists|e: String| e@ == failure_of(r) && #[trigger] start_settles(m, Err(e), s),
        },
        StartStage::Settling(sm) => exists|t: Step<Settle, Result<Outcome, String>>|
            #[trigger] settle_next(sm, r, t) && match t {
                Step::Ask(sm2, c) => s == Step::<Start, Result<Outcome, String>>::Ask(
                    m.at(StartStage::Settling(sm2)),
                    c,
                ),
                Step::Finish(o) => s == Step::<Start, Result<Outcome, String>>::Finish(o),
            },
    }
}

fn desc_of(op: Op, branch: &str, target: &str) -> (d: String)
    ensures
        d@ == desc_text(op, branch@, target@),
{
    match op {
        Op::Merge => cat4("merging ", branch, " into ", target),
        Op::Rebase => cat4("rebasing ", branch, " onto ", target),
    }
}

fn done_of(op: Op, branch: &str, target: &str) -> (d: String)
    ensures
        d@ == done_text(op, branch@, target@),
{
    match op {
        Op::Merge => cat4("merged ", branch, " into ", target),
        Op::Rebase => cat4("rebased ", branch, " onto ", target),
    }
}

/// Merge `branch` into `target`, or rebase `branch` onto `target`: begins by asking
/// `RevParse` of the branch.
pub fn start(op: Op, branch: String, target: String, autostash: bool) -> (r: (Start, GitCall))
    ensures
        r.0 == (Start { op, branch, target, autostash, stage: StartStage::ParsingBranch }),
        r.1 == (GitCall::RevParse { rev: branch }),
{
    let rev = branch.clone();
    (Start { op, branch, target, autostash, stage: StartStage::ParsingBranch }, GitCall::RevParse { rev })
}

impl Start {
    fn reflog(&self) -> (msg: String)
        ensures
            msg@ == reflog_text(*self),
    {
        let done = done_of(self.op, self.branch.as_str(), self.target.as_str());
        cat("gim: ", done.as_str())
    }

    fn read_head(self) -> (s: Step<Start, Result<Outcome, String>>)
        ensures
            start_reads_head(self, s),
    {
        Step::Ask(Start { stage: StartStage::ReadingHead, ..self }, GitCall::HeadRef)
    }

    fn save(self, orig: String, stash: Option<String>) -> (s: Step<Start, Result<Outcome, String>>)
        ensures
            start_saves(self, orig, stash, s),
    {
        let desc = desc_of(self.op, self.branch.as_str(), self.target.as_str());
        let done = done_of(self.op, self.branch.as_str(), self.target.as_str());
        let pending = Pending { orig, stash, desc, done };
        Step::Ask(Start { stage: StartStage::Saving, ..self }, GitCall::SavePending { pending })
    }

    fn settle(self, result: Result<(), String>) -> (s: Step<Start, Result<Outcome, String>>)
        ensures
            start_settles(self, result, s),
    {
        let done = done_of(self.op, self.branch.as_str(), self.target.as_str());
        let ghost d = done;
        let t = Settle::begin(result, done);
        assert(settle_begins(result, t->Ask_0.done, t));
        match t {
            Step::Ask(sm, c) => Step::Ask(Start { stage: StartStage::Settling(sm), ..self }, c),
            Step::Finish(_) => {
                proof {
                    assert(false);
                }
                Step::Finish(Ok(Outcome::Stopped))
            },
        }
    }

    pub fn step(self, r: Reply) -> (s: Step<Start, Result<Outcome, String>>)
        ensures
            start_next(self, r, s),
    {
        let ghost m = self;
        let Start { op, branch, target, autostash, stage } = self;
        let me = Start { op, branch, target, autostash, stage: StartStage::ParsingBranch };
        assert(m == me.at(m.stage));
        match stage {
            StartStage::ParsingBranch => match r {
                Reply::Text(b) => {
                    let rev = me.target.clone();
                    Step::Ask(Start { stage: StartStage::ParsingTarget { b }, ..me }, GitCall::RevParse { rev })
                },
                _ => fail(r),
            },
            StartStage::ParsingTarget { b } => match r {
                Reply::Text(t) => {
                    let call = match op {
                        Op::Merge => GitCall::IsAncestor { ancestor: b.clone(), descendant: t.clone() },
                        Op::Rebase => GitCall::IsAncestor { ancestor: t.clone(), descendant: b.clone() },
                    };
                    Step::Ask(Start { stage: StartStage::CheckingContained { b, t }, ..me }, call)
                },
                _ => fail(r),
            },
            StartStage::CheckingContained { b, t } => match r {
                Reply::Flag(true) => {
                    let msg = match op {
                        Op::Merge => cat3(me.target.as_str(), " already contains ", me.branch.as_str()),
                        Op::Rebase => cat3(me.branch.as_str(), " is already based on ", me.target.as_str()),
                    };
                    Step::Finish(Ok(Outcome::Done(msg)))
                },
                Reply::Flag(false) => match op {
                    Op::Merge => Step::Ask(
                        Start { stage: StartStage::CheckingHead { b, t }, ..me },
                        GitCall::CurrentBranch,
                    ),
                    Op::Rebase => me.read_head(),
                },
                _ => fail(r),
            },
            StartStage::CheckingHead { b, t } => match r {
                Reply::MaybeText(cur) => {
                    let on_target = match &cur {
                        Some(c) => *c == me.target,
                        None => false,
                    };
                    if on_target {
                        me.read_head()
                    } else {
                        let call = GitCall::IsAncestor { ancestor: t.clone(), descendant: b.clone() };
                        Step::Ask(Start { stage: StartStage::CheckingFastForward { b, t }, ..me }, call)
                    }
                },
                _ => fail(r),
            },
            StartStage::CheckingFastForward { b, t } => match r {
                Reply::Flag(true) => {
                    let msg = me.reflog();
                    let name = me.target.clone();
                    Step::Ask(
                        Start { stage: StartStage::FastForwarding, ..me },
                        GitCall::UpdateBranch { name, new: b, old: t, msg },
                    )
                },
                Reply::Flag(false) => {
                    let call = GitCall::MergeTree { ours: t.clone(), theirs: b.clone() };
                    Step::Ask(Start { stage: StartStage::MergingTrees { b, t }, ..me }, call)
                },
                _ => fail(r),
            },
            StartStage::FastForwarding => match r {
                Reply::Done => {
                    let msg = cat4("fast-forwarded ", me.target.as_str(), " to ", me.branch.as_str());
                    Step::Finish(Ok(Outcome::Done(msg)))
                },
                _ => fail(r),
            },
            StartStage::MergingTrees { b, t } => match r {
                Reply::MaybeText(Some(tree)) => {
                    let mut subject = cat3("Merge branch '", me.branch.as_str(), "' into ");
                    subject.append(me.target.as_str());
                    let parents = vec![t.clone(), b];
                    assert(parents@ =~= seq![t, b]);
                    Step::Ask(
                        Start { stage: StartStage::Committing { t }, ..me },
                        GitCall::CommitTree { tree, parents, subject },
                    )
                },
                Reply::MaybeText(None) => me.read_head(),
                _ => fail(r),
            },
            StartStage::Committing { t } => match r {
                Reply::Text(commit) => {
                    let msg = me.reflog();
                    let name = me.target.clone();
                    Step::Ask(
                        Start { stage: StartStage::Recording, ..me },
                        GitCall::UpdateBranch { name, new: commit, old: t, msg },
                    )
                },
                _ => fail(r),
            },
            StartStage::Recording => match r {
                Reply::Done => Step::Finish(Ok(Outcome::Done(done_of(op, me.branch.as_str(), me.target.as_str())))),
                _ => fail(r),
            },
            StartStage::ReadingHead => match r {
                Reply::Text(orig) => Step::Ask(
                    Start { stage: StartStage::CheckingDirty { orig }, ..me },
                    GitCall::IsDirty,
                ),
                _ => fail(r),
            },
            StartStage::CheckingDirty { orig } => match r {
                Reply::Flag(false) => me.save(orig, None),
                Reply::Flag(true) => {
                    if autostash {
                        Step::Ask(Start { stage: StartStage::Stashing { orig }, ..me }, GitCall::StashPush)
                    } else {
                        Step::Finish(Err(String::from_str(
                            "uncommitted changes: commit or stash them first (or set autostash = true)",
                        )))
                    }
                },
                _ => fail(r),
            },
            StartStage::Stashing { orig } => match r {
                Reply::Text(stash) => me.save(orig, Some(stash)),
                _ => fail(r),
            },
            StartStage::Saving => match r {
                Reply::Done => match op {
                    Op::Merge => {
                        let name = me.target.clone();
                        Step::Ask(Start { stage: StartStage::CheckingOut, ..me }, GitCall::Checkout { name })
                    },
                    Op::Rebase => {
                        let branch = me.branch.clone();
                        let onto = me.target.clone();
                        Step::Ask(Start { stage: StartStage::Running, ..me }, GitCall::Rebase { branch, onto })
                    },
                },
                _ => fail(r),
            },
            StartStage::CheckingOut => match r {
                Reply::Done => {
                    let branch = me.branch.clone();
                    Step::Ask(Start { stage: StartStage::Running, ..me }, GitCall::Merge { branch })
                },
                _ => {
                    let e = r.failure();
                    let ghost eg = e;
                    let s = me.settle(Err(e));
                    assert(me.at(StartStage::ParsingBranch) == me);
                    assert(start_settles(m, Err(eg), s));
                    s
                },
            },
            StartStage::Running => match r {
                Reply::Done => {
                    let s = me.settle(Ok(()));
                    assert(start_settles(m, Ok(()), s));
                    s
                },
                _ => {
                    let e = r.failure();
                    let ghost eg = e;
                    let s = me.settle(Err(e));
                    assert(me.at(StartStage::ParsingBranch) == me);
                    assert(start_settles(m, Err(eg), s));
                    s
                },
            },
            StartStage::Settling(sm) => {
                let t = sm.step(r);
                match t {
                    Step::Ask(sm2, c) => Step::Ask(Start { stage: StartStage::Settling(sm2), ..me }, c),
                    Step::Finish(o) => Step::Finish(o),
                }
            },
        }
    }
}

// ---------------------------------------------------------------------------
// Continuing after conflicts

/// `l` begins with `p`.
pub open spec fn begins_with(l: Seq<char>, p: Seq<char>) -> bool {
    p.len() <= l.len() && l.take(p.len() as int) == p
}

/// A line that git writes around a conflict.
pub open spec fn is_marker_line(l: Seq<char>) -> bool {
    begins_with(l, "<<<<<<< "@) || begins_with(l, ">>>>>>> "@)
}

/// A file's text still holds conflict markers.
pub open spec fn has_markers(text: Seq<char>) -> bool {
    exists|i: int| 0 <= i < lines_of(text).len() && is_marker_line(#[trigger] lines_of(text)[i])
}

/// Whether a file's text still holds conflict markers: a line starting with
/// `<<<<<<< ` or `>>>>>>> `.
pub fn text_has_markers(text: &str) -> (b: bool)
    ensures
        b == has_markers(text@),
{
    let lines = split_lines(text);
    let ghost ls = lines_of(text@);
    let mut i: usize = 0;
    while i < lines.len()
        invariant
            views(lines@) == ls,
            ls == lines_of(text@),
            i <= lines@.len(),
            forall|j: int| 0 <= j < i ==> !is_marker_line(#[trigger] ls[j]),
        decreases lines@.len() - i,
    {
        assert(views(lines@)[i as int] == lines@[i as int]@);
        assert(ls.len() == lines@.len());
        if starts_with(lines[i].as_str(), "<<<<<<< ") || starts_with(lines[i].as_str(), ">>>>>>> ") {
            assert(is_marker_line(lines_of(text@)[i as int]));
            return true;
        }
        i = i + 1;
    }
    false
}

/// Staging the resolved conflicts and carrying on with the operation in progress.
pub enum Resume {
    /// Waiting for `InProgress`.
    Probing,
    /// Waiting for `ConflictedFiles`.
    Listing { op: Op },
    /// Waiting for `Toplevel`.
    Locating { op: Op, files: Vec<String> },
    /// Waiting for `ReadFile` of `files[i]`.
    Scanning { op: Op, files: Vec<String>, top: String, i: usize },
    /// Waiting for `Add`.
    Adding { op: Op },
    /// Waiting for `LoadPending`.
    Loading { op: Op },
    /// Waiting for `MergeContinue` / `RebaseContinue`.
    Running { op: Op, done: String },
    Settling(Settle),
}

pub open spec fn no_operation_text() -> Seq<char> {
    "no merge or rebase in progress"@
}

/// Looking at file `i` and on: read it, or stage the files once all are clean.
pub open spec fn resume_scans(op: Op, files: Vec<String>, top: String, i: int, s: Step<Resume, Result<Outcome, String>>) -> bool {
    if i < files@.len() {
        s == Step::<Resume, Result<Outcome, String>>::Ask(
            Resume::Scanning { op, files, top, i: i as usize },
            GitCall::ReadFile { dir: top, path: files@[i] },
        )
    } else if files@.len() > 0 {
        s == Step::<Resume, Result<Outcome, String>>::Ask(Resume::Adding { op }, GitCall::Add { files })
    } else {
        s == Step::<Resume, Result<Outcome, String>>::Ask(Resume::Loading { op }, GitCall::LoadPending)
    }
}

pub open spec fn resume_settles(result: Result<(), String>, done: String, s: Step<Resume, Result<Outcome, String>>) -> bool {
    exists|t: Step<Settle, Result<Outcome, String>>|
        #[trigger] settle_begins(result, done, t)
            && s == Step::<Resume, Result<Outcome, String>>::Ask(Resume::Settling(t->Ask_0), t->Ask_1)
}

pub open spec fn continue_call(op: Op) -> GitCall {
    match op {
        Op::Merge => GitCall::MergeContinue,
        Op::Rebase => GitCall::RebaseContinue,
    }
}

pub open spec fn resume_next(m: Resume, r: Reply, s: Step<Resume, Result<Outcome, String>>) -> bool {
    match m {
        Resume::Probing => match r {
            Reply::State(Some(op)) => s == Step::<Resume, Result<Outcome, String>>::Ask(
                Resume::Listing { op },
                GitCall::ConflictedFiles,
            ),
            Reply::State(None) => fails_with(s, no_operation_text()),
            _ => fails_with(s, failure_of(r)),
        },
        Resume::Listing { op } => match r {
            Reply::Texts(files) => s == Step::<Resume, Result<Outcome, String>>::Ask(
                Resume::Locating { op, files },
                GitCall::Toplevel,
            ),
            _ => fails_with(s, failure_of(r)),
        },
        Resume::Locating { op, files } => match r {
            Reply::Text(top) => resume_scans(op, files, top, 0, s),
            _ => fails_with(s, failure_of(r)),
        },
        Resume::Scanning { op, files, top, i } => if (r matches Reply::MaybeText(Some(text)) && has_markers(text@)) {
            fails_with(s, files@[i as int]@ + " still has conflict markers"@)
        } else {
            resume_scans(op, files, top, i + 1, s)
        },
        Resume::Adding { op } => match r {
            Reply::Done => s == Step::<Resume, Result<Outcome, String>>::Ask(
                Resume::Loading { op },
                GitCall::LoadPending,
            ),
            _ => fails_with(s, failure_of(r)),
        },
        Resume::Loading { op } => match r {
            Reply::Record(Some(p)) => s == Step::<Resume, Result<Outcome, String>>::Ask(
                Resume::Running { op, done: p.done },
                continue_call(op),
            ),
            Reply::Record(None) => s matches Step::Ask(Resume::Running { op: o, done }, c)
                && o == op && c == continue_call(op) && done@ == op_name(op) + " completed"@,
            _ => fails_with(s, failure_of(r)),
        },
        Resume::Running { op, done } => match r {
            Reply::Done => resume_settles(Ok(()), done, s),
            _ => exists|e: String| e@ == failure_of(r) && #[trigger] resume_settles(Err(e), done, s),
        },
        Resume::Settling(sm) => exists|t: Step<Settle, Result<Outcome, String>>|
            #[trigger] settle_next(sm, r, t) && match t {
                Step::Ask(sm2, c) => s == Step::<Resume, Result<Outcome, String>>::Ask(Resume::Settling(sm2), c),
                Step::Finish(o) => s == Step::<Resume, Result<Outcome, String>>::Finish(o),
            },
    }
}

/// Continue the merge / rebase in progress: begins by asking `InProgress`.
pub fn resume() -> (r: (Resume, GitCall))
    ensures
        r.0 == Resume::Probing,
        r.1 == GitCall::InProgress,
{
    (Resume::Probing, GitCall::InProgress)
}

fn scan(op: Op, files: Vec<String>, top: String, i: usize) -> (s: Step<Resume, Result<Outcome, String>>)
    requires
        i <= files@.len(),
    ensures
        resume_scans(op, files, top, i as int, s),
{
    if i < files.len() {
        let path = files[i].clone();
        let dir = top.clone();
        Step::Ask(Resume::Scanning { op, files, top, i }, GitCall::ReadFile { dir, path })
    } else if files.len() > 0 {
        Step::Ask(Resume::Adding { op }, GitCall::Add { files })
    } else {
        Step::Ask(Resume::Loading { op }, GitCall::LoadPending)
    }
}

fn resume_settle(result: Result<(), String>, done: String) -> (s: Step<Resume, Result<Outcome, String>>)
    ensures
        resume_settles(result, done, s),
{
    let t = Settle::begin(result, done);
    assert(settle_begins(result, done, t));
    match t {
        Step::Ask(sm, c) => Step::Ask(Resume::Settling(sm), c),
        Step::Finish(_) => {
            proof {
                assert(false);
            }
            Step::Finish(Ok(Outcome::Stopped))
        },
    }
}

impl Resume {
    /// The machine never looks past the end of the file list.
    pub open spec fn wf(self) -> bool {
        self matches Resume::Scanning { files, i, .. } ==> i < files@.len()
    }

    pub fn step(self, r: Reply) -> (s: Step<Resume, Result<Outcome, String>>)
        requires
            self.wf(),
        ensures
            resume_next(self, r, s),
            s matches Step::Ask(m, _) ==> m.wf(),
    {
        match self {
            Resume::Probing => match r {
                Reply::State(Some(op)) => Step::Ask(Resume::Listing { op }, GitCall::ConflictedFiles),
                Reply::State(None) => Step::Finish(Err(String::from_str("no merge or rebase in progress"))),
                _ => fail(r),
            },
            Resume::Listing { op } => match r {
                Reply::Texts(files) => Step::Ask(Resume::Locating { op, files }, GitCall::Toplevel),
                _ => fail(r),
            },
            Resume::Locating { op, files } => match r {
                Reply::Text(top) => scan(op, files, top, 0),
                _ => fail(r),
            },
            Resume::Scanning { op, files, top, i } => {
                let marked = match &r {
                    Reply::MaybeText(Some(text)) => text_has_markers(text.as_str()),
                    _ => false,
                };
                assert(i < files.len());
                if marked {
                    Step::Finish(Err(cat(files[i].as_str(), " still has conflict markers")))
                } else {
                    scan(op, files, top, i + 1)
                }
            },
            Resume::Adding { op } => match r {
                Reply::Done => Step::Ask(Resume::Loading { op }, GitCall::LoadPending),
                _ => fail(r),
            },
            Resume::Loading { op } => match r {
                Reply::Record(Some(p)) => {
                    let c = match op {
                        Op::Merge => GitCall::MergeContinue,
                        Op::Rebase => GitCall::RebaseContinue,
                    };
                    Step::Ask(Resume::Running { op, done: p.done }, c)
                },
                Reply::Record(None) => {
                    let done = cat(op_word(op), " completed");
                    let c = match op {
                        Op::Merge => GitCall::MergeContinue,
                        Op::Rebase => GitCall::RebaseContinue,
                    };
                    Step::Ask(Resume::Running { op, done }, c)
                },
                _ => fail(r),
            },
            Resume::Running { op, done } => match r {
                Reply::Done => resume_settle(Ok(()), done),
                _ => {
                    let e = r.failure();
                    let ghost eg = e;
                    let ghost d = done;
                    let s = resume_settle(Err(e), done);
                    assert(resume_settles(Err(eg), d, s));
                    s
                },
            },
            Resume::Settling(sm) => {
                let t = sm.step(r);
                match t {
                    Step::Ask(sm2, c) => Step::Ask(Resume::Settling(sm2), c),
                    Step::Finish(o) => Step::Finish(o),
                }
            },
        }
    }
}

// ---------------------------------------------------------------------------
// Aborting

pub enum Abort {
    /// Waiting for `InProgress`.
    Probing,
    /// Waiting for `MergeAbort` / `RebaseAbort`.
    Aborting { op: Op },
    Restoring { op: Op, rm: Restore },
}

pub open spec fn abort_call(op: Op) -> GitCall {
    match op {
        Op::Merge => GitCall::MergeAbort,
        Op::Rebase => GitCall::RebaseAbort,
    }
}

pub open spec fn abort_next(m: Abort, r: Reply, s: Step<Abort, Result<String, String>>) -> bool {
    match m {
        Abort::Probing => match r {
            Reply::State(Some(op)) => s == Step::<Abort, Result<String, String>>::Ask(
                Abort::Aborting { op },
                abort_call(op),
            ),
            Reply::State(None) => fails_with(s, no_operation_text()),
            _ => fails_with(s, failure_of(r)),
        },
        Abort::Aborting { op } => match r {
            Reply::Done => s == Step::<Abort, Result<String, String>>::Ask(
                Abort::Restoring { op, rm: Restore::Loading },
                GitCall::LoadPending,
            ),
            _ => fails_with(s, failure_of(r)),
        },
        Abort::Restoring { op, rm } => exists|t: Step<Restore, Result<(), String>>|
            #[trigger] restore_next(rm, r, t) && match t {
                Step::Ask(rm2, c) => s == Step::<Abort, Result<String, String>>::Ask(
                    Abort::Restoring { op, rm: rm2 },
                    c,
                ),
                Step::Finish(Err(e)) => s == Step::<Abort, Result<String, String>>::Finish(Err(e)),
                Step::Finish(Ok(())) => s matches Step::Finish(Ok(msg)) && msg@ == op_name(op) + " aborted"@,
            },
    }
}

/// Abort the merge / rebase in progress: begins by asking `InProgress`.
pub fn abort() -> (r: (Abort, GitCall))
    ensures
        r.0 == Abort::Probing,
        r.1 == GitCall::InProgress,
{
    (Abort::Probing, GitCall::InProgress)
}

impl Abort {
    pub fn step(self, r: Reply) -> (s: Step<Abort, Result<String, String>>)
        ensures
            abort_next(self, r, s),
    {
        match self {
            Abort::Probing => match r {
                Reply::State(Some(op)) => {
                    let c = match op {
                        Op::Merge => GitCall::MergeAbort,
                        Op::Rebase => GitCall::RebaseAbort,
                    };
                    Step::Ask(Abort::Aborting { op }, c)
                },
                Reply::State(None) => Step::Finish(Err(String::from_str("no merge or rebase in progress"))),
                _ => fail(r),
            },
            Abort::Aborting { op } => match r {
                Reply::Done => Step::Ask(Abort::Restoring { op, rm: Restore::Loading }, GitCall::LoadPending),
                _ => fail(r),
            },
            Abort::Restoring { op, rm } => {
                let t = rm.step(r);
                match t {
                    Step::Ask(rm2, c) => Step::Ask(Abort::Restoring { op, rm: rm2 }, c),
                    Step::Finish(Err(e)) => Step::Finish(Err(e)),
                    Step::Finish(Ok(())) => Step::Finish(Ok(cat(op_word(op), " aborted"))),
                }
            },
        }
    }
}

// ---------------------------------------------------------------------------
// Laws

/// A call that changes the working tree, the index, the branch checked out or the stash.
pub open spec fn touches_worktree(c: GitCall) -> bool {
    match c {
        GitCall::Checkout { .. } | GitCall::CheckoutNew { .. } | GitCall::Merge { .. } | GitCall::Rebase { .. }
        | GitCall::StashPush | GitCall::StashPop { .. } | GitCall::MergeContinue | GitCall::RebaseContinue
        | GitCall::MergeAbort | GitCall::RebaseAbort | GitCall::Add { .. } => true,
        _ => false,
    }
}

/// The stages after the record of where to return has been asked for.
pub open spec fn recorded(stage: StartStage) -> bool {
    match stage {
        StartStage::Saving | StartStage::CheckingOut | StartStage::Running | StartStage::Settling(_) => true,
        _ => false,
    }
}

/// Starting a merge / rebase, the working tree is left alone until the branch checked out
/// (and the stash, if any) is recorded: a call that touches it comes only from a recorded
/// stage, except the autostash itself, which only the dirty check asks for; and the
/// recorded stages are entered only by asking to save the record.
pub proof fn law_start_records_before_touching(m: Start, r: Reply, s: Step<Start, Result<Outcome, String>>)
    requires
        start_next(m, r, s),
    ensures
        s matches Step::Ask(m2, c) ==> (touches_worktree(c) ==> recorded(m.stage) || (c is StashPush
            && m.stage is CheckingDirty && m.autostash)),
        s matches Step::Ask(m2, c) ==> (recorded(m2.stage) ==> recorded(m.stage) || c is SavePending),
{
}

/// Merging into a branch that isn't checked out is done without the working tree: from the
/// fast-forward check on, no call touches it, and the procedure moves on to the working
/// tree only when merge-tree finds conflicts.
pub proof fn law_merge_elsewhere_leaves_worktree(m: Start, r: Reply, s: Step<Start, Result<Outcome, String>>)
    requires
        start_next(m, r, s),
        m.stage is CheckingFastForward || m.stage is FastForwarding || m.stage is MergingTrees
            || m.stage is Committing || m.stage is Recording,
    ensures
        s matches Step::Ask(m2, c) ==> !touches_worktree(c),
        s matches Step::Ask(m2, c) ==> (m2.stage is ReadingHead ==> m.stage is MergingTrees && r matches Reply::MaybeText(None)),
{
}

/// The record saved names the branch that was checked out, as `HeadRef` answered, and the
/// stash that was made, if any.
pub proof fn law_record_names_start(m: Start, r: Reply, s: Step<Start, Result<Outcome, String>>)
    requires
        start_next(m, r, s),
    ensures
        m.stage is ReadingHead && r is Text ==> (s matches Step::Ask(m2, _) && m2.stage == StartStage::CheckingDirty { orig: r->Text_0 }),
        m.stage matches StartStage::CheckingDirty { orig } ==> (s matches Step::Ask(_, GitCall::SavePending { pending }) ==> pending.orig == orig && pending.stash is None),
        m.stage matches StartStage::Stashing { orig } ==> (s matches Step::Ask(_, GitCall::SavePending { pending }) ==> pending.orig == orig && r is Text && pending.stash == Some(r->Text_0)),
{
}

/// Restoring goes back to the recorded branch when the one checked out differs, and then pops
/// the recorded stash.
pub proof fn law_restore_returns(m: Restore, r: Reply, s: Step<Restore, Result<(), String>>)
    requires
        restore_next(m, r, s),
    ensures
        m is Checking && r is Text && r->Text_0@ != m->Checking_p.orig@ ==> s == Step::<Restore, Result<(), String>>::Ask(
            Restore::CheckingOut { p: m->Checking_p },
            GitCall::Checkout { name: m->Checking_p.orig },
        ),
        m is Checking && r is Text && r->Text_0@ == m->Checking_p.orig@ && m->Checking_p.stash is Some ==> s
            == Step::<Restore, Result<(), String>>::Ask(
            Restore::Popping { stash: m->Checking_p.stash->0 },
            GitCall::StashPop { stash: m->Checking_p.stash->0 },
        ),
        m is CheckingOut && r is Done && m->CheckingOut_p.stash is Some ==> s
            == Step::<Restore, Result<(), String>>::Ask(
            Restore::Popping { stash: m->CheckingOut_p.stash->0 },
            GitCall::StashPop { stash: m->CheckingOut_p.stash->0 },
        ),
{
}

// ---------------------------------------------------------------------------
// Coming back to where the user started

/// What the procedures rely on of a repository between calls: the name `HeadRef` answers
/// (the branch checked out, or the commit when detached), gim's record, and the stashes.
pub struct Place {
    pub head: Seq<char>,
    pub record: Option<Pending>,
    pub stashes: Set<Seq<char>>,
}

/// Calls after which the branch checked out may differ.
pub open spec fn moves_head(c: GitCall) -> bool {
    match c {
        GitCall::Checkout { .. } | GitCall::CheckoutNew { .. } | GitCall::Merge { .. } | GitCall::Rebase { .. }
        | GitCall::MergeContinue | GitCall::RebaseContinue | GitCall::MergeAbort | GitCall::RebaseAbort => true,
        _ => false,
    }
}

/// A repository in place `w` answers call `c` with `r` and is then in place `w2`, as git
/// does: `HeadRef` names the branch checked out and `LoadPending` gives the record; a
/// successful `Checkout` checks the branch out, `SavePending` stores the record and
/// `ClearPending` removes it; no other call changes the record, and only the calls of
/// `moves_head` change the branch checked out; a successful `StashPop` applies and drops
/// the stash, and only stashing and popping change the stashes.
pub open spec fn answers(w: Place, c: GitCall, r: Reply, w2: Place) -> bool {
    &&& (c is HeadRef ==> (r matches Reply::Text(h) ==> h@ == w.head))
    &&& (c is LoadPending ==> (r matches Reply::Record(p) ==> p == w.record))
    &&& (!moves_head(c) ==> w2.head == w.head)
    &&& (c matches GitCall::Checkout { name } ==> (r is Done ==> w2.head == name@))
    &&& (c matches GitCall::StashPop { stash } ==> (r is Done ==> !w2.stashes.contains(stash@)))
    &&& (!(c is StashPush) && !(c is StashPop) ==> w2.stashes == w.stashes)
    &&& match c {
        GitCall::SavePending { pending } => r is Done ==> w2.record == Some(pending),
        GitCall::ClearPending => r is Done ==> w2.record is None,
        _ => w2.record == w.record,
    }
}

/// The record names `orig` as the place to come back to.
pub open spec fn records(w: Place, orig: Seq<char>) -> bool {
    w.record matches Some(p) && p.orig@ == orig
}

/// The name of a stash, if there is one.
pub open spec fn stash_name(st: Option<String>) -> Option<Seq<char>> {
    match st {
        Some(x) => Some(x@),
        None => None,
    }
}

/// The record names `orig` as the place to come back to, and `st` as the stash to pop there.
pub open spec fn records_with(w: Place, orig: Seq<char>, st: Option<Seq<char>>) -> bool {
    w.record matches Some(p) && p.orig@ == orig && stash_name(p.stash) == st
}

/// The stash `st`, if any, is popped.
pub open spec fn popped(w: Place, st: Option<Seq<char>>) -> bool {
    st matches Some(x) ==> !w.stashes.contains(x)
}

/// Restoring, waiting for the answer to `c` in place `w`, is on its way back to `orig`.
/// `st` is the stash to pop there.
pub open spec fn restore_goes_back(m: Restore, c: GitCall, w: Place, orig: Seq<char>, st: Option<Seq<char>>) -> bool {
    match m {
        Restore::Loading => c is LoadPending && records_with(w, orig, st),
        Restore::Clearing { p } => c is ClearPending && p.orig@ == orig && stash_name(p.stash) == st,
        Restore::Checking { p } => c is HeadRef && p.orig@ == orig && stash_name(p.stash) == st && w.record is None,
        Restore::CheckingOut { p } => c == GitCall::Checkout { name: p.orig } && p.orig@ == orig
            && stash_name(p.stash) == st && w.record is None,
        Restore::Popping { stash } => c == GitCall::StashPop { stash } && st == Some(stash@) && w.head == orig
            && w.record is None,
    }
}

/// Each step of restoring keeps it on its way back to the recorded branch, and it finishes
/// well only there, with the record removed and the stash popped.
pub proof fn law_restore_goes_back(
    m: Restore,
    c: GitCall,
    w: Place,
    orig: Seq<char>,
    st: Option<Seq<char>>,
    r: Reply,
    w2: Place,
    s: Step<Restore, Result<(), String>>,
)
    requires
        restore_goes_back(m, c, w, orig, st),
        answers(w, c, r, w2),
        restore_next(m, r, s),
    ensures
        s matches Step::Ask(m2, c2) ==> restore_goes_back(m2, c2, w2, orig, st),
        s matches Step::Finish(Ok(())) ==> w2.head == orig && w2.record is None && popped(w2, st),
{
}

/// Settling, waiting for the answer to `c` in place `w`, is on its way back to `orig`.
pub open spec fn settle_goes_back(m: Settle, c: GitCall, w: Place, orig: Seq<char>, st: Option<Seq<char>>) -> bool {
    match m.stage {
        SettleStage::Probing => c is InProgress && records_with(w, orig, st),
        SettleStage::Restoring(rm) => restore_goes_back(rm, c, w, orig, st),
    }
}

/// Settling keeps on its way back to the recorded branch; it is done only there, and when
/// the operation is still in progress the record still names that branch.
pub proof fn law_settle_goes_back(
    m: Settle,
    c: GitCall,
    w: Place,
    orig: Seq<char>,
    st: Option<Seq<char>>,
    r: Reply,
    w2: Place,
    s: Step<Settle, Result<Outcome, String>>,
)
    requires
        settle_goes_back(m, c, w, orig, st),
        answers(w, c, r, w2),
        settle_next(m, r, s),
    ensures
        s matches Step::Ask(m2, c2) ==> settle_goes_back(m2, c2, w2, orig, st),
        s matches Step::Finish(Ok(Outcome::Done(_))) ==> w2.head == orig && w2.record is None && popped(w2, st),
        s matches Step::Finish(Ok(Outcome::Stopped)) ==> records_with(w2, orig, st),
{
    if let SettleStage::Restoring(rm) = m.stage {
        let t = choose|t: Step<Restore, Result<(), String>>|
            #[trigger] restore_next(rm, r, t) && match t {
                Step::Ask(rm2, c) => s == Step::<Settle, Result<Outcome, String>>::Ask(
                    Settle { stage: SettleStage::Restoring(rm2), ..m },
                    c,
                ),
                Step::Finish(restored) => s matches Step::Finish(o) && settled(m.result, restored, m.done, o),
            };
        law_restore_goes_back(rm, c, w, orig, st, r, w2, t);
    }
}

/// Where a merge / rebase stands on its way from `h0`, the branch checked out when it
/// began, waiting for the answer to `c` in place `w`: until the record is saved nothing
/// moves off `h0`, the record saved names `h0`, and from then on the record names it.
pub open spec fn start_goes_back(m: Start, c: GitCall, w: Place, h0: Seq<char>) -> bool {
    match m.stage {
        StartStage::ReadingHead => c is HeadRef && w.head == h0,
        StartStage::CheckingDirty { orig } => c is IsDirty && w.head == h0 && orig@ == h0,
        StartStage::Stashing { orig } => c is StashPush && w.head == h0 && orig@ == h0,
        StartStage::Saving => c matches GitCall::SavePending { pending } && pending.orig@ == h0,
        StartStage::CheckingOut | StartStage::Running => !(c is SavePending) && !(c is ClearPending) && records(w, h0),
        StartStage::Settling(sm) => exists|st: Option<Seq<char>>| settle_goes_back(sm, c, w, h0, st),
        _ => !moves_head(c) && w.head == h0,
    }
}

/// Beginning a merge / rebase sets out from the branch checked out.
pub proof fn law_start_sets_out(op: Op, branch: String, target: String, autostash: bool, w: Place)
    ensures
        start_goes_back(
            Start { op, branch, target, autostash, stage: StartStage::ParsingBranch },
            GitCall::RevParse { rev: branch },
            w,
            w.head,
        ),
{
}

/// A merge / rebase leaves the user on the branch they started on: every step keeps it on
/// its way back there, it is done only there, and when it stops on conflicts the record
/// names that branch for continuing or aborting.
pub proof fn law_start_goes_back(
    m: Start,
    c: GitCall,
    w: Place,
    h0: Seq<char>,
    r: Reply,
    w2: Place,
    s: Step<Start, Result<Outcome, String>>,
)
    requires
        start_goes_back(m, c, w, h0),
        answers(w, c, r, w2),
        start_next(m, r, s),
    ensures
        s matches Step::Ask(m2, c2) ==> start_goes_back(m2, c2, w2, h0),
        s matches Step::Finish(Ok(Outcome::Done(_))) ==> w2.head == h0,
        s matches Step::Finish(Ok(Outcome::Stopped)) ==> records(w2, h0),
{
    match m.stage {
        StartStage::CheckingOut | StartStage::Running => {
            if !(r is Done) || m.stage is Running {
                let e = choose|e: String| e@ == failure_of(r) && #[trigger] start_settles(m, Err(e), s);
                if r is Done {
                    let t = choose|t: Step<Settle, Result<Outcome, String>>|
                        #[trigger] settle_begins(Ok(()), t->Ask_0.done, t) && t->Ask_0.done@ == m.done()
                            && s == Step::<Start, Result<Outcome, String>>::Ask(m.at(StartStage::Settling(t->Ask_0)), t->Ask_1);
                } else {
                    let t = choose|t: Step<Settle, Result<Outcome, String>>|
                        #[trigger] settle_begins(Err(e), t->Ask_0.done, t) && t->Ask_0.done@ == m.done()
                            && s == Step::<Start, Result<Outcome, String>>::Ask(m.at(StartStage::Settling(t->Ask_0)), t->Ask_1);
                }
            }
            if let Step::Ask(m2, c2) = s {
                if let StartStage::Settling(sm2) = m2.stage {
                    assert(settle_goes_back(sm2, c2, w2, h0, stash_name(w.record->0.stash)));
                }
            }
        },
        StartStage::Settling(sm) => {
            let t = choose|t: Step<Settle, Result<Outcome, String>>|
                #[trigger] settle_next(sm, r, t) && match t {
                    Step::Ask(sm2, c) => s == Step::<Start, Result<Outcome, String>>::Ask(
                        m.at(StartStage::Settling(sm2)),
                        c,
                    ),
                    Step::Finish(o) => s == Step::<Start, Result<Outcome, String>>::Finish(o),
                };
            let st = choose|st: Option<Seq<char>>| settle_goes_back(sm, c, w, h0, st);
            law_settle_goes_back(sm, c, w, h0, st, r, w2, t);
            if let Step::Ask(m2, c2) = s {
                assert(settle_goes_back(m2.stage->Settling_0, c2, w2, h0, st));
            }
        },
        _ => {},
    }
}

/// Continuing an operation whose record names `orig`, waiting for the answer to `c` in place
/// `w`: the record still names `orig` until settling goes back there.
pub open spec fn resume_goes_back(m: Resume, c: GitCall, w: Place, orig: Seq<char>, st: Option<Seq<char>>) -> bool {
    match m {
        Resume::Probing => c is InProgress && records_with(w, orig, st),
        Resume::Listing { .. } => c is ConflictedFiles && records_with(w, orig, st),
        Resume::Locating { .. } => c is Toplevel && records_with(w, orig, st),
        Resume::Scanning { .. } => c is ReadFile && records_with(w, orig, st),
        Resume::Adding { .. } => c is Add && records_with(w, orig, st),
        Resume::Loading { .. } => c is LoadPending && records_with(w, orig, st),
        Resume::Running { op, .. } => c == continue_call(op) && records_with(w, orig, st),
        Resume::Settling(sm) => settle_goes_back(sm, c, w, orig, st),
    }
}

/// Continuing a merge / rebase that gim started, and recorded, also ends on the branch it
/// started on: every step keeps it on its way back there, it is done only there, and when
/// it stops again the record still names that branch.
pub proof fn law_resume_goes_back(
    m: Resume,
    c: GitCall,
    w: Place,
    orig: Seq<char>,
    st: Option<Seq<char>>,
    r: Reply,
    w2: Place,
    s: Step<Resume, Result<Outcome, String>>,
)
    requires
        resume_goes_back(m, c, w, orig, st),
        answers(w, c, r, w2),
        resume_next(m, r, s),
    ensures
        s matches Step::Ask(m2, c2) ==> resume_goes_back(m2, c2, w2, orig, st),
        s matches Step::Finish(Ok(Outcome::Done(_))) ==> w2.head == orig && w2.record is None && popped(w2, st),
        s matches Step::Finish(Ok(Outcome::Stopped)) ==> records_with(w2, orig, st),
{
    match m {
        Resume::Running { op, done } => {
            if r is Done {
                let t = choose|t: Step<Settle, Result<Outcome, String>>|
                    #[trigger] settle_begins(Ok(()), done, t)
                        && s == Step::<Resume, Result<Outcome, String>>::Ask(Resume::Settling(t->Ask_0), t->Ask_1);
            } else {
                let e = choose|e: String| e@ == failure_of(r) && #[trigger] resume_settles(Err(e), done, s);
                let t = choose|t: Step<Settle, Result<Outcome, String>>|
                    #[trigger] settle_begins(Err(e), done, t)
                        && s == Step::<Resume, Result<Outcome, String>>::Ask(Resume::Settling(t->Ask_0), t->Ask_1);
            }
        },
        Resume::Settling(sm) => {
            let t = choose|t: Step<Settle, Result<Outcome, String>>|
                #[trigger] settle_next(sm, r, t) && match t {
                    Step::Ask(sm2, c) => s == Step::<Resume, Result<Outcome, String>>::Ask(Resume::Settling(sm2), c),
                    Step::Finish(o) => s == Step::<Resume, Result<Outcome, String>>::Finish(o),
                };
            law_settle_goes_back(sm, c, w, orig, st, r, w2, t);
        },
        _ => {},
    }
}

/// Aborting an operation whose record names `orig`, waiting for the answer to `c` in place `w`.
pub open spec fn abort_goes_back(m: Abort, c: GitCall, w: Place, orig: Seq<char>, st: Option<Seq<char>>) -> bool {
    match m {
        Abort::Probing => c is InProgress && records_with(w, orig, st),
        Abort::Aborting { op } => c == abort_call(op) && records_with(w, orig, st),
        Abort::Restoring { rm, .. } => restore_goes_back(rm, c, w, orig, st),
    }
}

/// Aborting a merge / rebase that gim started, and recorded, ends on the branch it started
/// on: every step keeps it on its way back there, and it finishes well only there.
pub proof fn law_abort_goes_back(
    m: Abort,
    c: GitCall,
    w: Place,
    orig: Seq<char>,
    st: Option<Seq<char>>,
    r: Reply,
    w2: Place,
    s: Step<Abort, Result<String, String>>,
)
    requires
        abort_goes_back(m, c, w, orig, st),
        answers(w, c, r, w2),
        abort_next(m, r, s),
    ensures
        s matches Step::Ask(m2, c2) ==> abort_goes_back(m2, c2, w2, orig, st),
        s matches Step::Finish(Ok(_)) ==> w2.head == orig && w2.record is None && popped(w2, st),
{
    if let Abort::Restoring { op, rm } = m {
        let t = choose|t: Step<Restore, Result<(), String>>|
            #[trigger] restore_next(rm, r, t) && match t {
                Step::Ask(rm2, c) => s == Step::<Abort, Result<String, String>>::Ask(
                    Abort::Restoring { op, rm: rm2 },
                    c,
                ),
                Step::Finish(Err(e)) => s == Step::<Abort, Result<String, String>>::Finish(Err(e)),
                Step::Finish(Ok(())) => s matches Step::Finish(Ok(msg)) && msg@ == op_name(op) + " aborted"@,
            };
        law_restore_goes_back(rm, c, w, orig, st, r, w2, t);
    }
}

/// Continuing and aborting set out from a record that names where to go back to.
pub proof fn law_record_sets_out(w: Place, orig: Seq<char>, st: Option<Seq<char>>)
    requires
        records_with(w, orig, st),
    ensures
        resume_goes_back(Resume::Probing, GitCall::InProgress, w, orig, st),
        abort_goes_back(Abort::Probing, GitCall::InProgress, w, orig, st),
{
}

// ---------------------------------------------------------------------------
// Stopping again, and finishing

/// Continuing fails, and git still has the operation in progress (it stopped on new
/// conflicts): continuing stops again, asking git nothing more, and the record still names
/// the branch to go back to, for the next try.
pub proof fn law_failed_continue_stops_again(
    op: Op,
    done: String,
    orig: Seq<char>,
    w0: Place,
    r1: Reply,
    w1: Place,
    m1: Resume,
    c1: GitCall,
    r2: Reply,
    w2: Place,
    s2: Step<Resume, Result<Outcome, String>>,
)
    requires
        records(w0, orig),
        !(r1 is Done),
        answers(w0, continue_call(op), r1, w1),
        resume_next(Resume::Running { op, done }, r1, Step::Ask(m1, c1)),
        answers(w1, c1, r2, w2),
        r2 matches Reply::State(Some(_)),
        resume_next(m1, r2, s2),
    ensures
        c1 is InProgress,
        s2 == Step::<Resume, Result<Outcome, String>>::Finish(Ok(Outcome::Stopped)),
        records(w2, orig),
{
    let e = choose|e: String| e@ == failure_of(r1) && #[trigger] resume_settles(Err(e), done, Step::Ask(m1, c1));
    let t = choose|t: Step<Settle, Result<Outcome, String>>|
        #[trigger] settle_begins(Err(e), done, t)
            && Step::<Resume, Result<Outcome, String>>::Ask(m1, c1) == Step::<Resume, Result<Outcome, String>>::Ask(
            Resume::Settling(t->Ask_0),
            t->Ask_1,
        );
    let sm = t->Ask_0;
    let u = choose|u: Step<Settle, Result<Outcome, String>>|
        #[trigger] settle_next(sm, r2, u) && match u {
            Step::Ask(sm2, c) => s2 == Step::<Resume, Result<Outcome, String>>::Ask(Resume::Settling(sm2), c),
            Step::Finish(o) => s2 == Step::<Resume, Result<Outcome, String>>::Finish(o),
        };
}

/// A successful answer to `c`: what git says when the call goes through and, for the
/// files read while continuing, when their conflicts are resolved.
pub open spec fn succeeds(c: GitCall, r: Reply) -> bool {
    match c {
        GitCall::InProgress => r matches Reply::State(Some(_)),
        GitCall::ConflictedFiles => r is Texts,
        GitCall::Toplevel | GitCall::HeadRef | GitCall::StashPush | GitCall::RevParse { .. }
        | GitCall::CommitTree { .. } => r is Text,
        GitCall::ReadFile { .. } => r matches Reply::MaybeText(t) && !(t matches Some(x) && has_markers(x@)),
        GitCall::LoadPending => r is Record,
        _ => r is Done,
    }
}

/// `a` comes before `b` in the order in which the procedures move on.
pub open spec fn earlier(a: (int, int), b: (int, int)) -> bool {
    0 <= a.0 && 0 <= a.1 && (a.0 < b.0 || (a.0 == b.0 && a.1 < b.1))
}

pub open spec fn restore_rank(m: Restore) -> int {
    match m {
        Restore::Loading => 5,
        Restore::Clearing { .. } => 4,
        Restore::Checking { .. } => 3,
        Restore::CheckingOut { .. } => 2,
        Restore::Popping { .. } => 1,
    }
}

/// How far continuing is from its end: the stage, and within the scan the files left.
pub open spec fn resume_rank(m: Resume) -> (int, int) {
    match m {
        Resume::Probing => (9, 0),
        Resume::Listing { .. } => (8, 0),
        Resume::Locating { .. } => (7, 0),
        Resume::Scanning { files, i, .. } => (6, files@.len() - i),
        Resume::Adding { .. } => (5, 0),
        Resume::Loading { .. } => (4, 0),
        Resume::Running { .. } => (3, 0),
        Resume::Settling(sm) => match sm.stage {
            SettleStage::Probing => (2, 6),
            SettleStage::Restoring(rm) => (2, restore_rank(rm)),
        },
    }
}

/// The call restoring waits for in each stage.
pub open spec fn restore_asks(m: Restore, c: GitCall) -> bool {
    match m {
        Restore::Loading => c is LoadPending,
        Restore::Clearing { .. } => c is ClearPending,
        Restore::Checking { .. } => c is HeadRef,
        Restore::CheckingOut { .. } => c is Checkout,
        Restore::Popping { .. } => c is StashPop,
    }
}

/// Continuing, waiting for the answer to `c`, with every earlier call answered successfully.
pub open spec fn resume_on_track(m: Resume, c: GitCall) -> bool {
    &&& m.wf()
    &&& match m {
        Resume::Probing => c is InProgress,
        Resume::Listing { .. } => c is ConflictedFiles,
        Resume::Locating { .. } => c is Toplevel,
        Resume::Scanning { .. } => c is ReadFile,
        Resume::Adding { .. } => c is Add,
        Resume::Loading { .. } => c is LoadPending,
        Resume::Running { op, .. } => c == continue_call(op),
        Resume::Settling(sm) => sm.result is Ok && (sm.stage matches SettleStage::Restoring(rm) && restore_asks(rm, c)),
    }
}

/// Continuing sets out on track.
pub proof fn law_resume_sets_out()
    ensures
        resume_on_track(Resume::Probing, GitCall::InProgress),
{
}

/// With git answering every call successfully, continuing moves on at each step (so it
/// ends) and finishes done: it neither fails nor stops again.
pub proof fn law_resume_finishes(m: Resume, c: GitCall, r: Reply, s: Step<Resume, Result<Outcome, String>>)
    requires
        resume_on_track(m, c),
        succeeds(c, r),
        resume_next(m, r, s),
    ensures
        s matches Step::Finish(o) ==> o matches Ok(Outcome::Done(_)),
        s matches Step::Ask(m2, c2) ==> earlier(resume_rank(m2), resume_rank(m)) && resume_on_track(m2, c2),
{
    match m {
        Resume::Running { op, done } => {
            let t = choose|t: Step<Settle, Result<Outcome, String>>|
                #[trigger] settle_begins(Ok(()), done, t)
                    && s == Step::<Resume, Result<Outcome, String>>::Ask(Resume::Settling(t->Ask_0), t->Ask_1);
        },
        Resume::Settling(sm) => {
            let t = choose|t: Step<Settle, Result<Outcome, String>>|
                #[trigger] settle_next(sm, r, t) && match t {
                    Step::Ask(sm2, c) => s == Step::<Resume, Result<Outcome, String>>::Ask(Resume::Settling(sm2), c),
                    Step::Finish(o) => s == Step::<Resume, Result<Outcome, String>>::Finish(o),
                };
            if let SettleStage::Restoring(rm) = sm.stage {
                let u = choose|u: Step<Restore, Result<(), String>>|
                    #[trigger] restore_next(rm, r, u) && match u {
                        Step::Ask(rm2, c) => t == Step::<Settle, Result<Outcome, String>>::Ask(
                            Settle { stage: SettleStage::Restoring(rm2), ..sm },
                            c,
                        ),
                        Step::Finish(restored) => t matches Step::Finish(o) && settled(sm.result, restored, sm.done, o),
                    };
            }
        },
        Resume::Scanning { op, files, top, i } => {
            if !(r matches Reply::MaybeText(Some(text)) && has_markers(text@)) {
                assert(files.len() == files@.len());
            }
        },
        _ => {},
    }
}

/// Aborting, waiting for the answer to `c`, with every earlier call answered successfully.
pub open spec fn abort_on_track(m: Abort, c: GitCall) -> bool {
    match m {
        Abort::Probing => c is InProgress,
        Abort::Aborting { op } => c == abort_call(op),
        Abort::Restoring { rm, .. } => restore_asks(rm, c),
    }
}

pub open spec fn abort_rank(m: Abort) -> (int, int) {
    match m {
        Abort::Probing => (3, 0),
        Abort::Aborting { .. } => (2, 0),
        Abort::Restoring { rm, .. } => (1, restore_rank(rm)),
    }
}

/// Aborting sets out on track.
pub proof fn law_abort_sets_out()
    ensures
        abort_on_track(Abort::Probing, GitCall::InProgress),
{
}

/// With git answering every call successfully, aborting moves on at each step (so it ends)
/// and finishes saying which operation it aborted.
pub proof fn law_abort_finishes(m: Abort, c: GitCall, r: Reply, s: Step<Abort, Result<String, String>>)
    requires
        abort_on_track(m, c),
        succeeds(c, r),
        abort_next(m, r, s),
    ensures
        s matches Step::Finish(o) ==> (m is Restoring && (o matches Ok(msg) && msg@ == op_name(m->Restoring_op) + " aborted"@)),
        s matches Step::Ask(m2, c2) ==> earlier(abort_rank(m2), abort_rank(m)) && abort_on_track(m2, c2),
{
    if let Abort::Restoring { op, rm } = m {
        let t = choose|t: Step<Restore, Result<(), String>>|
            #[trigger] restore_next(rm, r, t) && match t {
                Step::Ask(rm2, c) => s == Step::<Abort, Result<String, String>>::Ask(
                    Abort::Restoring { op, rm: rm2 },
                    c,
                ),
                Step::Finish(Err(e)) => s == Step::<Abort, Result<String, String>>::Finish(Err(e)),
                Step::Finish(Ok(())) => s matches Step::Finish(Ok(msg)) && msg@ == op_name(op) + " aborted"@,
            };
    }
}

// ---------------------------------------------------------------------------
// Asking git the right questions

/// Starting reads the commit of the branch first, then that of the target.
pub proof fn law_start_reads_both_commits(op: Op, branch: String, target: String, autostash: bool, r: Reply, s: Step<Start, Result<Outcome, String>>)
    requires
        start_next(Start { op, branch, target, autostash, stage: StartStage::ParsingBranch }, r, s),
        r is Text,
    ensures
        s matches Step::Ask(m2, GitCall::RevParse { rev }) && rev == target
            && m2.stage == (StartStage::ParsingTarget { b: r->Text_0 }),
{
}

/// With both commits known, starting asks git whether there is anything to do: for a
/// merge, whether the branch's commit is already in the target (an ancestor of the
/// target's commit); for a rebase, whether the target's commit is already in the branch.
/// It finishes as already done only on git's yes to that question, and goes on otherwise.
pub proof fn law_start_asks_whether_contained(
    m: Start,
    b: String,
    t: String,
    s1: Step<Start, Result<Outcome, String>>,
    r2: Reply,
    s2: Step<Start, Result<Outcome, String>>,
)
    requires
        m.stage == (StartStage::ParsingTarget { b }),
        start_next(m, Reply::Text(t), s1),
        s1 matches Step::Ask(m1, _) && start_next(m1, r2, s2),
    ensures
        s1 matches Step::Ask(_, GitCall::IsAncestor { ancestor, descendant }) && (m.op == Op::Merge ==> ancestor == b
            && descendant == t) && (m.op == Op::Rebase ==> ancestor == t && descendant == b),
        r2 == Reply::Flag(true) ==> s2 matches Step::Finish(Ok(Outcome::Done(_))),
        r2 == Reply::Flag(false) ==> s2 is Ask,
        s2 matches Step::Finish(Ok(_)) ==> r2 == Reply::Flag(true),
{
}

/// What continuing is about: the operation git said is in progress.
pub open spec fn continuing(m: Resume) -> Option<Op> {
    match m {
        Resume::Listing { op } | Resume::Locating { op, .. } | Resume::Scanning { op, .. } | Resume::Adding { op }
        | Resume::Loading { op } | Resume::Running { op, .. } => Some(op),
        _ => None,
    }
}

/// Continuing works on the operation git reports in progress, from the report on, until
/// it runs the continuing call.
pub proof fn law_resume_keeps_to_the_operation(m: Resume, r: Reply, s: Step<Resume, Result<Outcome, String>>)
    requires
        m.wf(),
        resume_next(m, r, s),
    ensures
        m is Probing ==> (s matches Step::Ask(m2, _) ==> (r matches Reply::State(Some(op)) && continuing(m2) == Some(op))),
        continuing(m) is Some ==> (s matches Step::Ask(m2, _) ==> (m2 is Settling || continuing(m2) == continuing(m))),
{
}

/// The call that continues an operation is that operation's own: `git commit` for a
/// merge, `git rebase --continue` for a rebase; nothing else is asked for at that point.
pub proof fn law_continue_fits_the_operation(op: Op, r: Reply, s: Step<Resume, Result<Outcome, String>>)
    requires
        resume_next(Resume::Loading { op }, r, s),
        r is Record,
    ensures
        s matches Step::Ask(Resume::Running { op: o2, .. }, c) && o2 == op && (op == Op::Merge ==> c
            == GitCall::MergeContinue) && (op == Op::Rebase ==> c == GitCall::RebaseContinue),
{
}

/// The call that aborts an operation is that operation's own: `git merge --abort` for a
/// merge, `git rebase --abort` for a rebase, for the operation git reports in progress.
pub proof fn law_abort_fits_the_operation(op: Op, s: Step<Abort, Result<String, String>>)
    requires
        abort_next(Abort::Probing, Reply::State(Some(op)), s),
    ensures
        s matches Step::Ask(Abort::Aborting { op: o2 }, c) && o2 == op && (op == Op::Merge ==> c
            == GitCall::MergeAbort) && (op == Op::Rebase ==> c == GitCall::RebaseAbort),
{
}

/// Once git has aborted, what is aborted is the operation git reported, and the message
/// says so.
pub proof fn law_abort_names_the_operation(op: Op, rm: Restore, r: Reply, s: Step<Abort, Result<String, String>>)
    requires
        abort_next(Abort::Restoring { op, rm }, r, s),
    ensures
        s matches Step::Finish(Ok(msg)) ==> (op == Op::Merge ==> msg@ == "merge aborted"@) && (op == Op::Rebase
            ==> msg@ == "rebase aborted"@),
        s matches Step::Ask(Abort::Restoring { op: o2, .. }, _) ==> o2 == op,
{
    let t = choose|t: Step<Restore, Result<(), String>>|
        #[trigger] restore_next(rm, r, t) && match t {
            Step::Ask(rm2, c) => s == Step::<Abort, Result<String, String>>::Ask(Abort::Restoring { op, rm: rm2 }, c),
            Step::Finish(Err(e)) => s == Step::<Abort, Result<String, String>>::Finish(Err(e)),
            Step::Finish(Ok(())) => s matches Step::Finish(Ok(msg)) && msg@ == op_name(op) + " aborted"@,
        };
    reveal_strlit("merge");
    reveal_strlit("rebase");
    reveal_strlit(" aborted");
    reveal_strlit("merge aborted");
    reveal_strlit("rebase aborted");
    assert("merge"@ + " aborted"@ =~= "merge aborted"@);
    assert("rebase"@ + " aborted"@ =~= "rebase aborted"@);
}

/// A merge into a branch that is not checked out: git is asked whether the target's commit
/// is in the branch (a fast-forward); if so the target is moved to the branch's commit,
/// from the target's; a merge into the branch checked out goes to the working tree.
pub proof fn law_merge_elsewhere_fast_forwards(
    m: Start,
    b: String,
    t: String,
    cur: Option<String>,
    s1: Step<Start, Result<Outcome, String>>,
    s2: Step<Start, Result<Outcome, String>>,
)
    requires
        m.op == Op::Merge,
        m.stage == (StartStage::CheckingHead { b, t }),
        start_next(m, Reply::MaybeText(cur), s1),
        start_next(m.at(StartStage::CheckingFastForward { b, t }), Reply::Flag(true), s2),
    ensures
        (cur matches Some(x) && x@ == m.target@) ==> s1 matches Step::Ask(_, GitCall::HeadRef),
        !(cur matches Some(x) && x@ == m.target@) ==> (s1 matches Step::Ask(_, GitCall::IsAncestor { ancestor, descendant })
            && ancestor == t && descendant == b),
        s2 matches Step::Ask(_, GitCall::UpdateBranch { name, new, old, .. }) && name == m.target && new == b && old == t,
{
}

/// A merge into a branch that is not checked out and cannot fast-forward: the trees of the
/// target's commit (ours) and the branch's (theirs) are merged; a clean tree is committed
/// with the target's commit as first parent and the branch's as second, and the target is
/// moved from its commit to that one. Conflicts send it to the working tree.
pub proof fn law_merge_elsewhere_commits_both_parents(
    m: Start,
    b: String,
    t: String,
    s1: Step<Start, Result<Outcome, String>>,
    tree: Option<String>,
    s2: Step<Start, Result<Outcome, String>>,
    commit: String,
    s3: Step<Start, Result<Outcome, String>>,
)
    requires
        m.op == Op::Merge,
        start_next(m.at(StartStage::CheckingFastForward { b, t }), Reply::Flag(false), s1),
        start_next(m.at(StartStage::MergingTrees { b, t }), Reply::MaybeText(tree), s2),
        start_next(m.at(StartStage::Committing { t }), Reply::Text(commit), s3),
    ensures
        s1 matches Step::Ask(_, GitCall::MergeTree { ours, theirs }) && ours == t && theirs == b,
        tree matches Some(x) ==> (s2 matches Step::Ask(_, GitCall::CommitTree { tree: tr, parents, .. }) && tr == x
            && parents@ == seq![t, b]),
        tree is None ==> s2 matches Step::Ask(_, GitCall::HeadRef),
        s3 matches Step::Ask(_, GitCall::UpdateBranch { name, new, old, .. }) && name == m.target && new == commit
            && old == t,
{
}

/// Once where to come back to is saved, a merge checks the target out and merges the
/// branch into it; a rebase rebases the branch onto the target.
pub proof fn law_worktree_step_fits_the_operation(
    m: Start,
    s1: Step<Start, Result<Outcome, String>>,
    s2: Step<Start, Result<Outcome, String>>,
)
    requires
        start_next(m.at(StartStage::Saving), Reply::Done, s1),
        start_next(m.at(StartStage::CheckingOut), Reply::Done, s2),
    ensures
        m.op == Op::Merge ==> (s1 matches Step::Ask(_, GitCall::Checkout { name }) && name == m.target),
        m.op == Op::Merge ==> (s2 matches Step::Ask(_, GitCall::Merge { branch }) && branch == m.branch),
        m.op == Op::Rebase ==> (s1 matches Step::Ask(_, GitCall::Rebase { branch, onto }) && branch == m.branch
            && onto == m.target),
{
}

/// Continuing reads every conflicted file, from the top level, in turn: it refuses on the
/// first that still holds conflict markers, naming it, and once all are clean stages them
/// all.
pub proof fn law_resume_checks_every_file(
    op: Op,
    files: Vec<String>,
    top: String,
    i: usize,
    r: Reply,
    s: Step<Resume, Result<Outcome, String>>,
)
    requires
        i < files@.len(),
        resume_next(Resume::Scanning { op, files, top, i }, r, s),
    ensures
        (r matches Reply::MaybeText(Some(x)) && has_markers(x@)) ==> (s matches Step::Finish(Err(e)) && e@
            == files@[i as int]@ + " still has conflict markers"@),
        !(r matches Reply::MaybeText(Some(x)) && has_markers(x@)) && i + 1 < files@.len() ==> (s matches Step::Ask(
            _,
            GitCall::ReadFile { dir, path },
        ) && dir == top && path == files@[i + 1]),
        !(r matches Reply::MaybeText(Some(x)) && has_markers(x@)) && i + 1 == files@.len() ==> (s matches Step::Ask(
            _,
            GitCall::Add { files: fs },
        ) && fs@ == files@),
{
}

/// Settling a failed step stops (keeping the operation open for continuing or aborting)
/// exactly when git still has an operation in progress; otherwise it goes back to where
/// the user started.
pub proof fn law_settle_stops_only_in_progress(m: Settle, r: Reply, s: Step<Settle, Result<Outcome, String>>)
    requires
        m.stage is Probing,
        settle_next(m, r, s),
    ensures
        (s == Step::<Settle, Result<Outcome, String>>::Finish(Ok(Outcome::Stopped))) <==> (r matches Reply::State(Some(_))),
        r == Reply::State(None) ==> s matches Step::Ask(_, GitCall::LoadPending),
{
}

/// Finding what is in progress reports exactly what git says: nothing when git reports no
/// operation, else git's operation with git's list of unresolved files, after reading the
/// record (which only supplies the description).
pub proof fn law_probe_reports_what_git_says(
    op: Op,
    desc: String,
    files: Vec<String>,
    r: Reply,
    s0: Step<Probe, Result<Option<Operation>, String>>,
    s1: Step<Probe, Result<Option<Operation>, String>>,
    s2: Step<Probe, Result<Option<Operation>, String>>,
)
    requires
        probe_next(Probe::Asking, r, s0),
        probe_next(Probe::Loading { op }, Reply::Record(None), s1),
        probe_next(Probe::Listing { op, desc }, Reply::Texts(files), s2),
    ensures
        r == Reply::State(None) ==> s0 == Step::<Probe, Result<Option<Operation>, String>>::Finish(Ok(None)),
        r == Reply::State(Some(op)) ==> (s0 matches Step::Ask(Probe::Loading { op: o }, GitCall::LoadPending) && o == op),
        s1 matches Step::Ask(Probe::Listing { op: o, .. }, GitCall::ConflictedFiles) && o == op,
        s2 matches Step::Finish(Ok(Some(o))) && o.op == op && o.desc == desc && o.conflicts == files,
{
}

/// Continuing starts its check with the first conflicted file, read from the top level;
/// with no file left unresolved it goes straight on to the record and the continuing call.
pub proof fn law_resume_starts_with_the_first_file(op: Op, files: Vec<String>, top: String, s: Step<Resume, Result<Outcome, String>>)
    requires
        resume_next(Resume::Locating { op, files }, Reply::Text(top), s),
    ensures
        files@.len() > 0 ==> (s matches Step::Ask(_, GitCall::ReadFile { dir, path }) && dir == top && path == files@[0]),
        files@.len() == 0 ==> s matches Step::Ask(_, GitCall::LoadPending),
{
}

} // verus!
