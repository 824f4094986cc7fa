use gim::git::{GitCall, Op, Pending, Reply};
use gim::ops::{self, Outcome, Step};

fn text(s: &str) -> Reply {
    Reply::Text(s.to_string())
}

fn ask<M, R: std::fmt::Debug>(s: Step<M, R>) -> (M, GitCall) {
    match s {
        Step::Ask(m, c) => (m, c),
        Step::Finish(r) => panic!("finished early: {r:?}"),
    }
}

fn finish<M, R>(s: Step<M, R>) -> R {
    match s {
        Step::Finish(r) => r,
        Step::Ask(_, c) => panic!("still asking: {c:?}"),
    }
}

#[test]
fn merge_already_contained() {
    let (m, c) = ops::start(Op::Merge, "feat".into(), "dev".into(), false);
    assert!(matches!(c, GitCall::RevParse { ref rev } if rev == "feat"));
    let (m, c) = ask(m.step(text("b1")));
    assert!(matches!(c, GitCall::RevParse { ref rev } if rev == "dev"));
    let (m, c) = ask(m.step(text("t1")));
    assert!(matches!(c, GitCall::IsAncestor { ref ancestor, ref descendant } if ancestor == "b1" && descendant == "t1"));
    let r = finish(m.step(Reply::Flag(true)));
    assert_eq!(r, Ok(Outcome::Done("dev already contains feat".into())));
}

#[test]
fn fast_forward_of_a_branch_not_checked_out() {
    let (m, _) = ops::start(Op::Merge, "feat".into(), "dev".into(), false);
    let (m, _) = ask(m.step(text("b1")));
    let (m, _) = ask(m.step(text("t1")));
    let (m, c) = ask(m.step(Reply::Flag(false)));
    assert!(matches!(c, GitCall::CurrentBranch));
    let (m, c) = ask(m.step(Reply::MaybeText(Some("main".into()))));
    assert!(matches!(c, GitCall::IsAncestor { ref ancestor, ref descendant } if ancestor == "t1" && descendant == "b1"));
    let (m, c) = ask(m.step(Reply::Flag(true)));
    match c {
        GitCall::UpdateBranch { name, new, old, msg } => {
            assert_eq!((name.as_str(), new.as_str(), old.as_str()), ("dev", "b1", "t1"));
            assert_eq!(msg, "gim: merged feat into dev");
        }
        other => panic!("{other:?}"),
    }
    let r = finish(m.step(Reply::Done));
    assert_eq!(r, Ok(Outcome::Done("fast-forwarded dev to feat".into())));
}

#[test]
fn merge_into_other_branch_without_worktree() {
    let (m, _) = ops::start(Op::Merge, "feat".into(), "dev".into(), false);
    let (m, _) = ask(m.step(text("b1")));
    let (m, _) = ask(m.step(text("t1")));
    let (m, _) = ask(m.step(Reply::Flag(false)));
    let (m, _) = ask(m.step(Reply::MaybeText(None)));
    let (m, c) = ask(m.step(Reply::Flag(false)));
    assert!(matches!(c, GitCall::MergeTree { ref ours, ref theirs } if ours == "t1" && theirs == "b1"));
    let (m, c) = ask(m.step(Reply::MaybeText(Some("tree9".into()))));
    match c {
        GitCall::CommitTree { tree, parents, subject } => {
            assert_eq!(tree, "tree9");
            assert_eq!(parents, ["t1", "b1"]);
            assert_eq!(subject, "Merge branch 'feat' into dev");
        }
        other => panic!("{other:?}"),
    }
    let (m, c) = ask(m.step(text("c1")));
    assert!(matches!(c, GitCall::UpdateBranch { ref new, .. } if new == "c1"));
    assert_eq!(finish(m.step(Reply::Done)), Ok(Outcome::Done("merged feat into dev".into())));
}

#[test]
fn dirty_tree_refused_without_autostash() {
    let (m, _) = ops::start(Op::Rebase, "feat".into(), "main".into(), false);
    let (m, _) = ask(m.step(text("b1")));
    let (m, _) = ask(m.step(text("t1")));
    let (m, c) = ask(m.step(Reply::Flag(false)));
    assert!(matches!(c, GitCall::HeadRef));
    let (m, c) = ask(m.step(text("main")));
    assert!(matches!(c, GitCall::IsDirty));
    let r = finish(m.step(Reply::Flag(true)));
    let e = r.unwrap_err();
    assert!(e.contains("uncommitted"));
}

#[test]
fn rebase_with_autostash_records_and_restores() {
    let (m, _) = ops::start(Op::Rebase, "feat".into(), "main".into(), true);
    let (m, _) = ask(m.step(text("b1")));
    let (m, _) = ask(m.step(text("t1")));
    let (m, _) = ask(m.step(Reply::Flag(false)));
    let (m, _) = ask(m.step(text("main")));
    let (m, c) = ask(m.step(Reply::Flag(true)));
    assert!(matches!(c, GitCall::StashPush));
    let (m, c) = ask(m.step(text("s1")));
    let pending = match c {
        GitCall::SavePending { pending } => pending,
        other => panic!("{other:?}"),
    };
    assert_eq!(
        pending,
        Pending {
            orig: "main".into(),
            stash: Some("s1".into()),
            desc: "rebasing feat onto main".into(),
            done: "rebased feat onto main".into()
        }
    );
    let (m, c) = ask(m.step(Reply::Done));
    assert!(matches!(c, GitCall::Rebase { ref branch, ref onto } if branch == "feat" && onto == "main"));
    let (m, c) = ask(m.step(Reply::Done));
    assert!(matches!(c, GitCall::LoadPending));
    let (m, c) = ask(m.step(Reply::Record(Some(pending.clone()))));
    assert!(matches!(c, GitCall::ClearPending));
    let (m, c) = ask(m.step(Reply::Done));
    assert!(matches!(c, GitCall::HeadRef));
    let (m, c) = ask(m.step(text("feat")));
    assert!(matches!(c, GitCall::Checkout { ref name } if name == "main"));
    let (m, c) = ask(m.step(Reply::Done));
    assert!(matches!(c, GitCall::StashPop { ref stash } if stash == "s1"));
    assert_eq!(finish(m.step(Reply::Done)), Ok(Outcome::Done("rebased feat onto main".into())));
}

#[test]
fn merge_stops_on_conflicts() {
    let (m, _) = ops::start(Op::Merge, "feat".into(), "main".into(), false);
    let (m, _) = ask(m.step(text("b1")));
    let (m, _) = ask(m.step(text("t1")));
    let (m, _) = ask(m.step(Reply::Flag(false)));
    let (m, c) = ask(m.step(Reply::MaybeText(Some("main".into()))));
    assert!(matches!(c, GitCall::HeadRef));
    let (m, _) = ask(m.step(text("main")));
    let (m, _) = ask(m.step(Reply::Flag(false)));
    let (m, c) = ask(m.step(Reply::Done));
    assert!(matches!(c, GitCall::Checkout { ref name } if name == "main"));
    let (m, c) = ask(m.step(Reply::Done));
    assert!(matches!(c, GitCall::Merge { ref branch } if branch == "feat"));
    let (m, c) = ask(m.step(Reply::Failed("CONFLICT".into())));
    assert!(matches!(c, GitCall::InProgress));
    assert_eq!(finish(m.step(Reply::State(Some(Op::Merge)))), Ok(Outcome::Stopped));
}

#[test]
fn failures_carry_git_messages() {
    let (m, _) = ops::start(Op::Merge, "nope".into(), "main".into(), false);
    assert_eq!(finish(m.step(Reply::Failed("bad revision".into()))), Err("bad revision".into()));
    let (m, _) = ops::start(Op::Merge, "a".into(), "b".into(), false);
    assert_eq!(finish(m.step(Reply::Done)), Err("unexpected reply from git".into()));
}

#[test]
fn resume_refuses_while_markers_remain() {
    let (m, c) = ops::resume();
    assert!(matches!(c, GitCall::InProgress));
    let (m, c) = ask(m.step(Reply::State(Some(Op::Merge))));
    assert!(matches!(c, GitCall::ConflictedFiles));
    let (m, c) = ask(m.step(Reply::Texts(vec!["x".into(), "y".into()])));
    assert!(matches!(c, GitCall::Toplevel));
    let (m, c) = ask(m.step(text("/top")));
    assert!(matches!(c, GitCall::ReadFile { ref dir, ref path } if dir == "/top" && path == "x"));
    let (m, c) = ask(m.step(Reply::MaybeText(Some("fine\n".into()))));
    assert!(matches!(c, GitCall::ReadFile { ref path, .. } if path == "y"));
    let r = finish(m.step(Reply::MaybeText(Some("a\n<<<<<<< HEAD\nb\n".into()))));
    assert_eq!(r, Err("y still has conflict markers".into()));
}

#[test]
fn resume_stages_and_continues() {
    let (m, _) = ops::resume();
    let (m, _) = ask(m.step(Reply::State(Some(Op::Rebase))));
    let (m, _) = ask(m.step(Reply::Texts(vec!["x".into()])));
    let (m, _) = ask(m.step(text("/top")));
    let (m, c) = ask(m.step(Reply::MaybeText(None)));
    assert!(matches!(c, GitCall::Add { ref files } if files == &["x".to_string()]));
    let (m, c) = ask(m.step(Reply::Done));
    assert!(matches!(c, GitCall::LoadPending));
    let (m, c) = ask(m.step(Reply::Record(None)));
    assert!(matches!(c, GitCall::RebaseContinue));
    let (m, _) = ask(m.step(Reply::Done));
    let r = finish(m.step(Reply::Record(None)));
    assert_eq!(r, Ok(Outcome::Done("rebase completed".into())));
}

#[test]
fn nothing_to_resume_or_abort() {
    let (m, _) = ops::resume();
    assert_eq!(finish(m.step(Reply::State(None))), Err("no merge or rebase in progress".into()));
    let (m, _) = ops::abort();
    assert_eq!(finish(m.step(Reply::State(None))), Err("no merge or rebase in progress".into()));
}

#[test]
fn abort_reports_what_it_aborted() {
    let (m, _) = ops::abort();
    let (m, c) = ask(m.step(Reply::State(Some(Op::Merge))));
    assert!(matches!(c, GitCall::MergeAbort));
    let (m, c) = ask(m.step(Reply::Done));
    assert!(matches!(c, GitCall::LoadPending));
    assert_eq!(finish(m.step(Reply::Record(None))), Ok("merge aborted".to_string()));
}

#[test]
fn restore_reports_failed_checkout() {
    let (m, _) = ops::restore();
    let p = Pending { orig: "main".into(), stash: None, desc: "d".into(), done: "x".into() };
    let (m, _) = ask(m.step(Reply::Record(Some(p))));
    let (m, _) = ask(m.step(Reply::Done));
    let (m, _) = ask(m.step(text("dev")));
    let r = finish(m.step(Reply::Failed("dirty".into())));
    assert_eq!(r, Err("could not check main out again: dirty".into()));
}

#[test]
fn in_progress_without_record() {
    let (m, _) = ops::in_progress();
    let (m, c) = ask(m.step(Reply::State(Some(Op::Merge))));
    assert!(matches!(c, GitCall::LoadPending));
    let (m, _) = ask(m.step(Reply::Record(None)));
    let o = finish(m.step(Reply::Texts(vec!["x".into()]))).unwrap().unwrap();
    assert_eq!((o.op, o.desc.as_str(), o.conflicts.len()), (Op::Merge, "merge in progress", 1));
}

#[test]
fn conflict_markers() {
    assert!(ops::text_has_markers(">>>>>>> feat\r\n"));
    assert!(!ops::text_has_markers("<<<<<<<\n======= \n"));
    assert!(!ops::text_has_markers(""));
}

/// Enough of a repository to follow the branch checked out and gim's record: merges and
/// rebases stop on conflicts when `conflicts` is set.
struct Place {
    head: String,
    record: Option<Pending>,
    in_progress: Option<Op>,
    conflicts: bool,
    /// How many more times continuing stops on new conflicts.
    more_stops: u32,
}

impl Place {
    fn answer(&mut self, c: GitCall) -> Reply {
        match c {
            GitCall::RevParse { rev } => Reply::Text(format!("{rev}-commit")),
            GitCall::IsAncestor { .. } => Reply::Flag(false),
            GitCall::CurrentBranch => Reply::MaybeText(Some(self.head.clone())),
            GitCall::MergeTree { .. } => Reply::MaybeText(None),
            GitCall::HeadRef => Reply::Text(self.head.clone()),
            GitCall::IsDirty => Reply::Flag(false),
            GitCall::SavePending { pending } => {
                self.record = Some(pending);
                Reply::Done
            }
            GitCall::LoadPending => Reply::Record(self.record.clone()),
            GitCall::ClearPending => {
                self.record = None;
                Reply::Done
            }
            GitCall::Checkout { name } => {
                self.head = name;
                Reply::Done
            }
            GitCall::Merge { .. } => self.run(Op::Merge),
            GitCall::Rebase { branch, .. } => {
                self.head = branch;
                self.run(Op::Rebase)
            }
            GitCall::InProgress => Reply::State(self.in_progress),
            GitCall::ConflictedFiles => Reply::Texts(vec!["x".to_string()]),
            GitCall::Toplevel => text("/repo"),
            GitCall::ReadFile { .. } => Reply::MaybeText(Some("resolved\n".to_string())),
            GitCall::Add { .. } => Reply::Done,
            GitCall::MergeContinue | GitCall::RebaseContinue => {
                if self.more_stops > 0 {
                    self.more_stops -= 1;
                    Reply::Failed("CONFLICT (content): Merge conflict in y".to_string())
                } else {
                    self.in_progress = None;
                    Reply::Done
                }
            }
            GitCall::MergeAbort | GitCall::RebaseAbort => {
                self.in_progress = None;
                Reply::Done
            }
            other => panic!("not expected here: {other:?}"),
        }
    }

    fn run(&mut self, op: Op) -> Reply {
        if self.conflicts {
            self.in_progress = Some(op);
            Reply::Failed("CONFLICT (content)".to_string())
        } else {
            Reply::Done
        }
    }
}

fn place(head: &str, conflicts: bool) -> Place {
    Place { head: head.to_string(), record: None, in_progress: None, conflicts, more_stops: 0 }
}

fn run_start(p: &mut Place, op: Op, branch: &str, target: &str) -> Result<Outcome, String> {
    let (mut m, mut c) = ops::start(op, branch.into(), target.into(), false);
    loop {
        match m.step(p.answer(c)) {
            Step::Ask(m2, c2) => {
                m = m2;
                c = c2;
            }
            Step::Finish(r) => return r,
        }
    }
}

#[test]
fn merge_and_rebase_end_where_they_started() {
    let mut p = place("main", false);
    let r = run_start(&mut p, Op::Merge, "feat", "dev");
    assert_eq!(r, Ok(Outcome::Done("merged feat into dev".into())));
    assert_eq!(p.head, "main");
    assert!(p.record.is_none());

    let mut p = place("main", false);
    let r = run_start(&mut p, Op::Rebase, "feat", "dev");
    assert_eq!(r, Ok(Outcome::Done("rebased feat onto dev".into())));
    assert_eq!(p.head, "main");
}

#[test]
fn stopped_operation_returns_on_abort_and_on_continue() {
    let mut p = place("main", true);
    assert_eq!(run_start(&mut p, Op::Merge, "feat", "dev"), Ok(Outcome::Stopped));
    assert_eq!(p.head, "dev");
    assert_eq!(p.record.as_ref().map(|r| r.orig.as_str()), Some("main"));
    let (mut m, mut c) = ops::abort();
    let r = loop {
        match m.step(p.answer(c)) {
            Step::Ask(m2, c2) => {
                m = m2;
                c = c2;
            }
            Step::Finish(r) => break r,
        }
    };
    assert_eq!(r, Ok("merge aborted".to_string()));
    assert_eq!(p.head, "main");

    let mut p = place("main", true);
    assert_eq!(run_start(&mut p, Op::Rebase, "feat", "dev"), Ok(Outcome::Stopped));
    assert_eq!(p.head, "feat");
    let (mut m, mut c) = ops::resume();
    let r = loop {
        match m.step(p.answer(c)) {
            Step::Ask(m2, c2) => {
                m = m2;
                c = c2;
            }
            Step::Finish(r) => break r,
        }
    };
    assert_eq!(r, Ok(Outcome::Done("rebased feat onto dev".into())));
    assert_eq!(p.head, "main");
}

fn run_resume(p: &mut Place) -> Result<Outcome, String> {
    let (mut m, mut c) = ops::resume();
    loop {
        match m.step(p.answer(c)) {
            Step::Ask(m2, c2) => {
                m = m2;
                c = c2;
            }
            Step::Finish(r) => return r,
        }
    }
}

#[test]
fn continuing_stops_again_then_finishes() {
    let mut p = place("main", true);
    p.more_stops = 1;
    assert_eq!(run_start(&mut p, Op::Rebase, "feat", "dev"), Ok(Outcome::Stopped));
    // The next conflict: continuing stops again and keeps the record.
    assert_eq!(run_resume(&mut p), Ok(Outcome::Stopped));
    assert_eq!(p.in_progress, Some(Op::Rebase));
    assert_eq!(p.record.as_ref().map(|r| r.orig.as_str()), Some("main"));
    assert_eq!(p.head, "feat");
    // Resolved: continuing finishes back on main.
    assert_eq!(run_resume(&mut p), Ok(Outcome::Done("rebased feat onto dev".into())));
    assert_eq!(p.head, "main");
    assert!(p.record.is_none() && p.in_progress.is_none());
}
