//! Application state and key handling.
//!
//! The application is a machine driven from outside: key presses go to
//! `App::handle_key`; when the app needs something done in the repository it
//! returns a `GitCall`, and the answer comes back through `App::handle_reply`,
//! until no call is left. Only then does the next key press come in.

use vstd::prelude::*;
use vstd::string::*;

use crate::config::{names_key, Config, KeyCode, KeyEvent, NamedKey};
use crate::git::{failure_of, Branch, GitCall, Op, Reply, Repo};
use crate::input::{edit, LineInput};
use crate::ops::{
    abort_next, in_progress, probe_next, resume_next, start_next, Abort, Operation, Outcome, Probe,
    Resume, Start, Step,
};
use crate::text::{cat, cat3, cat4, debug_str, join, joined, split_words, trim, trimmed, views, words};

verus! {

#[derive(Debug, Clone, Copy, PartialEq, Eq, Structural)]
pub enum Mode {
    Normal,
    Visual,
    Rename,
    /// Prompting for a new branch name to `checkout -b` from the cursor branch.
    Create,
    Confirm,
    /// Choosing what to do with the merge / rebase in progress.
    Operation,
}

/// Choices offered for a merge / rebase in progress, in display order.
#[derive(Debug, Clone, Copy, PartialEq, Eq, Structural)]
pub enum Choice {
    Continue,
    Resolve,
    Abort,
}

/// The position of a choice in display order.
pub open spec fn choice_index(c: Choice) -> int {
    match c {
        Choice::Continue => 0,
        Choice::Resolve => 1,
        Choice::Abort => 2,
    }
}

/// The choice at a position in display order, counted round.
pub open spec fn choice_at(i: int) -> Choice {
    let k = i % 3;
    if k == 0 {
        Choice::Continue
    } else if k == 1 {
        Choice::Resolve
    } else {
        Choice::Abort
    }
}

impl Choice {
    /// All choices, in display order.
    pub fn all() -> (v: Vec<Choice>)
        ensures
            v@ == seq![Choice::Continue, Choice::Resolve, Choice::Abort],
    {
        let v = vec![Choice::Continue, Choice::Resolve, Choice::Abort];
        assert(v@ =~= seq![Choice::Continue, Choice::Resolve, Choice::Abort]);
        v
    }

    pub fn label(self) -> (s: &'static str)
        ensures
            s@ == match self {
                Choice::Continue => "continue"@,
                Choice::Resolve => "resolve"@,
                Choice::Abort => "abort"@,
            },
    {
        match self {
            Choice::Continue => "continue",
            Choice::Resolve => "resolve",
            Choice::Abort => "abort",
        }
    }

    /// The choice `delta` places further round.
    pub fn step(self, delta: isize) -> (c: Choice)
        requires
            delta <= isize::MAX - 2,
        ensures
            c == choice_at(choice_index(self) + delta),
    {
        let i: isize = match self {
            Choice::Continue => 0,
            Choice::Resolve => 1,
            Choice::Abort => 2,
        };
        let k = (i + delta).checked_rem_euclid(3).unwrap();
        if k == 0 {
            Choice::Continue
        } else if k == 1 {
            Choice::Resolve
        } else {
            Choice::Abort
        }
    }
}

/// Stepping forward and back again returns to the same choice; three steps go all the way round.
pub proof fn law_choice_cycle(c: Choice)
    ensures
        choice_at(choice_index(choice_at(choice_index(c) + 1)) - 1) == c,
        choice_at(choice_index(choice_at(choice_index(c) - 1)) + 1) == c,
        choice_at(choice_index(choice_at(choice_index(choice_at(choice_index(c) + 1)) + 1)) + 1) == c,
{
}

/// An editor to run with the terminal released; the event loop takes and runs it.
#[derive(Debug, Clone, PartialEq, Eq)]
pub struct EditorRequest {
    pub program: String,
    pub args: Vec<String>,
    /// The directory to run it in: the top level of the working tree.
    pub dir: String,
}

#[derive(Debug, Clone, PartialEq, Eq)]
pub struct Status {
    pub text: String,
    pub error: bool,
}

/// How the editor run for `EditorRequest` ended.
#[derive(Debug, Clone)]
pub enum EditorExit {
    /// It exited successfully.
    Success,
    /// It exited with a failure; how the exit status reads.
    Failed(String),
    /// It could not be run; the error.
    NotRun(String),
}

/// What to do once the branch list and the operation in progress are reloaded.
pub enum After {
    /// Report a failure to reload.
    Report,
    /// A branch was checked out.
    Switched { name: String },
    /// Branches were deleted (or not: `result`); the deleted block started at `lo`.
    Deleted { names: Vec<String>, lo: usize, result: Result<(), String> },
    /// A branch was renamed or created; `done` is the message.
    Edited { new: String, done: String },
    /// A merge / rebase step ended with `result`.
    Stepped { result: Result<Outcome, String> },
    /// The editor was closed.
    EditorClosed,
    /// The app is starting.
    Started,
}

/// The git work under way.
pub enum Task {
    Idle,
    /// Reloading: waiting for `ListBranches`.
    Listing { then: After },
    /// Reloading: finding the operation in progress.
    Probing { probe: Probe, then: After },
    /// Waiting for `Checkout` of `name`.
    CheckingOut { name: String },
    /// Waiting for `DeleteBranches`.
    Deleting { names: Vec<String>, lo: usize },
    /// Waiting for `RenameBranch` / `CheckoutNew`.
    Editing { new: String, done: String },
    Starting(Start),
    Resuming(Resume),
    Aborting(Abort),
    /// Resolving: waiting for `Toplevel`.
    Locating { files: Vec<String>, program: String, args: Vec<String> },
}

pub struct App {
    pub repo: Repo,
    pub cfg: Config,
    pub branches: Vec<Branch>,
    pub cursor: usize,
    /// Visual-mode anchor.
    pub anchor: usize,
    pub mode: Mode,
    /// Mode to return to when a prompt is cancelled.
    pub prev_mode: Mode,
    pub input: LineInput,
    /// Branch the input prompt acts on: the one being renamed, or the start point.
    pub input_target: String,
    pub pending_delete: Vec<String>,
    pub pending_force: bool,
    /// Branch yanked with `y`, merged / rebased with `p` / `P`.
    pub yanked: Option<String>,
    /// Merge / rebase in progress, refreshed on reload.
    pub operation: Option<Operation>,
    pub choice: Choice,
    pub editor_request: Option<EditorRequest>,
    pub status: Option<Status>,
    pub quit: bool,
    /// The git work under way; `Task::Idle` between key presses.
    pub task: Task,
}

/// The highest index of a list of `n` entries (0 for an empty list).
pub open spec fn last_index(n: int) -> int {
    if n > 0 {
        n - 1
    } else {
        0
    }
}

pub open spec fn min(a: int, b: int) -> int {
    if a <= b {
        a
    } else {
        b
    }
}

pub open spec fn max(a: int, b: int) -> int {
    if a >= b {
        a
    } else {
        b
    }
}

/// The names of branches `lo..=hi`.
pub open spec fn names_in(bs: Seq<Branch>, lo: int, hi: int) -> Seq<String> {
    bs.subrange(lo, hi + 1).map_values(|b: Branch| b.name)
}

/// The position of the first branch named `name`, if any.
pub open spec fn position_of(bs: Seq<Branch>, name: Seq<char>) -> Option<int> {
    if exists|i: int| 0 <= i < bs.len() && (#[trigger] bs[i]).name@ == name {
        Some(choose|i: int| 0 <= i < bs.len() && (#[trigger] bs[i]).name@ == name && forall|j: int| 0 <= j < i ==> bs[j].name@ != name)
    } else {
        None
    }
}

/// The position of the first branch that is checked out, if any.
pub open spec fn position_of_current(bs: Seq<Branch>) -> Option<int> {
    if exists|i: int| 0 <= i < bs.len() && (#[trigger] bs[i]).current {
        Some(choose|i: int| 0 <= i < bs.len() && (#[trigger] bs[i]).current && forall|j: int| 0 <= j < i ==> !bs[j].current)
    } else {
        None
    }
}

/// `b` is `a` with the status set to `text` (an error or not); nothing else changes.
pub open spec fn status_set(a: App, b: App, text: Seq<char>, error: bool) -> bool {
    &&& b.status matches Some(s) && s.text@ == text && s.error == error
    &&& b == App { status: b.status, ..a }
}

impl App {
    /// The cursor and the anchor are on the list, the line input's cursor on its line, and
    /// a resumed operation looks only at files it has.
    pub open spec fn wf(self) -> bool {
        &&& self.cursor <= last_index(self.branches@.len() as int)
        &&& self.anchor <= last_index(self.branches@.len() as int)
        &&& self.input.wf()
        &&& self.task matches Task::Resuming(m) ==> m.wf()
    }

    pub open spec fn idle(self) -> bool {
        self.task is Idle
    }

    pub open spec fn visual(self) -> bool {
        self.mode == Mode::Visual || (self.mode == Mode::Confirm && self.prev_mode == Mode::Visual)
    }

    pub open spec fn selected(self) -> (int, int) {
        if self.visual() {
            (min(self.anchor as int, self.cursor as int), max(self.anchor as int, self.cursor as int))
        } else {
            (self.cursor as int, self.cursor as int)
        }
    }

    /// The name of the branch on the cursor, if there is one.
    pub open spec fn cursor_branch(self) -> Option<String> {
        if self.cursor < self.branches@.len() {
            Some(self.branches@[self.cursor as int].name)
        } else {
            None
        }
    }

    /// The names the next delete applies to.
    pub open spec fn selected_names(self) -> Seq<String> {
        if self.branches@.len() == 0 {
            Seq::empty()
        } else {
            names_in(self.branches@, self.selected().0, self.selected().1)
        }
    }
}

// ---------------------------------------------------------------------------
// The contract of each reaction, as a relation between the app before (`a`), the app
// after (`b`), and the git call asked for (`c`).

/// Starting to reload, to go on with `then`.
pub open spec fn reloads(a: App, then: After, b: App, c: Option<GitCall>) -> bool {
    b == App { task: Task::Listing { then }, ..a } && c == Some(GitCall::ListBranches)
}

/// The app with the prompt for the operation in progress open (unchanged when there is none):
/// the highlighted choice is continue when no conflicts are left, else resolve.
pub open spec fn opened(a: App) -> App {
    match a.operation {
        None => a,
        Some(o) => App {
            choice: if o.conflicts@.len() == 0 { Choice::Continue } else { Choice::Resolve },
            mode: Mode::Operation,
            ..a
        },
    }
}

pub open spec fn yanks(a: App, b: App, c: Option<GitCall>) -> bool {
    &&& c is None
    &&& match a.cursor_branch() {
        None => b == a,
        Some(name) => status_set(
            App { mode: Mode::Normal, yanked: Some(name), ..a },
            b,
            "yanked "@ + name@,
            false,
        ),
    }
}

pub open spec fn integrates(a: App, op: Op, b: App, c: Option<GitCall>) -> bool {
    match a.cursor_branch() {
        None => b == a && c is None,
        Some(target) => {
            let a1 = App { mode: Mode::Normal, ..a };
            if a.operation is Some {
                b == opened(a1) && c is None
            } else {
                match a.yanked {
                    None => status_set(a1, b, "nothing yanked"@, true) && c is None,
                    Some(branch) => if branch@ == target@ {
                        status_set(a1, b, branch@ + " is the yanked branch itself"@, true) && c is None
                    } else {
                        b == App {
                            task: Task::Starting(
                                Start {
                                    op,
                                    branch,
                                    target,
                                    autostash: a.cfg.autostash,
                                    stage: crate::ops::StartStage::ParsingBranch,
                                },
                            ),
                            ..a1
                        } && c == Some(GitCall::RevParse { rev: branch })
                    },
                }
            }
        },
    }
}

pub open spec fn starts_input(a: App, mode: Mode, b: App, c: Option<GitCall>) -> bool {
    &&& c is None
    &&& match a.cursor_branch() {
        None => b == a,
        Some(name) => {
            &&& b.input@ == (if mode == Mode::Rename { (name@, name@.len() as int) } else { (Seq::<char>::empty(), 0int) })
            &&& b == App { input: b.input, input_target: name, prev_mode: a.mode, mode, ..a }
        },
    }
}

pub open spec fn checks_out(a: App, b: App, c: Option<GitCall>) -> bool {
    match a.cursor_branch() {
        None => b == a && c is None,
        Some(name) => b == App { mode: Mode::Normal, task: Task::CheckingOut { name }, ..a }
            && c == Some(GitCall::Checkout { name }),
    }
}

/// Deleting `names`: the block selected starts at `lo`.
pub open spec fn deletes(a: App, names: Vec<String>, force: bool, b: App, c: Option<GitCall>) -> bool {
    let lo = a.selected().0;
    b == App { mode: Mode::Normal, task: Task::Deleting { names, lo: lo as usize }, ..a }
        && (c matches Some(GitCall::DeleteBranches { names: ns, force: f }) && ns@ == names@ && f == force)
}

pub open spec fn starts_delete(a: App, force: bool, b: App, c: Option<GitCall>) -> bool {
    let names = a.selected_names();
    if names.len() == 0 {
        b == a && c is None
    } else {
        let a1 = App { prev_mode: a.mode, ..a };
        if a.cfg.confirm_delete {
            b.pending_delete@ == names && b == App {
                pending_delete: b.pending_delete,
                pending_force: force,
                mode: Mode::Confirm,
                ..a1
            } && c is None
        } else {
            b.task matches Task::Deleting { names: ns, .. } && ns@ == names && deletes(a1, ns, force, b, c)
        }
    }
}

pub open spec fn list_key(a: App, ev: KeyEvent, b: App, c: Option<GitCall>) -> bool {
    let k = a.cfg.keys;
    let last = last_index(a.branches@.len() as int);
    let a0 = App { status: None, ..a };
    if k.quit.any_matches(ev) {
        b == App { quit: true, ..a0 } && c is None
    } else if k.up.any_matches(ev) {
        b == App { cursor: (if a.cursor > 0 { a.cursor - 1 } else { 0 }) as usize, ..a0 } && c is None
    } else if k.down.any_matches(ev) {
        b == App { cursor: min(a.cursor + 1, last) as usize, ..a0 } && c is None
    } else if k.top.any_matches(ev) {
        b == App { cursor: 0, ..a0 } && c is None
    } else if k.bottom.any_matches(ev) {
        b == App { cursor: last as usize, ..a0 } && c is None
    } else if k.visual.any_matches(ev) {
        c is None && if a.mode == Mode::Visual {
            b == App { mode: Mode::Normal, ..a0 }
        } else if a.branches@.len() > 0 {
            b == App { mode: Mode::Visual, anchor: a.cursor, ..a0 }
        } else {
            b == a0
        }
    } else if k.cancel.any_matches(ev) {
        b == App { mode: Mode::Normal, ..a0 } && c is None
    } else if k.reload.any_matches(ev) {
        reloads(a0, After::Report, b, c)
    } else if k.delete.any_matches(ev) {
        starts_delete(a0, false, b, c)
    } else if k.force_delete.any_matches(ev) {
        starts_delete(a0, true, b, c)
    } else if k.rename.any_matches(ev) {
        starts_input(a0, Mode::Rename, b, c)
    } else if k.checkout_new.any_matches(ev) {
        starts_input(a0, Mode::Create, b, c)
    } else if k.checkout.any_matches(ev) {
        checks_out(a0, b, c)
    } else if k.yank.any_matches(ev) {
        yanks(a0, b, c)
    } else if k.merge.any_matches(ev) {
        integrates(a0, Op::Merge, b, c)
    } else if k.rebase.any_matches(ev) {
        integrates(a0, Op::Rebase, b, c)
    } else if k.operation.any_matches(ev) {
        c is None && if a.operation is Some {
            b == opened(a0)
        } else {
            status_set(a0, b, "no merge or rebase in progress"@, false)
        }
    } else {
        b == a0 && c is None
    }
}

pub open spec fn is_ctrl_c(ev: KeyEvent) -> bool {
    ev.code == KeyCode::Char('c') && ev.modifiers.control
}

pub open spec fn confirm_key(a: App, ev: KeyEvent, b: App, c: Option<GitCall>) -> bool {
    let a1 = App { pending_delete: b.pending_delete, ..a };
    &&& b.pending_delete@.len() == 0
    &&& if ev.code == KeyCode::Char('y') || ev.code == KeyCode::Char('Y') {
        deletes(a1, a.pending_delete, a.pending_force, b, c)
    } else if is_ctrl_c(ev) {
        b == App { quit: true, ..a1 } && c is None
    } else {
        status_set(App { mode: a.prev_mode, ..a1 }, b, "cancelled"@, false) && c is None
    }
}

/// The message once a rename or a `checkout -b` is done.
pub open spec fn edited_text(rename: bool, target: Seq<char>, new: Seq<char>) -> Seq<char> {
    if rename {
        "renamed "@ + target + " -> "@ + new
    } else {
        "switched to new branch "@ + new
    }
}

pub open spec fn input_key(a: App, ev: KeyEvent, b: App, c: Option<GitCall>) -> bool {
    if ev.code == KeyCode::Esc {
        b == App { mode: a.prev_mode, ..a } && c is None
    } else if is_ctrl_c(ev) {
        b == App { quit: true, ..a } && c is None
    } else if ev.code == KeyCode::Enter {
        let a1 = App { mode: Mode::Normal, ..a };
        let new = trimmed(a.input@.0);
        let rename = a.mode == Mode::Rename;
        if new.len() == 0 || (rename && new == a.input_target@) {
            b == a1 && c is None
        } else {
            b.task matches Task::Editing { new: n, done } && n@ == new
                && done@ == edited_text(rename, a.input_target@, new)
                && b == App { task: b.task, ..a1 }
                && if rename {
                    c == Some(GitCall::RenameBranch { old: a.input_target, new: n })
                } else {
                    c == Some(GitCall::CheckoutNew { name: n, start: a.input_target })
                }
        }
    } else {
        b.input@ == edit(a.input@.0, a.input@.1, ev) && b == App { input: b.input, ..a } && c is None
    }
}

/// The choice a key press in the operation prompt selects, if any.
pub open spec fn operation_choice(a: App, ev: KeyEvent) -> Option<Choice> {
    match ev.code {
        KeyCode::Char('c') => Some(Choice::Continue),
        KeyCode::Char('r') => Some(Choice::Resolve),
        KeyCode::Char('a') => Some(Choice::Abort),
        KeyCode::Enter => Some(a.choice),
        _ => None,
    }
}

/// How far a key press moves the highlighted choice (0: not at all).
pub open spec fn operation_move(a: App, ev: KeyEvent) -> int {
    match ev.code {
        KeyCode::Named(NamedKey::Left) | KeyCode::Named(NamedKey::BackTab) | KeyCode::Char('h') => -1,
        KeyCode::Named(NamedKey::Right) | KeyCode::Named(NamedKey::Tab) | KeyCode::Char('l') => 1,
        _ => if a.cfg.keys.up.any_matches(ev) {
            -1
        } else if a.cfg.keys.down.any_matches(ev) {
            1
        } else {
            0
        },
    }
}

/// The message that says how to go on after resolving in the editor.
pub open spec fn resolve_hint(key: Seq<char>) -> Seq<char> {
    "resolve the conflicts, then press "@ + key + " and continue"@
}

pub open spec fn resolves(a: App, b: App, c: Option<GitCall>) -> bool {
    match a.operation {
        Some(o) if o.conflicts@.len() > 0 => {
            let ws = words(a.cfg.editor@);
            if ws.len() == 0 {
                status_set(a, b, "no editor configured"@, true) && c is None
            } else {
                b.task matches Task::Locating { files, program, args }
                    && files@ == o.conflicts@ && program@ == ws[0] && views(args@) == ws.skip(1)
                    && b == App { task: b.task, ..a } && c == Some(GitCall::Toplevel)
            }
        },
        _ => status_set(a, b, "no conflicts left: continue to finish"@, false) && c is None,
    }
}

pub open spec fn operation_key(a: App, ev: KeyEvent, b: App, c: Option<GitCall>) -> bool {
    if is_ctrl_c(ev) {
        b == App { quit: true, ..a } && c is None
    } else if ev.code == KeyCode::Esc {
        b == App { mode: Mode::Normal, ..a } && c is None
    } else {
        match operation_choice(a, ev) {
            Some(choice) => {
                let a1 = App { mode: Mode::Normal, ..a };
                match choice {
                    Choice::Continue => b == App { task: Task::Resuming(Resume::Probing), ..a1 }
                        && c == Some(GitCall::InProgress),
                    Choice::Resolve => resolves(a1, b, c),
                    Choice::Abort => b == App { task: Task::Aborting(Abort::Probing), ..a1 }
                        && c == Some(GitCall::InProgress),
                }
            },
            None => c is None && if operation_move(a, ev) == 0 {
                b == a
            } else {
                b == App { choice: choice_at(choice_index(a.choice) + operation_move(a, ev)), ..a }
            },
        }
    }
}

/// The reaction to a key press, by mode.
pub open spec fn key_reaction(a: App, ev: KeyEvent, b: App, c: Option<GitCall>) -> bool {
    match a.mode {
        Mode::Rename | Mode::Create => input_key(a, ev, b, c),
        Mode::Confirm => confirm_key(a, ev, b, c),
        Mode::Operation => operation_key(a, ev, b, c),
        Mode::Normal | Mode::Visual => list_key(a, ev, b, c),
    }
}

// ---------------------------------------------------------------------------
// Replies

pub open spec fn idled(a: App) -> App {
    App { task: Task::Idle, ..a }
}

/// The outcome of a merge / rebase step is shown, then any failure to reload.
pub open spec fn stepped(a: App, result: Result<Outcome, String>, reloaded: Result<(), String>, b: App) -> bool {
    match reloaded {
        Err(e) => status_set(
            match result {
                Ok(Outcome::Stopped) => opened(a),
                _ => a,
            },
            b,
            e@,
            true,
        ),
        Ok(()) => match result {
            Ok(Outcome::Done(msg)) => status_set(a, b, msg@, false),
            Ok(Outcome::Stopped) => b == opened(a),
            Err(e) => status_set(a, b, e@, true),
        },
    }
}

pub open spec fn after_deleted(a: App, names: Vec<String>, lo: usize, result: Result<(), String>, reloaded: Result<(), String>, b: App) -> bool {
    let a2 = App { cursor: min(lo as int, last_index(a.branches@.len() as int)) as usize, ..a };
    match result {
        Err(e) => status_set(a2, b, e@, true),
        Ok(()) => match reloaded {
            Err(e) => status_set(a2, b, e@, true),
            Ok(()) => status_set(a2, b, "deleted "@ + joined(views(names@), ", "@), false),
        },
    }
}

pub open spec fn after_edited(a: App, new: String, done: String, reloaded: Result<(), String>, b: App) -> bool {
    match reloaded {
        Err(e) => status_set(a, b, e@, true),
        Ok(()) => status_set(
            match position_of(a.branches@, new@) {
                Some(i) => App { cursor: i as usize, ..a },
                None => a,
            },
            b,
            done@,
            false,
        ),
    }
}

pub open spec fn after_started(a: App, reloaded: Result<(), String>, b: App) -> bool {
    match reloaded {
        Err(e) => status_set(App { quit: true, ..a }, b, e@, true),
        Ok(()) => b == match position_of_current(a.branches@) {
            Some(i) => App { cursor: i as usize, ..a },
            None => a,
        },
    }
}

/// Going on with `then` once the reload ended with `reloaded`.
pub open spec fn after_reload(a: App, then: After, reloaded: Result<(), String>, b: App, c: Option<GitCall>) -> bool {
    let a1 = idled(a);
    &&& c is None
    &&& match then {
        After::Report => match reloaded {
            Ok(()) => b == a1,
            Err(e) => status_set(a1, b, e@, true),
        },
        After::Switched { name } => match reloaded {
            Ok(()) => status_set(a1, b, "switched to "@ + name@, false),
            Err(e) => status_set(a1, b, e@, true),
        },
        After::Deleted { names, lo, result } => after_deleted(a1, names, lo, result, reloaded, b),
        After::Edited { new, done } => after_edited(a1, new, done, reloaded, b),
        After::Stepped { result } => stepped(a1, result, reloaded, b),
        After::EditorClosed => match reloaded {
            Ok(()) => b == a1,
            Err(e) => status_set(a1, b, e@, true),
        },
        After::Started => after_started(a1, reloaded, b),
    }
}

pub open spec fn hint_set(a: App, b: App) -> bool {
    let keys = a.cfg.keys.operation.denotes();
    &&& b.status matches Some(s) && !s.error && if keys.len() == 0 {
        s.text@ == resolve_hint(Seq::empty())
    } else {
        exists|t: Seq<char>| names_key(keys[0], t) && s.text@ == #[trigger] resolve_hint(t)
    }
    &&& b == App { status: b.status, ..a }
}

pub open spec fn listing_reply(a: App, then: After, r: Reply, b: App, c: Option<GitCall>) -> bool {
    match r {
        Reply::Branches(bs) => {
            let last = last_index(bs@.len() as int);
            b == App {
                branches: bs,
                cursor: min(a.cursor as int, last) as usize,
                anchor: min(a.anchor as int, last) as usize,
                task: Task::Probing { probe: Probe::Asking, then },
                ..a
            } && c == Some(GitCall::InProgress)
        },
        _ => exists|e: String| e@ == failure_of(r) && #[trigger] after_reload(a, then, Err(e), b, c),
    }
}

pub open spec fn probing_reply(a: App, probe: Probe, then: After, r: Reply, b: App, c: Option<GitCall>) -> bool {
    exists|t: Step<Probe, Result<Option<Operation>, String>>|
        #[trigger] probe_next(probe, r, t) && match t {
            Step::Ask(p2, call) => b == App { task: Task::Probing { probe: p2, then }, ..a } && c == Some(call),
            Step::Finish(Ok(op)) => after_reload(App { operation: op, ..a }, then, Ok(()), b, c),
            Step::Finish(Err(e)) => after_reload(a, then, Err(e), b, c),
        }
}

pub open spec fn locating_reply(a: App, files: Vec<String>, program: String, args: Vec<String>, r: Reply, b: App, c: Option<GitCall>) -> bool {
    match r {
        Reply::Text(dir) => c is None && (b.editor_request matches Some(req)
            && req.program == program && req.args@ == args@ + files@ && req.dir == dir
            && hint_set(App { editor_request: b.editor_request, ..a }, b)),
        _ => status_set(a, b, failure_of(r), true) && c is None,
    }
}

/// The reaction to the reply `r`; `a` is the app with its task taken out (idle).
pub open spec fn task_reply(a: App, task: Task, r: Reply, b: App, c: Option<GitCall>) -> bool {
    match task {
        Task::Idle => false,
        Task::Listing { then } => listing_reply(a, then, r, b, c),
        Task::Probing { probe, then } => probing_reply(a, probe, then, r, b, c),
        Task::CheckingOut { name } => match r {
            Reply::Done => reloads(a, After::Switched { name }, b, c),
            _ => status_set(a, b, failure_of(r), true) && c is None,
        },
        Task::Deleting { names, lo } => match r {
            Reply::Done => reloads(a, After::Deleted { names, lo, result: Ok(()) }, b, c),
            _ => exists|e: String| e@ == failure_of(r)
                && #[trigger] reloads(a, After::Deleted { names, lo, result: Err(e) }, b, c),
        },
        Task::Editing { new, done } => match r {
            Reply::Done => reloads(a, After::Edited { new, done }, b, c),
            _ => status_set(a, b, failure_of(r), true) && c is None,
        },
        Task::Starting(m) => exists|t: Step<Start, Result<Outcome, String>>|
            #[trigger] start_next(m, r, t) && match t {
                Step::Ask(m2, call) => b == App { task: Task::Starting(m2), ..a } && c == Some(call),
                Step::Finish(result) => reloads(a, After::Stepped { result }, b, c),
            },
        Task::Resuming(m) => exists|t: Step<Resume, Result<Outcome, String>>|
            #[trigger] resume_next(m, r, t) && match t {
                Step::Ask(m2, call) => b == App { task: Task::Resuming(m2), ..a } && c == Some(call),
                Step::Finish(result) => reloads(a, After::Stepped { result }, b, c),
            },
        Task::Aborting(m) => exists|t: Step<Abort, Result<String, String>>|
            #[trigger] abort_next(m, r, t) && match t {
                Step::Ask(m2, call) => b == App { task: Task::Aborting(m2), ..a } && c == Some(call),
                Step::Finish(Ok(msg)) => reloads(a, After::Stepped { result: Ok(Outcome::Done(msg)) }, b, c),
                Step::Finish(Err(e)) => reloads(a, After::Stepped { result: Err(e) }, b, c),
            },
        Task::Locating { files, program, args } => locating_reply(a, files, program, args, r, b, c),
    }
}

/// The reaction to the reply `r` to the call the app asked for last.
pub open spec fn reply_reaction(a: App, r: Reply, b: App, c: Option<GitCall>) -> bool {
    task_reply(idled(a), a.task, r, b, c)
}

/// The reaction to the end of the editor run: any failure is shown, then the app reloads.
pub open spec fn editor_reaction(a: App, exit: EditorExit, b: App, c: Option<GitCall>) -> bool {
    match exit {
        EditorExit::Success => reloads(a, After::EditorClosed, b, c),
        EditorExit::Failed(st) => (b.status matches Some(s) && s.error
            && s.text@ == "editor exited with "@ + st@)
            && reloads(App { status: b.status, ..a }, After::EditorClosed, b, c),
        EditorExit::NotRun(e) => (b.status matches Some(s) && s.error
            && s.text@ == "failed to run editor "@ + crate::text::str_debug(a.cfg.editor@) + ": "@ + e@)
            && reloads(App { status: b.status, ..a }, After::EditorClosed, b, c),
    }
}

// ---------------------------------------------------------------------------
// The implementation

fn clone_strings(v: &Vec<String>) -> (r: Vec<String>)
    ensures
        r@ == v@,
{
    let mut r: Vec<String> = Vec::new();
    let mut i: usize = 0;
    while i < v.len()
        invariant
            i <= v@.len(),
            r@ == v@.take(i as int),
        decreases v@.len() - i,
    {
        r.push(v[i].clone());
        assert(v@.take(i + 1) =~= v@.take(i as int).push(v@[i as int]));
        i = i + 1;
    }
    assert(v@.take(v@.len() as int) =~= v@);
    r
}

/// `v[from..]`.
fn strings_from(v: &Vec<String>, from: usize) -> (r: Vec<String>)
    requires
        from <= v@.len(),
    ensures
        r@ == v@.skip(from as int),
{
    let mut r: Vec<String> = Vec::new();
    let mut i: usize = from;
    while i < v.len()
        invariant
            from <= i <= v@.len(),
            r@ == v@.subrange(from as int, i as int),
        decreases v@.len() - i,
    {
        r.push(v[i].clone());
        assert(v@.subrange(from as int, i + 1) =~= v@.subrange(from as int, i as int).push(v@[i as int]));
        i = i + 1;
    }
    assert(v@.subrange(from as int, v@.len() as int) =~= v@.skip(from as int));
    r
}

fn find_branch(bs: &Vec<Branch>, name: &String) -> (r: Option<usize>)
    ensures
        r matches Some(i) ==> i < bs@.len(),
        r matches Some(i) ==> position_of(bs@, name@) == Some(i as int),
        r is None ==> position_of(bs@, name@) is None,
{
    let mut i: usize = 0;
    while i < bs.len()
        invariant
            i <= bs@.len(),
            forall|j: int| 0 <= j < i ==> bs@[j].name@ != name@,
        decreases bs@.len() - i,
    {
        if bs[i].name == *name {
            proof {
                let w = choose|k: int| 0 <= k < bs@.len() && (#[trigger] bs@[k]).name@ == name@ && forall|j: int| 0 <= j < k ==> bs@[j].name@ != name@;
                assert(0 <= i < bs@.len() && bs@[i as int].name@ == name@ && forall|j: int| 0 <= j < i ==> bs@[j].name@ != name@);
                if w < i {
                } else if w > i {
                    assert(bs@[i as int].name@ != name@);
                }
            }
            return Some(i);
        }
        i = i + 1;
    }
    None
}

fn find_current(bs: &Vec<Branch>) -> (r: Option<usize>)
    ensures
        r matches Some(i) ==> i < bs@.len(),
        r matches Some(i) ==> position_of_current(bs@) == Some(i as int),
        r is None ==> position_of_current(bs@) is None,
{
    let mut i: usize = 0;
    while i < bs.len()
        invariant
            i <= bs@.len(),
            forall|j: int| 0 <= j < i ==> !bs@[j].current,
        decreases bs@.len() - i,
    {
        if bs[i].current {
            proof {
                let w = choose|k: int| 0 <= k < bs@.len() && (#[trigger] bs@[k]).current && forall|j: int| 0 <= j < k ==> !bs@[j].current;
                assert(0 <= i < bs@.len() && bs@[i as int].current && forall|j: int| 0 <= j < i ==> !bs@[j].current);
                if w > i {
                    assert(!bs@[i as int].current);
                }
            }
            return Some(i);
        }
        i = i + 1;
    }
    None
}

impl App {
    /// A new app on `repo` with `cfg`. It starts by loading the branch list: the call
    /// returned. If loading fails, the app quits with the error as its status.
    pub fn new(repo: Repo, cfg: Config) -> (r: (App, GitCall))
        ensures
            r.0.repo == repo,
            r.0.cfg == cfg,
            r.0.branches@.len() == 0,
            r.0.cursor == 0,
            r.0.anchor == 0,
            r.0.mode == Mode::Normal,
            r.0.prev_mode == Mode::Normal,
            r.0.input@ == (Seq::<char>::empty(), 0int),
            r.0.input_target@.len() == 0,
            r.0.pending_delete@.len() == 0,
            !r.0.pending_force,
            r.0.yanked is None,
            r.0.operation is None,
            r.0.choice == Choice::Resolve,
            r.0.editor_request is None,
            r.0.status is None,
            !r.0.quit,
            r.0.task matches Task::Listing { then: After::Started },
            r.1 == GitCall::ListBranches,
            r.0.wf(),
    {
        let app = App {
            repo,
            cfg,
            branches: Vec::new(),
            cursor: 0,
            anchor: 0,
            mode: Mode::Normal,
            prev_mode: Mode::Normal,
            input: LineInput::default(),
            input_target: String::new(),
            pending_delete: Vec::new(),
            pending_force: false,
            yanked: None,
            operation: None,
            choice: Choice::Resolve,
            editor_request: None,
            status: None,
            quit: false,
            task: Task::Listing { then: After::Started },
        };
        (app, GitCall::ListBranches)
    }

    /// Whether a visual selection is active (including while confirming its deletion).
    pub fn in_visual(&self) -> (b: bool)
        ensures
            b == self.visual(),
    {
        self.mode == Mode::Visual || (self.mode == Mode::Confirm && self.prev_mode == Mode::Visual)
    }

    /// Inclusive index range the next action applies to.
    pub fn selection(&self) -> (r: (usize, usize))
        ensures
            r.0 as int == self.selected().0,
            r.1 as int == self.selected().1,
    {
        if self.in_visual() {
            if self.anchor <= self.cursor {
                (self.anchor, self.cursor)
            } else {
                (self.cursor, self.anchor)
            }
        } else {
            (self.cursor, self.cursor)
        }
    }

    fn cursor_name(&self) -> (r: Option<String>)
        ensures
            r == self.cursor_branch(),
    {
        if self.cursor < self.branches.len() {
            Some(self.branches[self.cursor].name.clone())
        } else {
            None
        }
    }

    fn selected_branch_names(&self) -> (r: Vec<String>)
        requires
            self.wf(),
        ensures
            r@ == self.selected_names(),
    {
        if self.branches.len() == 0 {
            return Vec::new();
        }
        let (lo, hi) = self.selection();
        let mut r: Vec<String> = Vec::new();
        let mut i: usize = lo;
        while i <= hi
            invariant
                lo <= i <= hi + 1,
                hi < self.branches.len(),
                r@ == names_in(self.branches@, lo as int, i as int - 1),
            decreases hi + 1 - i,
        {
            r.push(self.branches[i].name.clone());
            assert(names_in(self.branches@, lo as int, i as int) =~= names_in(self.branches@, lo as int, i as int - 1).push(
                self.branches@[i as int].name,
            ));
            i = i + 1;
        }
        r
    }

    fn set_status(&mut self, text: String, error: bool)
        ensures
            *final(self) == (App { status: Some(Status { text, error }), ..*old(self) }),
    {
        self.status = Some(Status { text, error });
    }

    fn open_operation(&mut self)
        ensures
            *final(self) == opened(*old(self)),
    {
        let choice = match &self.operation {
            None => None,
            Some(o) => Some(if o.conflicts.len() == 0 { Choice::Continue } else { Choice::Resolve }),
        };
        if let Some(c) = choice {
            self.choice = c;
            self.mode = Mode::Operation;
        }
    }

    fn reload(&mut self, then: After) -> (c: Option<GitCall>)
        ensures
            reloads(*old(self), then, *final(self), c),
            c is Some && !final(self).idle(),
    {
        self.task = Task::Listing { then };
        Some(GitCall::ListBranches)
    }

    fn yank(&mut self) -> (c: Option<GitCall>)
        ensures
            yanks(*old(self), *final(self), c),
    {
        let name = match self.cursor_name() {
            Some(n) => n,
            None => return None,
        };
        self.mode = Mode::Normal;
        self.set_status(cat("yanked ", name.as_str()), false);
        self.yanked = Some(name);
        None
    }

    fn integrate(&mut self, op: Op) -> (c: Option<GitCall>)
        ensures
            integrates(*old(self), op, *final(self), c),
    {
        let target = match self.cursor_name() {
            Some(t) => t,
            None => return None,
        };
        self.mode = Mode::Normal;
        if self.operation.is_some() {
            // Finish or abort the one in progress first.
            self.open_operation();
            return None;
        }
        let branch = match &self.yanked {
            Some(b) => b.clone(),
            None => {
                self.set_status(String::from_str("nothing yanked"), true);
                return None;
            },
        };
        if branch == target {
            self.set_status(cat(branch.as_str(), " is the yanked branch itself"), true);
            return None;
        }
        let (m, call) = crate::ops::start(op, branch, target, self.cfg.autostash);
        self.task = Task::Starting(m);
        Some(call)
    }

    fn start_input(&mut self, mode: Mode) -> (c: Option<GitCall>)
        ensures
            starts_input(*old(self), mode, *final(self), c),
    {
        let name = match self.cursor_name() {
            Some(n) => n,
            None => return None,
        };
        if mode == Mode::Rename {
            self.input.set(name.as_str());
        } else {
            self.input.set("");
            proof {
                reveal_strlit("");
                assert(""@ =~= Seq::<char>::empty());
            }
        }
        self.input_target = name;
        self.prev_mode = self.mode;
        self.mode = mode;
        None
    }

    fn checkout(&mut self) -> (c: Option<GitCall>)
        ensures
            checks_out(*old(self), *final(self), c),
    {
        let name = match self.cursor_name() {
            Some(n) => n,
            None => return None,
        };
        self.mode = Mode::Normal;
        let call = GitCall::Checkout { name: name.clone() };
        self.task = Task::CheckingOut { name };
        Some(call)
    }

    fn delete(&mut self, names: Vec<String>, force: bool) -> (c: Option<GitCall>)
        ensures
            deletes(*old(self), names, force, *final(self), c),
    {
        // Keep the cursor where the deleted block started.
        let (lo, _) = self.selection();
        self.mode = Mode::Normal;
        let call = GitCall::DeleteBranches { names: clone_strings(&names), force };
        self.task = Task::Deleting { names, lo };
        Some(call)
    }

    fn start_delete(&mut self, force: bool) -> (c: Option<GitCall>)
        requires
            old(self).wf(),
        ensures
            starts_delete(*old(self), force, *final(self), c),
    {
        let names = self.selected_branch_names();
        if names.len() == 0 {
            return None;
        }
        self.prev_mode = self.mode;
        if self.cfg.confirm_delete {
            self.pending_delete = names;
            self.pending_force = force;
            self.mode = Mode::Confirm;
            None
        } else {
            self.delete(names, force)
        }
    }

    fn handle_list(&mut self, ev: KeyEvent) -> (c: Option<GitCall>)
        requires
            old(self).wf(),
        ensures
            list_key(*old(self), ev, *final(self), c),
    {
        let last = if self.branches.len() > 0 { self.branches.len() - 1 } else { 0 };
        self.status = None;
        if self.cfg.keys.quit.matches(&ev) {
            self.quit = true;
            None
        } else if self.cfg.keys.up.matches(&ev) {
            self.cursor = if self.cursor > 0 { self.cursor - 1 } else { 0 };
            None
        } else if self.cfg.keys.down.matches(&ev) {
            self.cursor = if self.cursor < last { self.cursor + 1 } else { last };
            None
        } else if self.cfg.keys.top.matches(&ev) {
            self.cursor = 0;
            None
        } else if self.cfg.keys.bottom.matches(&ev) {
            self.cursor = last;
            None
        } else if self.cfg.keys.visual.matches(&ev) {
            if self.mode == Mode::Visual {
                self.mode = Mode::Normal;
            } else if self.branches.len() > 0 {
                self.mode = Mode::Visual;
                self.anchor = self.cursor;
            }
            None
        } else if self.cfg.keys.cancel.matches(&ev) {
            self.mode = Mode::Normal;
            None
        } else if self.cfg.keys.reload.matches(&ev) {
            self.reload(After::Report)
        } else if self.cfg.keys.delete.matches(&ev) {
            self.start_delete(false)
        } else if self.cfg.keys.force_delete.matches(&ev) {
            self.start_delete(true)
        } else if self.cfg.keys.rename.matches(&ev) {
            self.start_input(Mode::Rename)
        } else if self.cfg.keys.checkout_new.matches(&ev) {
            self.start_input(Mode::Create)
        } else if self.cfg.keys.checkout.matches(&ev) {
            self.checkout()
        } else if self.cfg.keys.yank.matches(&ev) {
            self.yank()
        } else if self.cfg.keys.merge.matches(&ev) {
            self.integrate(Op::Merge)
        } else if self.cfg.keys.rebase.matches(&ev) {
            self.integrate(Op::Rebase)
        } else if self.cfg.keys.operation.matches(&ev) {
            if self.operation.is_some() {
                self.open_operation();
            } else {
                self.set_status(String::from_str("no merge or rebase in progress"), false);
            }
            None
        } else {
            None
        }
    }

    fn handle_confirm(&mut self, ev: KeyEvent) -> (c: Option<GitCall>)
        ensures
            confirm_key(*old(self), ev, *final(self), c),
    {
        let mut names: Vec<String> = Vec::new();
        std::mem::swap(&mut names, &mut self.pending_delete);
        if ev.code == KeyCode::Char('y') || ev.code == KeyCode::Char('Y') {
            let force = self.pending_force;
            self.delete(names, force)
        } else if ev.code == KeyCode::Char('c') && ev.modifiers.control {
            self.quit = true;
            None
        } else {
            self.mode = self.prev_mode;
            self.set_status(String::from_str("cancelled"), false);
            None
        }
    }

    fn handle_input(&mut self, ev: KeyEvent) -> (c: Option<GitCall>)
        requires
            old(self).wf(),
        ensures
            input_key(*old(self), ev, *final(self), c),
            final(self).input.wf(),
    {
        if ev.code == KeyCode::Esc {
            self.mode = self.prev_mode;
            None
        } else if ev.code == KeyCode::Char('c') && ev.modifiers.control {
            self.quit = true;
            None
        } else if ev.code == KeyCode::Enter {
            let rename = self.mode == Mode::Rename;
            self.mode = Mode::Normal;
            let target = self.input_target.clone();
            let value = self.input.value();
            let new = trim(value.as_str());
            if new.as_str().is_empty() || (rename && new == target) {
                return None;
            }
            let (done, call) = if rename {
                let done = cat4("renamed ", target.as_str(), " -> ", new.as_str());
                (done, GitCall::RenameBranch { old: target, new: new.clone() })
            } else {
                let done = cat("switched to new branch ", new.as_str());
                (done, GitCall::CheckoutNew { name: new.clone(), start: target })
            };
            self.task = Task::Editing { new, done };
            Some(call)
        } else {
            self.input.handle(&ev);
            None
        }
    }

    fn choice_move(&self, ev: &KeyEvent) -> (d: isize)
        ensures
            d as int == operation_move(*self, *ev),
            -1 <= d <= 1,
    {
        match ev.code {
            KeyCode::Named(NamedKey::Left) | KeyCode::Named(NamedKey::BackTab) | KeyCode::Char('h') => -1,
            KeyCode::Named(NamedKey::Right) | KeyCode::Named(NamedKey::Tab) | KeyCode::Char('l') => 1,
            _ => if self.cfg.keys.up.matches(ev) {
                -1
            } else if self.cfg.keys.down.matches(ev) {
                1
            } else {
                0
            },
        }
    }

    fn resolve(&mut self) -> (c: Option<GitCall>)
        ensures
            resolves(*old(self), *final(self), c),
    {
        let files = match &self.operation {
            Some(o) => if o.conflicts.len() > 0 {
                Some(clone_strings(&o.conflicts))
            } else {
                None
            },
            None => None,
        };
        let files = match files {
            Some(f) => f,
            None => {
                self.set_status(String::from_str("no conflicts left: continue to finish"), false);
                return None;
            },
        };
        let words = split_words(self.cfg.editor.as_str());
        if words.len() == 0 {
            self.set_status(String::from_str("no editor configured"), true);
            return None;
        }
        let program = words[0].clone();
        let args = strings_from(&words, 1);
        assert(views(args@) =~= views(words@).skip(1));
        self.task = Task::Locating { files, program, args };
        Some(GitCall::Toplevel)
    }

    fn handle_operation(&mut self, ev: KeyEvent) -> (c: Option<GitCall>)
        requires
            old(self).idle(),
        ensures
            operation_key(*old(self), ev, *final(self), c),
            final(self).task matches Task::Resuming(m) ==> m.wf(),
    {
        if ev.code == KeyCode::Char('c') && ev.modifiers.control {
            self.quit = true;
            return None;
        }
        if ev.code == KeyCode::Esc {
            self.mode = Mode::Normal;
            return None;
        }
        let choice = match ev.code {
            KeyCode::Char('c') => Some(Choice::Continue),
            KeyCode::Char('r') => Some(Choice::Resolve),
            KeyCode::Char('a') => Some(Choice::Abort),
            KeyCode::Enter => Some(self.choice),
            _ => None,
        };
        match choice {
            None => {
                let d = self.choice_move(&ev);
                if d != 0 {
                    self.choice = self.choice.step(d);
                }
                None
            },
            Some(ch) => {
                self.mode = Mode::Normal;
                match ch {
                    Choice::Continue => {
                        let (m, call) = crate::ops::resume();
                        self.task = Task::Resuming(m);
                        Some(call)
                    },
                    Choice::Resolve => self.resolve(),
                    Choice::Abort => {
                        let (m, call) = crate::ops::abort();
                        self.task = Task::Aborting(m);
                        Some(call)
                    },
                }
            },
        }
    }

    /// Handles a key press. The app must be idle: the git work that an earlier key
    /// started is done. The git call returned (if any) starts new work.
    pub fn handle_key(&mut self, ev: KeyEvent) -> (c: Option<GitCall>)
        requires
            old(self).idle(),
            old(self).wf(),
        ensures
            key_reaction(*old(self), ev, *final(self), c),
            final(self).wf(),
            c is None <==> final(self).idle(),
    {
        match self.mode {
            Mode::Rename | Mode::Create => self.handle_input(ev),
            Mode::Confirm => self.handle_confirm(ev),
            Mode::Operation => self.handle_operation(ev),
            Mode::Normal | Mode::Visual => self.handle_list(ev),
        }
    }

    fn finish_deleted(&mut self, names: Vec<String>, lo: usize, result: Result<(), String>, reloaded: Result<(), String>)
        requires
            old(self).wf(),
        ensures
            after_deleted(*old(self), names, lo, result, reloaded, *final(self)),
            final(self).wf(),
    {
        let last = if self.branches.len() > 0 { self.branches.len() - 1 } else { 0 };
        self.cursor = if lo <= last { lo } else { last };
        match result {
            Err(e) => self.set_status(e, true),
            Ok(()) => match reloaded {
                Err(e) => self.set_status(e, true),
                Ok(()) => {
                    let list = join(&names, ", ");
                    self.set_status(cat("deleted ", list.as_str()), false);
                },
            },
        }
    }

    fn finish_edited(&mut self, new: String, done: String, reloaded: Result<(), String>)
        requires
            old(self).wf(),
        ensures
            after_edited(*old(self), new, done, reloaded, *final(self)),
            final(self).wf(),
    {
        match reloaded {
            Err(e) => self.set_status(e, true),
            Ok(()) => {
                if let Some(i) = find_branch(&self.branches, &new) {
                    self.cursor = i;
                }
                self.set_status(done, false);
            },
        }
    }

    fn finish_stepped(&mut self, result: Result<Outcome, String>, reloaded: Result<(), String>)
        requires
            old(self).wf(),
        ensures
            stepped(*old(self), result, reloaded, *final(self)),
            final(self).wf(),
    {
        match result {
            Ok(Outcome::Done(msg)) => self.set_status(msg, false),
            Ok(Outcome::Stopped) => self.open_operation(),
            Err(e) => self.set_status(e, true),
        }
        if let Err(e) = reloaded {
            self.set_status(e, true);
        }
    }

    fn finish_started(&mut self, reloaded: Result<(), String>)
        requires
            old(self).wf(),
        ensures
            after_started(*old(self), reloaded, *final(self)),
            final(self).wf(),
    {
        match reloaded {
            Err(e) => {
                self.quit = true;
                self.set_status(e, true);
            },
            Ok(()) => {
                if let Some(i) = find_current(&self.branches) {
                    self.cursor = i;
                }
            },
        }
    }

    fn finish_reload(&mut self, then: After, reloaded: Result<(), String>) -> (c: Option<GitCall>)
        requires
            old(self).idle(),
            old(self).wf(),
        ensures
            after_reload(*old(self), then, reloaded, *final(self), c),
            final(self).wf(),
            c is None && final(self).idle(),
    {
        match then {
            After::Report => {
                if let Err(e) = reloaded {
                    self.set_status(e, true);
                }
            },
            After::Switched { name } => match reloaded {
                Ok(()) => self.set_status(cat("switched to ", name.as_str()), false),
                Err(e) => self.set_status(e, true),
            },
            After::Deleted { names, lo, result } => self.finish_deleted(names, lo, result, reloaded),
            After::Edited { new, done } => self.finish_edited(new, done, reloaded),
            After::Stepped { result } => self.finish_stepped(result, reloaded),
            After::EditorClosed => {
                if let Err(e) = reloaded {
                    self.set_status(e, true);
                }
            },
            After::Started => self.finish_started(reloaded),
        }
        None
    }

    fn reply_listing(&mut self, then: After, r: Reply) -> (c: Option<GitCall>)
        requires
            old(self).idle(),
            old(self).wf(),
        ensures
            listing_reply(*old(self), then, r, *final(self), c),
            final(self).wf(),
            c is None <==> final(self).idle(),
    {
        match r {
            Reply::Branches(bs) => {
                let last = if bs.len() > 0 { bs.len() - 1 } else { 0 };
                self.branches = bs;
                self.cursor = if self.cursor <= last { self.cursor } else { last };
                self.anchor = if self.anchor <= last { self.anchor } else { last };
                let (probe, call) = in_progress();
                self.task = Task::Probing { probe, then };
                Some(call)
            },
            _ => {
                let e = r.failure();
                let ghost eg = e;
                let c = self.finish_reload(then, Err(e));
                assert(after_reload(*old(self), then, Err(eg), *final(self), c));
                c
            },
        }
    }

    fn reply_probing(&mut self, probe: Probe, then: After, r: Reply) -> (c: Option<GitCall>)
        requires
            old(self).idle(),
            old(self).wf(),
        ensures
            probing_reply(*old(self), probe, then, r, *final(self), c),
            final(self).wf(),
            c is None <==> final(self).idle(),
    {
        let t = probe.step(r);
        match t {
            Step::Ask(p2, call) => {
                self.task = Task::Probing { probe: p2, then };
                Some(call)
            },
            Step::Finish(Ok(op)) => {
                self.operation = op;
                self.finish_reload(then, Ok(()))
            },
            Step::Finish(Err(e)) => self.finish_reload(then, Err(e)),
        }
    }

    fn reply_locating(&mut self, files: Vec<String>, program: String, args: Vec<String>, r: Reply) -> (c: Option<GitCall>)
        requires
            old(self).idle(),
            old(self).wf(),
        ensures
            locating_reply(*old(self), files, program, args, r, *final(self), c),
            final(self).wf(),
            c is None && final(self).idle(),
    {
        match r {
            Reply::Text(dir) => {
                let mut all = args;
                let mut files = files;
                all.append(&mut files);
                self.editor_request = Some(EditorRequest { program, args: all, dir });
                let key = match self.cfg.keys.operation.primary() {
                    Some(k) => {
                        let t = k.to_text();
                        assert(self.cfg.keys.operation.denotes()[0] == k@);
                        t
                    },
                    None => String::new(),
                };
                let text = cat3("resolve the conflicts, then press ", key.as_str(), " and continue");
                assert(text@ == resolve_hint(key@));
                self.set_status(text, false);
                None
            },
            _ => {
                self.set_status(r.failure(), true);
                None
            },
        }
    }

    /// Takes the answer to the git call asked for last, and returns the next call, if any.
    #[verifier::rlimit(40)]
    pub fn handle_reply(&mut self, r: Reply) -> (c: Option<GitCall>)
        requires
            !old(self).idle(),
            old(self).wf(),
        ensures
            reply_reaction(*old(self), r, *final(self), c),
            final(self).wf(),
            c is None <==> final(self).idle(),
    {
        let mut task = Task::Idle;
        std::mem::swap(&mut task, &mut self.task);
        match task {
            Task::Idle => None,
            Task::Listing { then } => self.reply_listing(then, r),
            Task::Probing { probe, then } => self.reply_probing(probe, then, r),
            Task::CheckingOut { name } => match r {
                Reply::Done => self.reload(After::Switched { name }),
                _ => {
                    self.set_status(r.failure(), true);
                    None
                },
            },
            Task::Deleting { names, lo } => match r {
                Reply::Done => self.reload(After::Deleted { names, lo, result: Ok(()) }),
                _ => {
                    let e = r.failure();
                    let ghost eg = e;
                    let ghost before = *self;
                    let c = self.reload(After::Deleted { names, lo, result: Err(e) });
                    assert(reloads(before, After::Deleted { names, lo, result: Err(eg) }, *self, c));
                    c
                },
            },
            Task::Editing { new, done } => match r {
                Reply::Done => self.reload(After::Edited { new, done }),
                _ => {
                    self.set_status(r.failure(), true);
                    None
                },
            },
            Task::Starting(m) => match m.step(r) {
                Step::Ask(m2, call) => {
                    self.task = Task::Starting(m2);
                    Some(call)
                },
                Step::Finish(result) => self.reload(After::Stepped { result }),
            },
            Task::Resuming(m) => match m.step(r) {
                Step::Ask(m2, call) => {
                    self.task = Task::Resuming(m2);
                    Some(call)
                },
                Step::Finish(result) => self.reload(After::Stepped { result }),
            },
            Task::Aborting(m) => match m.step(r) {
                Step::Ask(m2, call) => {
                    self.task = Task::Aborting(m2);
                    Some(call)
                },
                Step::Finish(Ok(msg)) => self.reload(After::Stepped { result: Ok(Outcome::Done(msg)) }),
                Step::Finish(Err(e)) => self.reload(After::Stepped { result: Err(e) }),
            },
            Task::Locating { files, program, args } => self.reply_locating(files, program, args, r),
        }
    }

    /// Called once the requested editor has been run: shows how it failed, if it did,
    /// and reloads (the call returned).
    pub fn editor_done(&mut self, exit: EditorExit) -> (c: Option<GitCall>)
        requires
            old(self).idle(),
            old(self).wf(),
        ensures
            editor_reaction(*old(self), exit, *final(self), c),
            final(self).wf(),
            c is Some && !final(self).idle(),
    {
        match exit {
            EditorExit::Success => {},
            EditorExit::Failed(st) => {
                self.set_status(cat("editor exited with ", st.as_str()), true);
            },
            EditorExit::NotRun(e) => {
                let d = debug_str(self.cfg.editor.as_str());
                self.set_status(cat4("failed to run editor ", d.as_str(), ": ", e.as_str()), true);
            },
        }
        self.reload(After::EditorClosed)
    }
}

// ---------------------------------------------------------------------------
// Laws

/// `d` / `D` act on the visual selection when one is active, otherwise on the cursor
/// branch; either way on branches of the list, in list order.
pub proof fn law_delete_acts_on_selection(a: App)
    requires
        a.wf(),
        a.branches@.len() > 0,
    ensures
        0 <= a.selected().0 <= a.selected().1 < a.branches@.len(),
        a.visual() ==> a.selected().0 == min(a.anchor as int, a.cursor as int)
            && a.selected().1 == max(a.anchor as int, a.cursor as int),
        !a.visual() ==> a.selected_names() == seq![a.branches@[a.cursor as int].name],
        a.selected_names() == names_in(a.branches@, a.selected().0, a.selected().1),
{
    if !a.visual() {
        assert(names_in(a.branches@, a.cursor as int, a.cursor as int) =~= seq![a.branches@[a.cursor as int].name]);
    }
}

/// `v` starts a visual selection anchored at the cursor, and pressing it again ends it.
pub proof fn law_visual_toggles(a: App, ev: KeyEvent, b: App, c: Option<GitCall>, b2: App, c2: Option<GitCall>)
    requires
        a.mode == Mode::Normal,
        a.branches@.len() > 0,
        a.cfg.keys.visual.any_matches(ev),
        !a.cfg.keys.quit.any_matches(ev),
        !a.cfg.keys.up.any_matches(ev),
        !a.cfg.keys.down.any_matches(ev),
        !a.cfg.keys.top.any_matches(ev),
        !a.cfg.keys.bottom.any_matches(ev),
        list_key(a, ev, b, c),
        list_key(b, ev, b2, c2),
    ensures
        b.mode == Mode::Visual && b.anchor == a.cursor && c is None,
        b2.mode == Mode::Normal && b2.cursor == a.cursor && c2 is None,
{
}

/// When a merge / rebase stops on conflicts the app offers what to do about it: continue
/// when no conflicts are left, else resolve.
pub proof fn law_stop_offers_choices(a: App, b: App)
    requires
        stepped(a, Ok(Outcome::Stopped), Ok(()), b),
        a.operation is Some,
    ensures
        b.mode == Mode::Operation,
        b.choice == if a.operation->0.conflicts@.len() == 0 { Choice::Continue } else { Choice::Resolve },
{
}

/// While a merge / rebase is in progress, `p` / `P` reopen its prompt instead of starting
/// another, and ask git for nothing.
pub proof fn law_one_operation_at_a_time(a: App, op: Op, b: App, c: Option<GitCall>)
    requires
        integrates(a, op, b, c),
        a.operation is Some,
        a.cursor < a.branches@.len(),
    ensures
        c is None,
        b.mode == Mode::Operation,
        b.task == a.task,
{
}

/// A plain press of `code`: no modifier, except shift on a character (it shows in the case).
pub open spec fn plain_press(ev: KeyEvent, code: KeyCode) -> bool {
    ev.code == code && (ev.modifiers == crate::config::no_mods() || (code is Char
        && ev.modifiers.unshifted() == crate::config::no_mods()))
}

/// With the default keys, `k` / up, `j` / down, `g` / home and `G` / end move the cursor one
/// up, one down, to the top and to the bottom of the list, staying on it; the list, the
/// repository and the mode stay, the last message is cleared, and git is asked nothing.
pub proof fn law_default_motions(a: App, ev: KeyEvent, b: App, c: Option<GitCall>)
    requires
        crate::config::default_bindings(a.cfg.keys),
        a.mode == Mode::Normal || a.mode == Mode::Visual,
        key_reaction(a, ev, b, c),
    ensures
        (plain_press(ev, KeyCode::Char('k')) || plain_press(ev, KeyCode::Named(NamedKey::Up))) ==> b.cursor == (
        if a.cursor > 0 {
            a.cursor - 1
        } else {
            0
        }),
        (plain_press(ev, KeyCode::Char('j')) || plain_press(ev, KeyCode::Named(NamedKey::Down))) ==> b.cursor
            == min(a.cursor + 1, last_index(a.branches@.len() as int)),
        (plain_press(ev, KeyCode::Char('g')) || plain_press(ev, KeyCode::Named(NamedKey::Home))) ==> b.cursor == 0,
        (plain_press(ev, KeyCode::Char('G')) || plain_press(ev, KeyCode::Named(NamedKey::End))) ==> b.cursor
            == last_index(a.branches@.len() as int),
        (plain_press(ev, KeyCode::Char('k')) || plain_press(ev, KeyCode::Named(NamedKey::Up))
            || plain_press(ev, KeyCode::Char('j')) || plain_press(ev, KeyCode::Named(NamedKey::Down))
            || plain_press(ev, KeyCode::Char('g')) || plain_press(ev, KeyCode::Named(NamedKey::Home))
            || plain_press(ev, KeyCode::Char('G')) || plain_press(ev, KeyCode::Named(NamedKey::End))) ==> (
        b.branches == a.branches && b.repo == a.repo && b.mode == a.mode && b.status is None && c is None),
{
    assert(a.branches.len() == a.branches@.len());
    lemma_default_keys(a.cfg.keys);
}

/// The key that picks a choice in the operation prompt directly.
pub open spec fn choice_key(ch: Choice) -> char {
    match ch {
        Choice::Continue => 'c',
        Choice::Resolve => 'r',
        Choice::Abort => 'a',
    }
}

/// In the operation prompt, `c` continues (asking git what is in progress), `a` aborts
/// (likewise), and `r` opens the editor on the conflicted files, from the top level of the
/// working tree; each leaves the prompt.
pub proof fn law_prompt_keys(a: App, ev: KeyEvent, b: App, c: Option<GitCall>)
    requires
        a.mode == Mode::Operation,
        !ev.modifiers.control,
        key_reaction(a, ev, b, c),
    ensures
        ev.code == KeyCode::Char('c') ==> b.task == Task::Resuming(Resume::Probing) && c == Some(GitCall::InProgress)
            && b.mode == Mode::Normal,
        ev.code == KeyCode::Char('a') ==> b.task == Task::Aborting(Abort::Probing) && c == Some(GitCall::InProgress)
            && b.mode == Mode::Normal,
        ev.code == KeyCode::Char('r') && (a.operation matches Some(o) && o.conflicts@.len() > 0) && words(
            a.cfg.editor@,
        ).len() > 0 ==> (b.task matches Task::Locating { files, .. } && files@ == a.operation->0.conflicts@) && c
            == Some(GitCall::Toplevel) && b.mode == Mode::Normal,
{
}

/// In the operation prompt, Enter picks the highlighted choice: it does just what the
/// choice's own key does.
pub proof fn law_enter_picks_the_highlighted_choice(a: App, enter: KeyEvent, key: KeyEvent, b: App, c: Option<GitCall>)
    requires
        a.mode == Mode::Operation,
        enter.code == KeyCode::Enter,
        key.code == KeyCode::Char(choice_key(a.choice)),
        !key.modifiers.control,
    ensures
        key_reaction(a, enter, b, c) == key_reaction(a, key, b, c),
{
}

/// What each default binding denotes, binding by binding.
proof fn lemma_default_keys(k: crate::config::KeyMap)
    requires
        crate::config::default_bindings(k),
    ensures
        k.up.0@.len() == k.up.denotes().len(),
        forall|i: int| 0 <= i < k.up.0@.len() ==> k.up.denotes()[i] == #[trigger] k.up.0@[i]@,
        k.down.0@.len() == k.down.denotes().len(),
        forall|i: int| 0 <= i < k.down.0@.len() ==> k.down.denotes()[i] == #[trigger] k.down.0@[i]@,
        k.top.0@.len() == k.top.denotes().len(),
        forall|i: int| 0 <= i < k.top.0@.len() ==> k.top.denotes()[i] == #[trigger] k.top.0@[i]@,
        k.bottom.0@.len() == k.bottom.denotes().len(),
        forall|i: int| 0 <= i < k.bottom.0@.len() ==> k.bottom.denotes()[i] == #[trigger] k.bottom.0@[i]@,
        k.delete.0@.len() == k.delete.denotes().len(),
        forall|i: int| 0 <= i < k.delete.0@.len() ==> k.delete.denotes()[i] == #[trigger] k.delete.0@[i]@,
        k.force_delete.0@.len() == k.force_delete.denotes().len(),
        forall|i: int| 0 <= i < k.force_delete.0@.len() ==> k.force_delete.denotes()[i] == #[trigger] k.force_delete.0@[i]@,
        k.visual.0@.len() == k.visual.denotes().len(),
        forall|i: int| 0 <= i < k.visual.0@.len() ==> k.visual.denotes()[i] == #[trigger] k.visual.0@[i]@,
        k.cancel.0@.len() == k.cancel.denotes().len(),
        forall|i: int| 0 <= i < k.cancel.0@.len() ==> k.cancel.denotes()[i] == #[trigger] k.cancel.0@[i]@,
        k.rename.0@.len() == k.rename.denotes().len(),
        forall|i: int| 0 <= i < k.rename.0@.len() ==> k.rename.denotes()[i] == #[trigger] k.rename.0@[i]@,
        k.checkout.0@.len() == k.checkout.denotes().len(),
        forall|i: int| 0 <= i < k.checkout.0@.len() ==> k.checkout.denotes()[i] == #[trigger] k.checkout.0@[i]@,
        k.checkout_new.0@.len() == k.checkout_new.denotes().len(),
        forall|i: int| 0 <= i < k.checkout_new.0@.len() ==> k.checkout_new.denotes()[i] == #[trigger] k.checkout_new.0@[i]@,
        k.yank.0@.len() == k.yank.denotes().len(),
        forall|i: int| 0 <= i < k.yank.0@.len() ==> k.yank.denotes()[i] == #[trigger] k.yank.0@[i]@,
        k.merge.0@.len() == k.merge.denotes().len(),
        forall|i: int| 0 <= i < k.merge.0@.len() ==> k.merge.denotes()[i] == #[trigger] k.merge.0@[i]@,
        k.rebase.0@.len() == k.rebase.denotes().len(),
        forall|i: int| 0 <= i < k.rebase.0@.len() ==> k.rebase.denotes()[i] == #[trigger] k.rebase.0@[i]@,
        k.operation.0@.len() == k.operation.denotes().len(),
        forall|i: int| 0 <= i < k.operation.0@.len() ==> k.operation.denotes()[i] == #[trigger] k.operation.0@[i]@,
        k.reload.0@.len() == k.reload.denotes().len(),
        forall|i: int| 0 <= i < k.reload.0@.len() ==> k.reload.denotes()[i] == #[trigger] k.reload.0@[i]@,
        k.quit.0@.len() == k.quit.denotes().len(),
        forall|i: int| 0 <= i < k.quit.0@.len() ==> k.quit.denotes()[i] == #[trigger] k.quit.0@[i]@,
        k.delete.0@[0]@ == k.delete.denotes()[0],
        k.force_delete.0@[0]@ == k.force_delete.denotes()[0],
        k.visual.0@[0]@ == k.visual.denotes()[0],
        k.cancel.0@[0]@ == k.cancel.denotes()[0],
        k.rename.0@[0]@ == k.rename.denotes()[0],
        k.checkout.0@[0]@ == k.checkout.denotes()[0],
        k.checkout_new.0@[0]@ == k.checkout_new.denotes()[0],
        k.yank.0@[0]@ == k.yank.denotes()[0],
        k.merge.0@[0]@ == k.merge.denotes()[0],
        k.rebase.0@[0]@ == k.rebase.denotes()[0],
        k.operation.0@[0]@ == k.operation.denotes()[0],
        k.reload.0@[0]@ == k.reload.denotes()[0],
        k.up.0@[0]@ == k.up.denotes()[0],
        k.down.0@[0]@ == k.down.denotes()[0],
        k.top.0@[0]@ == k.top.denotes()[0],
        k.bottom.0@[0]@ == k.bottom.denotes()[0],
        k.quit.0@[0]@ == k.quit.denotes()[0],
        k.up.0@[1]@ == k.up.denotes()[1],
        k.down.0@[1]@ == k.down.denotes()[1],
        k.top.0@[1]@ == k.top.denotes()[1],
        k.bottom.0@[1]@ == k.bottom.denotes()[1],
        k.quit.0@[1]@ == k.quit.denotes()[1],
{
    assert(k.up.0@.len() == k.up.denotes().len());
    assert(forall|i: int| 0 <= i < k.up.0@.len() ==> k.up.denotes()[i] == #[trigger] k.up.0@[i]@);
    assert(k.down.0@.len() == k.down.denotes().len());
    assert(forall|i: int| 0 <= i < k.down.0@.len() ==> k.down.denotes()[i] == #[trigger] k.down.0@[i]@);
    assert(k.top.0@.len() == k.top.denotes().len());
    assert(forall|i: int| 0 <= i < k.top.0@.len() ==> k.top.denotes()[i] == #[trigger] k.top.0@[i]@);
    assert(k.bottom.0@.len() == k.bottom.denotes().len());
    assert(forall|i: int| 0 <= i < k.bottom.0@.len() ==> k.bottom.denotes()[i] == #[trigger] k.bottom.0@[i]@);
    assert(k.delete.0@.len() == k.delete.denotes().len());
    assert(forall|i: int| 0 <= i < k.delete.0@.len() ==> k.delete.denotes()[i] == #[trigger] k.delete.0@[i]@);
    assert(k.force_delete.0@.len() == k.force_delete.denotes().len());
    assert(forall|i: int| 0 <= i < k.force_delete.0@.len() ==> k.force_delete.denotes()[i] == #[trigger] k.force_delete.0@[i]@);
    assert(k.visual.0@.len() == k.visual.denotes().len());
    assert(forall|i: int| 0 <= i < k.visual.0@.len() ==> k.visual.denotes()[i] == #[trigger] k.visual.0@[i]@);
    assert(k.cancel.0@.len() == k.cancel.denotes().len());
    assert(forall|i: int| 0 <= i < k.cancel.0@.len() ==> k.cancel.denotes()[i] == #[trigger] k.cancel.0@[i]@);
    assert(k.rename.0@.len() == k.rename.denotes().len());
    assert(forall|i: int| 0 <= i < k.rename.0@.len() ==> k.rename.denotes()[i] == #[trigger] k.rename.0@[i]@);
    assert(k.checkout.0@.len() == k.checkout.denotes().len());
    assert(forall|i: int| 0 <= i < k.checkout.0@.len() ==> k.checkout.denotes()[i] == #[trigger] k.checkout.0@[i]@);
    assert(k.checkout_new.0@.len() == k.checkout_new.denotes().len());
    assert(forall|i: int| 0 <= i < k.checkout_new.0@.len() ==> k.checkout_new.denotes()[i] == #[trigger] k.checkout_new.0@[i]@);
    assert(k.yank.0@.len() == k.yank.denotes().len());
    assert(forall|i: int| 0 <= i < k.yank.0@.len() ==> k.yank.denotes()[i] == #[trigger] k.yank.0@[i]@);
    assert(k.merge.0@.len() == k.merge.denotes().len());
    assert(forall|i: int| 0 <= i < k.merge.0@.len() ==> k.merge.denotes()[i] == #[trigger] k.merge.0@[i]@);
    assert(k.rebase.0@.len() == k.rebase.denotes().len());
    assert(forall|i: int| 0 <= i < k.rebase.0@.len() ==> k.rebase.denotes()[i] == #[trigger] k.rebase.0@[i]@);
    assert(k.operation.0@.len() == k.operation.denotes().len());
    assert(forall|i: int| 0 <= i < k.operation.0@.len() ==> k.operation.denotes()[i] == #[trigger] k.operation.0@[i]@);
    assert(k.reload.0@.len() == k.reload.denotes().len());
    assert(forall|i: int| 0 <= i < k.reload.0@.len() ==> k.reload.denotes()[i] == #[trigger] k.reload.0@[i]@);
    assert(k.quit.0@.len() == k.quit.denotes().len());
    assert(forall|i: int| 0 <= i < k.quit.0@.len() ==> k.quit.denotes()[i] == #[trigger] k.quit.0@[i]@);
}

/// With the default keys, on a list that is not empty: `d` / `D` delete the selection
/// (the visual block, else the cursor branch), with `git branch -d` / `-D`, after asking
/// when confirmation is on; Enter checks the cursor branch out; `y` yanks it; `p` / `P`
/// merge / rebase the yanked branch into / onto it, beginning by reading the yanked
/// branch's commit.
pub proof fn law_default_list_actions(a: App, ev: KeyEvent, b: App, c: Option<GitCall>)
    requires
        crate::config::default_bindings(a.cfg.keys),
        a.mode == Mode::Normal || a.mode == Mode::Visual,
        a.wf(),
        a.branches@.len() > 0,
        key_reaction(a, ev, b, c),
    ensures
        (plain_press(ev, KeyCode::Char('d')) || plain_press(ev, KeyCode::Char('D'))) && a.cfg.confirm_delete ==> (
        b.mode == Mode::Confirm && b.pending_delete@ == a.selected_names() && b.pending_force == plain_press(
            ev,
            KeyCode::Char('D'),
        ) && c is None),
        (plain_press(ev, KeyCode::Char('d')) || plain_press(ev, KeyCode::Char('D'))) && !a.cfg.confirm_delete ==> (
        c matches Some(GitCall::DeleteBranches { names, force }) && names@ == a.selected_names() && force
            == plain_press(ev, KeyCode::Char('D'))),
        plain_press(ev, KeyCode::Enter) ==> c == Some(GitCall::Checkout { name: a.branches@[a.cursor as int].name }),
        plain_press(ev, KeyCode::Char('y')) ==> b.yanked == Some(a.branches@[a.cursor as int].name) && c is None,
        (plain_press(ev, KeyCode::Char('p')) || plain_press(ev, KeyCode::Char('P'))) && a.operation is None && (
        a.yanked matches Some(y) && y@ != a.branches@[a.cursor as int].name@) ==> c == Some(
            GitCall::RevParse { rev: a.yanked->0 },
        ) && b.task == Task::Starting(
            Start {
                op: if plain_press(ev, KeyCode::Char('p')) {
                    Op::Merge
                } else {
                    Op::Rebase
                },
                branch: a.yanked->0,
                target: a.branches@[a.cursor as int].name,
                autostash: a.cfg.autostash,
                stage: crate::ops::StartStage::ParsingBranch,
            },
        ),
{
    assert(a.branches.len() == a.branches@.len());
    lemma_default_keys(a.cfg.keys);
    law_delete_acts_on_selection(a);
    let a0 = App { status: None, ..a };
    assert(a0.selected_names() == a.selected_names());
    assert(a0.cursor_branch() == Some(a.branches@[a.cursor as int].name));
}

/// Stepping through the choices follows their display order, continue, resolve, abort, and
/// goes round at either end.
pub proof fn law_choices_go_round()
    ensures
        choice_at(choice_index(Choice::Continue) + 1) == Choice::Resolve,
        choice_at(choice_index(Choice::Resolve) + 1) == Choice::Abort,
        choice_at(choice_index(Choice::Abort) + 1) == Choice::Continue,
        choice_at(choice_index(Choice::Continue) - 1) == Choice::Abort,
        choice_at(choice_index(Choice::Resolve) - 1) == Choice::Continue,
        choice_at(choice_index(Choice::Abort) - 1) == Choice::Resolve,
{
}

/// In the operation prompt, `l` / Right / Tab highlight the next choice and `h` / Left /
/// BackTab the one before, asking git nothing; Esc goes back to the list.
pub proof fn law_prompt_moves(a: App, ev: KeyEvent, b: App, c: Option<GitCall>)
    requires
        a.mode == Mode::Operation,
        !ev.modifiers.control,
        key_reaction(a, ev, b, c),
    ensures
        ev.code == KeyCode::Char('l') || ev.code == KeyCode::Named(NamedKey::Right) || ev.code == KeyCode::Named(
            NamedKey::Tab,
        ) ==> (b == (App { choice: choice_at(choice_index(a.choice) + 1), ..a }) && c is None),
        ev.code == KeyCode::Char('h') || ev.code == KeyCode::Named(NamedKey::Left) || ev.code == KeyCode::Named(
            NamedKey::BackTab,
        ) ==> (b == (App { choice: choice_at(choice_index(a.choice) - 1), ..a }) && c is None),
        ev.code == KeyCode::Esc ==> (b == (App { mode: Mode::Normal, ..a }) && c is None),
{
}

/// At the delete question, `y` deletes the branches asked about, forcing as asked;
/// any other key (but ctrl+c) cancels and goes back to where the question came from.
pub proof fn law_confirm_answers(a: App, ev: KeyEvent, b: App, c: Option<GitCall>)
    requires
        a.mode == Mode::Confirm,
        key_reaction(a, ev, b, c),
    ensures
        ev.code == KeyCode::Char('y') ==> (c matches Some(GitCall::DeleteBranches { names, force }) && names@
            == a.pending_delete@ && force == a.pending_force),
        ev.code != KeyCode::Char('y') && ev.code != KeyCode::Char('Y') && !(ev.code == KeyCode::Char('c')
            && ev.modifiers.control) ==> b.mode == a.prev_mode && c is None && b.pending_delete@.len() == 0,
{
}

/// In the name prompt, Enter renames the branch the prompt is about to the name typed
/// (spaces around it dropped), or creates a branch of that name from it and checks it out;
/// an empty name, or the same name for a rename, does nothing. Esc goes back.
pub proof fn law_name_prompt_enter(a: App, ev: KeyEvent, b: App, c: Option<GitCall>)
    requires
        a.mode == Mode::Rename || a.mode == Mode::Create,
        key_reaction(a, ev, b, c),
    ensures
        ev.code == KeyCode::Enter && trimmed(a.input@.0).len() > 0 && a.mode == Mode::Rename && trimmed(a.input@.0)
            != a.input_target@ ==> (c matches Some(GitCall::RenameBranch { old, new }) && old == a.input_target
            && new@ == trimmed(a.input@.0)),
        ev.code == KeyCode::Enter && trimmed(a.input@.0).len() > 0 && a.mode == Mode::Create ==> (c matches Some(
            GitCall::CheckoutNew { name, start },
        ) && start == a.input_target && name@ == trimmed(a.input@.0)),
        ev.code == KeyCode::Enter && (trimmed(a.input@.0).len() == 0 || (a.mode == Mode::Rename && trimmed(
            a.input@.0,
        ) == a.input_target@)) ==> c is None && b.mode == Mode::Normal,
        ev.code == KeyCode::Esc ==> c is None && b.mode == a.prev_mode,
{
}

/// With the default keys, `r` opens the name prompt on the cursor branch with its name to
/// edit and the cursor at the end, and `b` opens it empty, to create a branch from it.
pub proof fn law_default_prompt_keys(a: App, ev: KeyEvent, b: App, c: Option<GitCall>)
    requires
        crate::config::default_bindings(a.cfg.keys),
        a.mode == Mode::Normal || a.mode == Mode::Visual,
        a.wf(),
        a.branches@.len() > 0,
        key_reaction(a, ev, b, c),
    ensures
        plain_press(ev, KeyCode::Char('r')) ==> b.mode == Mode::Rename && b.input_target == a.branches@[a.cursor as int].name
            && b.input@ == (a.branches@[a.cursor as int].name@, a.branches@[a.cursor as int].name@.len() as int)
            && c is None,
        plain_press(ev, KeyCode::Char('b')) ==> b.mode == Mode::Create && b.input_target == a.branches@[a.cursor as int].name
            && b.input@ == (Seq::<char>::empty(), 0int) && c is None,
{
    assert(a.branches.len() == a.branches@.len());
    lemma_default_keys(a.cfg.keys);
}

} // verus!
