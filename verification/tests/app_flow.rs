use gim::app::{App, Choice, Mode};
use gim::config::{Config, KeyCode, KeyEvent, KeyModifiers, NamedKey};
use gim::git::{Branch, GitCall, Op, Pending, Reply, Repo};
use gim::ui;

/// A repository held in memory: enough of git for the branch list, and for a merge that
/// stops on conflicts when `conflict` is set.
struct FakeRepo {
    /// (name, hash, subject, merged into HEAD)
    branches: Vec<(String, String, String, bool)>,
    head: String,
    conflict: bool,
    dirty: bool,
    in_progress: Option<Op>,
    record: Option<Pending>,
    stashes: Vec<String>,
}

impl FakeRepo {
    fn find(&self, name: &str) -> Option<usize> {
        self.branches.iter().position(|b| b.0 == name)
    }

    fn answer(&mut self, call: GitCall) -> Reply {
        match call {
            GitCall::ListBranches => {
                let mut bs: Vec<Branch> = self
                    .branches
                    .iter()
                    .map(|(n, h, s, _)| Branch {
                        name: n.clone(),
                        current: *n == self.head,
                        hash: h.clone(),
                        subject: s.clone(),
                    })
                    .collect();
                bs.sort_by(|a, b| a.name.cmp(&b.name));
                Reply::Branches(bs)
            }
            GitCall::DeleteBranches { names, force } => {
                for n in &names {
                    match self.find(n) {
                        None => return Reply::Failed(format!("error: branch '{n}' not found")),
                        Some(i) => {
                            if *n == self.head {
                                return Reply::Failed(format!("error: cannot delete branch '{n}'"));
                            }
                            if !force && !self.branches[i].3 {
                                return Reply::Failed(format!("error: the branch '{n}' is not fully merged"));
                            }
                        }
                    }
                }
                self.branches.retain(|b| !names.contains(&b.0));
                Reply::Done
            }
            GitCall::RenameBranch { old, new } => match self.find(&old) {
                Some(i) => {
                    self.branches[i].0 = new.clone();
                    if self.head == old {
                        self.head = new;
                    }
                    Reply::Done
                }
                None => Reply::Failed("no such branch".to_string()),
            },
            GitCall::CheckoutNew { name, start } => match self.find(&start) {
                Some(i) => {
                    let (_, h, s, m) = self.branches[i].clone();
                    self.branches.push((name.clone(), h, s, m));
                    self.head = name;
                    Reply::Done
                }
                None => Reply::Failed("no such branch".to_string()),
            },
            GitCall::Checkout { name } => {
                if self.find(&name).is_some() {
                    self.head = name;
                    Reply::Done
                } else {
                    Reply::Failed("no such branch".to_string())
                }
            }
            GitCall::InProgress => Reply::State(self.in_progress),
            GitCall::RevParse { rev } => match self.find(&rev) {
                Some(i) => Reply::Text(self.branches[i].1.clone()),
                None => Reply::Failed(format!("unknown revision {rev}")),
            },
            GitCall::IsAncestor { .. } => Reply::Flag(false),
            GitCall::CurrentBranch => Reply::MaybeText(Some(self.head.clone())),
            GitCall::HeadRef => Reply::Text(self.head.clone()),
            GitCall::MergeTree { .. } => {
                if self.conflict {
                    Reply::MaybeText(None)
                } else {
                    Reply::MaybeText(Some("tree".to_string()))
                }
            }
            GitCall::IsDirty => Reply::Flag(self.dirty),
            GitCall::StashPush => {
                self.dirty = false;
                self.stashes.push("stash@{0}".to_string());
                Reply::Text("stash@{0}".to_string())
            }
            GitCall::StashPop { .. } => {
                self.stashes.pop();
                self.dirty = true;
                Reply::Done
            }
            GitCall::SavePending { pending } => {
                self.record = Some(pending);
                Reply::Done
            }
            GitCall::LoadPending => Reply::Record(self.record.clone()),
            GitCall::ClearPending => {
                self.record = None;
                Reply::Done
            }
            GitCall::Merge { .. } => {
                if self.conflict {
                    self.in_progress = Some(Op::Merge);
                    Reply::Failed("CONFLICT (add/add): Merge conflict in x".to_string())
                } else {
                    Reply::Done
                }
            }
            GitCall::ConflictedFiles => {
                Reply::Texts(if self.in_progress.is_some() { vec!["x".to_string()] } else { vec![] })
            }
            GitCall::MergeAbort => {
                self.in_progress = None;
                Reply::Done
            }
            _ => Reply::Failed("not supported here".to_string()),
        }
    }

    fn names(&self) -> Vec<String> {
        let mut v: Vec<String> = self.branches.iter().map(|b| b.0.clone()).collect();
        v.sort();
        v
    }
}

fn drive(repo: &mut FakeRepo, app: &mut App, mut call: Option<GitCall>) {
    while let Some(c) = call {
        let r = repo.answer(c);
        call = app.handle_reply(r);
    }
}

/// A repository with `main` checked out and the given branches at the same commit.
fn setup(branches: &[&str]) -> (FakeRepo, App) {
    let mut repo = FakeRepo {
        branches: vec![("main".to_string(), "abc1234".to_string(), "init".to_string(), true)],
        head: "main".to_string(),
        conflict: false,
        dirty: false,
        in_progress: None,
        record: None,
        stashes: vec![],
    };
    for b in branches {
        repo.branches.push((b.to_string(), "abc1234".to_string(), "init".to_string(), true));
    }
    let (mut app, call) = App::new(Repo::new(".".to_string()), Config::default());
    drive(&mut repo, &mut app, Some(call));
    (repo, app)
}

fn none() -> KeyModifiers {
    KeyModifiers::none()
}

fn press(repo: &mut FakeRepo, app: &mut App, keys: &[&str]) {
    for k in keys {
        let ev = match *k {
            "esc" => KeyEvent::new(KeyCode::Esc, none()),
            "enter" => KeyEvent::new(KeyCode::Enter, none()),
            "ctrl+u" => KeyEvent::new(KeyCode::Char('u'), KeyModifiers { control: true, ..none() }),
            "left" => KeyEvent::new(KeyCode::Named(NamedKey::Left), none()),
            s => {
                let c = s.chars().next().unwrap();
                let mods = if c.is_uppercase() { KeyModifiers { shift: true, ..none() } } else { none() };
                KeyEvent::new(KeyCode::Char(c), mods)
            }
        };
        let call = app.handle_key(ev);
        drive(repo, app, call);
    }
}

fn is_error(app: &App) -> bool {
    app.status.as_ref().is_some_and(|s| s.error)
}

#[test]
fn cursor_starts_on_current_and_moves() {
    let (mut r, mut app) = setup(&["a", "b"]); // a, b, main
    assert_eq!(app.cursor, 2);
    press(&mut r, &mut app, &["k", "k", "k"]);
    assert_eq!(app.cursor, 0);
    press(&mut r, &mut app, &["j"]);
    assert_eq!(app.cursor, 1);
    press(&mut r, &mut app, &["j", "j", "j"]);
    assert_eq!(app.cursor, 2);
}

#[test]
fn delete_with_confirm() {
    let (mut r, mut app) = setup(&["a", "b"]);
    press(&mut r, &mut app, &["g", "d", "n"]);
    assert_eq!(r.names(), ["a", "b", "main"]);
    press(&mut r, &mut app, &["d", "y"]);
    assert_eq!(r.names(), ["b", "main"]);
}

#[test]
fn visual_delete_and_cancel() {
    let (mut r, mut app) = setup(&["a", "b", "c"]);
    press(&mut r, &mut app, &["g", "v", "j", "esc"]);
    assert_eq!(app.mode, Mode::Normal);
    press(&mut r, &mut app, &["g", "v", "j", "j", "D", "y"]);
    assert_eq!(r.names(), ["main"]);
    assert_eq!((app.mode, app.cursor), (Mode::Normal, 0));
}

#[test]
fn unmerged_needs_force() {
    let (mut r, mut app) = setup(&[]);
    r.branches.push(("feat".to_string(), "def5678".to_string(), "x".to_string(), false));
    press(&mut r, &mut app, &["R", "g", "d", "y"]);
    assert!(is_error(&app));
    assert_eq!(r.names(), ["feat", "main"]);
    press(&mut r, &mut app, &["D", "y"]);
    assert_eq!(r.names(), ["main"]);
}

#[test]
fn rename_and_checkout() {
    let (mut r, mut app) = setup(&["a"]);
    press(&mut r, &mut app, &["g", "r", "ctrl+u", "z", "enter"]);
    assert_eq!(r.names(), ["main", "z"]);
    assert_eq!(app.branches[app.cursor].name, "z");
    press(&mut r, &mut app, &["enter"]);
    assert!(app.branches[app.cursor].current, "{:?}", app.status);
}

#[test]
fn checkout_new_from_cursor_branch() {
    let (mut r, mut app) = setup(&[]);
    r.branches.push(("base".to_string(), "bbb0000".to_string(), "on base".to_string(), false));
    press(&mut r, &mut app, &["R", "g", "b", "esc"]);
    assert_eq!((app.mode, r.names().len()), (Mode::Normal, 2));
    press(&mut r, &mut app, &["b", "f", "e", "a", "t", "enter"]);
    assert_eq!(r.names(), ["base", "feat", "main"]);
    let cur = &app.branches[app.cursor];
    assert!(cur.current && cur.name == "feat", "{:?}", app.status);
    assert_eq!(cur.subject, "on base");
}

#[test]
fn merge_and_rebase_need_a_yank() {
    let (mut r, mut app) = setup(&["a"]);
    press(&mut r, &mut app, &["p"]);
    assert!(is_error(&app));
    press(&mut r, &mut app, &["g", "y", "P"]);
    assert_eq!(app.yanked.as_deref(), Some("a"));
    assert!(is_error(&app), "self rebase");
}

#[test]
fn status_messages_of_list_actions() {
    let (mut r, mut app) = setup(&["a"]);
    press(&mut r, &mut app, &["g", "y"]);
    assert_eq!(app.status.as_ref().unwrap().text, "yanked a");
    press(&mut r, &mut app, &["p"]);
    assert_eq!(app.status.as_ref().unwrap().text, "a is the yanked branch itself");
    press(&mut r, &mut app, &["o"]);
    let s = app.status.as_ref().unwrap();
    assert_eq!((s.text.as_str(), s.error), ("no merge or rebase in progress", false));
    press(&mut r, &mut app, &["enter"]);
    assert_eq!(app.status.as_ref().unwrap().text, "switched to a");
    press(&mut r, &mut app, &["G", "d", "y"]);
    assert_eq!(app.status.as_ref().unwrap().text, "deleted main");
    assert_eq!(app.cursor, 0);
}

#[test]
fn rename_to_same_name_does_nothing() {
    let (mut r, mut app) = setup(&["a"]);
    press(&mut r, &mut app, &["g", "r", "enter"]);
    assert_eq!(app.mode, Mode::Normal);
    assert!(app.status.is_none());
    assert_eq!(r.names(), ["a", "main"]);
    press(&mut r, &mut app, &["r", "x", "left", "y", "enter"]);
    assert_eq!(r.names(), ["ayx", "main"]);
    assert_eq!(app.status.as_ref().unwrap().text, "renamed a -> ayx");
}

#[test]
fn confirm_cancel_returns_to_visual() {
    let (mut r, mut app) = setup(&["a", "b"]);
    press(&mut r, &mut app, &["g", "v", "j", "d"]);
    assert_eq!(app.mode, Mode::Confirm);
    assert_eq!(app.pending_delete, ["a", "b"]);
    assert!(app.in_visual());
    assert_eq!(app.selection(), (0, 1));
    press(&mut r, &mut app, &["x"]);
    assert_eq!(app.mode, Mode::Visual);
    assert!(app.pending_delete.is_empty());
    assert_eq!(app.status.as_ref().unwrap().text, "cancelled");
}

#[test]
fn quit_key() {
    let (mut r, mut app) = setup(&[]);
    press(&mut r, &mut app, &["q"]);
    assert!(app.quit);
}

#[test]
fn visual_toggles() {
    let (mut r, mut app) = setup(&["a", "b"]);
    press(&mut r, &mut app, &["g", "v"]);
    assert_eq!((app.mode, app.anchor), (Mode::Visual, 0));
    press(&mut r, &mut app, &["j", "v"]);
    assert_eq!((app.mode, app.cursor), (Mode::Normal, 1));
    assert!(!app.in_visual());
    assert_eq!(app.selection(), (1, 1));
}

fn cursor_to(app: &mut App, name: &str) {
    app.cursor = app.branches.iter().position(|b| b.name == name).unwrap();
}

/// The title line as the screen shows it.
fn title(app: &App) -> String {
    ui::title(app).into_iter().map(|(t, _)| t).collect()
}

/// The status line as the screen shows it: the text, then the choices when choosing.
fn status_row(app: &App) -> String {
    let (text, tone) = ui::status_line(app);
    if tone == ui::Tone::Choosing {
        let choices: Vec<String> = Choice::all().into_iter().map(ui::choice_text).collect();
        text + &choices.join(" ")
    } else {
        text
    }
}

#[test]
fn renders_operation() {
    let (mut r, mut app) = setup(&["dev", "feat"]);
    r.conflict = true;
    r.dirty = true;
    app.cfg.autostash = true;
    cursor_to(&mut app, "feat");
    press(&mut r, &mut app, &["y"]);
    cursor_to(&mut app, "dev");
    press(&mut r, &mut app, &["p"]);
    let row0 = title(&app);
    assert!(row0.contains(" MERGING  merging feat into dev (1 conflicted file)"), "{row0}");
    assert!(row0.contains("yanked: feat"), "{row0}");
    assert_eq!(
        status_row(&app).trim_end(),
        "merging feat into dev, 1 conflicted file:  continue   resolve   abort"
    );
}

#[test]
fn renders() {
    let (mut r, mut app) = setup(&["feature/login", "fix-bug"]);
    press(&mut r, &mut app, &["g", "v", "j", "d"]);
    let w = ui::name_width(&app.branches);
    assert!(title(&app).contains("VISUAL"));
    assert!(ui::row_text(&app.branches[0], w).starts_with("  feature/login"));
    assert!(ui::row_text(&app.branches[2], w).starts_with("* main"));
    assert_eq!(status_row(&app), "Delete feature/login, fix-bug? [y/N]");
}

#[test]
fn conflicting_merge_aborted_returns_to_the_start() {
    let (mut r, mut app) = setup(&["dev", "feat"]);
    r.conflict = true;
    r.dirty = true;
    app.cfg.autostash = true;
    cursor_to(&mut app, "feat");
    press(&mut r, &mut app, &["y"]);
    cursor_to(&mut app, "dev");
    press(&mut r, &mut app, &["p"]);
    assert_eq!((r.head.as_str(), r.dirty), ("dev", false));
    assert_eq!(app.mode, Mode::Operation);
    press(&mut r, &mut app, &["a"]);
    assert_eq!(app.status.as_ref().unwrap().text, "merge aborted");
    assert_eq!((r.head.as_str(), r.dirty), ("main", true));
    assert!(r.record.is_none() && r.stashes.is_empty());
    assert!(app.operation.is_none());
}
