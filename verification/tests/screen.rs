use gim::app::{App, Choice, Mode, Status};
use gim::config::Config;
use gim::git::{Branch, GitCall, Op, Reply, Repo};
use gim::ops::Operation;
use gim::ui::{self, Tone};

fn branch(name: &str, current: bool) -> Branch {
    Branch { name: name.into(), current, hash: "abc1234".into(), subject: "init".into() }
}

fn app_with(names: &[&str]) -> App {
    let (mut app, _) = App::new(Repo::new(".".into()), Config::default());
    let bs: Vec<Branch> = names.iter().map(|n| branch(n, *n == "main")).collect();
    let call = app.handle_reply(Reply::Branches(bs));
    assert!(matches!(call, Some(GitCall::InProgress)));
    assert!(app.handle_reply(Reply::State(None)).is_none());
    app
}

#[test]
fn confirm_line_names_the_branches() {
    let mut app = app_with(&["feature/login", "fix-bug", "main"]);
    app.mode = Mode::Confirm;
    app.pending_delete = vec!["feature/login".into(), "fix-bug".into()];
    let (text, tone) = ui::status_line(&app);
    assert_eq!((text.as_str(), tone), ("Delete feature/login, fix-bug? [y/N]", Tone::Alert));
    app.pending_force = true;
    assert_eq!(ui::status_line(&app).0, "Force delete feature/login, fix-bug? [y/N]");
}

#[test]
fn rows() {
    let app = app_with(&["feature/login", "fix-bug", "main"]);
    let w = ui::name_width(&app.branches);
    assert_eq!(w, 13);
    assert!(ui::row_text(&app.branches[0], w).starts_with("  feature/login"));
    assert_eq!(ui::row_text(&app.branches[2], w), "* main           abc1234  init");
    assert_eq!(ui::pad_name("é", 3), "é  ");
    assert!(ui::is_highlighted(&app, 2) && !ui::is_highlighted(&app, 0));
}

#[test]
fn operation_texts() {
    let o = Operation { op: Op::Merge, desc: "merging feat into dev".into(), conflicts: vec!["x".into()] };
    assert_eq!(ui::operation_badge(o.op), " MERGING ");
    assert_eq!(ui::operation_summary(&o), "merging feat into dev (1 conflicted file)");
    let line: String = ui::operation_prompt(&o)
        + &Choice::all().iter().map(|c| ui::choice_text(*c)).collect::<Vec<_>>().join(" ");
    assert_eq!(line.trim_end(), "merging feat into dev, 1 conflicted file:  continue   resolve   abort");
    let two = Operation { conflicts: vec!["x".into(), "y".into()], ..o };
    assert_eq!(ui::operation_summary(&two), "merging feat into dev (2 conflicted files)");
    let many = Operation { conflicts: (0..12).map(|i| i.to_string()).collect(), ..two };
    assert_eq!(ui::operation_summary(&many), "merging feat into dev (12 conflicted files)");
}

#[test]
fn help_and_status_lines() {
    let mut app = app_with(&["main"]);
    assert_eq!(
        ui::help(&app),
        "j: down  k: up  enter: checkout  b: checkout -b  r: rename  d: delete  D: force delete  v: visual  q: quit"
    );
    app.mode = Mode::Rename;
    assert_eq!(ui::help(&app), "enter: confirm  esc: cancel");
    app.input_target = "main".into();
    app.input.set("ma");
    assert_eq!(ui::status_line(&app), ("rename main to: ma".to_string(), Tone::Plain));
    assert_eq!(ui::cursor_x("rename main to: ", "ma", 0, 80), 18);
    assert_eq!(ui::cursor_x("rename main to: ", "ma", 0, 10), 9);
    app.mode = Mode::Normal;
    app.status = Some(Status { text: "error: one\n\n  two  \n".into(), error: true });
    assert_eq!(ui::status_line(&app), ("error: one | two".to_string(), Tone::Error));
    assert_eq!(ui::one_line(""), "");
}

#[test]
fn operation_prompt_flow() {
    let (mut app, _) = App::new(Repo::new(".".into()), Config::default());
    let _ = app.handle_reply(Reply::Branches(vec![branch("dev", false), branch("main", true)]));
    let _ = app.handle_reply(Reply::State(Some(Op::Merge)));
    let _ = app.handle_reply(Reply::Record(None));
    assert!(app.handle_reply(Reply::Texts(vec!["x".into()])).is_none());
    assert_eq!(app.cursor, 1);
    let op = app.operation.as_ref().unwrap();
    assert_eq!(op.desc, "merge in progress");
    // A new merge reopens the prompt instead of starting.
    let ev = |c| gim::config::KeyEvent::new(gim::config::KeyCode::Char(c), gim::config::KeyModifiers::none());
    assert!(app.handle_key(ev('p')).is_none());
    assert_eq!((app.mode, app.choice), (Mode::Operation, Choice::Resolve));
    assert!(app.handle_key(ev('l')).is_none());
    assert_eq!(app.choice, Choice::Abort);
    assert!(app.handle_key(ev('l')).is_none());
    assert_eq!(app.choice, Choice::Continue);
    assert_eq!(ui::status_line(&app).1, Tone::Choosing);
    // Resolve: the editor is asked for on the conflicted files, from the top level.
    app.cfg.editor = "myeditor --wait".into();
    let call = app.handle_key(ev('r'));
    assert!(matches!(call, Some(GitCall::Toplevel)));
    assert!(app.handle_reply(Reply::Text("/top".into())).is_none());
    let req = app.editor_request.take().unwrap();
    assert_eq!((req.program.as_str(), req.dir.as_str()), ("myeditor", "/top"));
    assert_eq!(req.args, ["--wait", "x"]);
    assert_eq!(app.status.as_ref().unwrap().text, "resolve the conflicts, then press o and continue");
    // Abort.
    let _ = app.handle_key(ev('o'));
    assert_eq!(app.mode, Mode::Operation);
    let call = app.handle_key(ev('a'));
    assert!(matches!(call, Some(GitCall::InProgress)));
    assert!(matches!(app.handle_reply(Reply::State(Some(Op::Merge))), Some(GitCall::MergeAbort)));
    assert!(matches!(app.handle_reply(Reply::Done), Some(GitCall::LoadPending)));
    assert!(matches!(app.handle_reply(Reply::Record(None)), Some(GitCall::ListBranches)));
    let _ = app.handle_reply(Reply::Branches(vec![branch("dev", false), branch("main", true)]));
    assert!(app.handle_reply(Reply::State(None)).is_none());
    assert_eq!(app.status.as_ref().unwrap().text, "merge aborted");
    assert!(app.operation.is_none());
}

#[test]
fn failed_start_quits_with_the_error() {
    let (mut app, _) = App::new(Repo::new(".".into()), Config::default());
    assert!(app.handle_reply(Reply::Failed("not a git repository".into())).is_none());
    assert!(app.quit);
    assert_eq!(app.status.unwrap().text, "not a git repository");
}

#[test]
fn choice_cycle() {
    for c in Choice::all() {
        assert_eq!(c.step(1).step(-1), c);
        assert_eq!(c.step(1).step(1).step(1), c);
    }
    assert_eq!(Choice::Continue.step(-1), Choice::Abort);
    assert_eq!(Choice::Abort.label(), "abort");
}

#[test]
fn stopped_merge_opens_the_prompt() {
    let (mut app, _) = App::new(Repo::new(".".into()), Config::default());
    let _ = app.handle_reply(Reply::Branches(vec![branch("feat", false), branch("main", true)]));
    assert!(app.handle_reply(Reply::State(None)).is_none());
    let ev = |c| gim::config::KeyEvent::new(gim::config::KeyCode::Char(c), gim::config::KeyModifiers::none());
    assert!(app.handle_key(ev('k')).is_none());
    assert!(app.handle_key(ev('y')).is_none());
    assert!(app.handle_key(ev('j')).is_none());
    let mut call = app.handle_key(ev('p'));
    let replies = vec![
        Reply::Text("b1".into()),
        Reply::Text("t1".into()),
        Reply::Flag(false),
        Reply::MaybeText(Some("main".into())),
        Reply::Text("main".into()),
        Reply::Flag(false),
        Reply::Done,
        Reply::Done,
        Reply::Failed("CONFLICT".into()),
        Reply::State(Some(Op::Merge)),
        Reply::Branches(vec![branch("feat", false), branch("main", true)]),
        Reply::State(Some(Op::Merge)),
        Reply::Record(None),
        Reply::Texts(vec!["x".into()]),
    ];
    for r in replies {
        assert!(call.is_some());
        call = app.handle_reply(r);
    }
    assert!(call.is_none());
    assert_eq!((app.mode, app.choice), (Mode::Operation, Choice::Resolve));
}
