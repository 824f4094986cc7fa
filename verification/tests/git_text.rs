use gim::git::{Branch, Pending, Repo};
use gim::text;

#[test]
fn branch_list_parsing() {
    let out = " \ta\tabc1234\tfirst\n*\tmain\tdef5678\tsecond\twith tab\n\n  b\n";
    let bs = Repo::parse_branches(out);
    assert_eq!(bs.len(), 3);
    assert_eq!(
        bs[1],
        Branch { name: "main".into(), current: true, hash: "def5678".into(), subject: "second\twith tab".into() }
    );
    assert_eq!((bs[0].name.as_str(), bs[0].current, bs[0].subject.as_str()), ("a", false, "first"));
    assert_eq!((bs[2].name.as_str(), bs[2].hash.as_str()), ("", ""));
}

#[test]
fn command_lines() {
    let r = Repo::new("/repo".into());
    let c = r.delete_branches(&vec!["a".into(), "b".into()], true);
    assert_eq!(c.dir, "/repo");
    assert_eq!(c.args, ["branch", "-D", "--", "a", "b"]);
    assert_eq!(r.delete_branches(&vec!["a".into()], false).args, ["branch", "-d", "--", "a"]);
    assert_eq!(r.rename_branch("a", "b").args, ["branch", "-m", "--", "a", "b"]);
    assert_eq!(r.checkout_new("n", "s").args, ["checkout", "-b", "n", "s", "--"]);
    assert_eq!(r.checkout("x").args, ["checkout", "x", "--"]);
    assert_eq!(r.list_branches().args[0], "for-each-ref");
}

#[test]
fn pending_record_round_trip() {
    let p = Pending { orig: "main".into(), stash: Some("abc".into()), desc: "merging a into b".into(), done: "merged a into b".into() };
    assert_eq!(Pending::decode(&p.encode()), Some(p));
    let q = Pending { orig: "main".into(), stash: None, desc: "d".into(), done: "e".into() };
    assert_eq!(q.encode(), "main\n\nd\ne\n");
    assert_eq!(Pending::decode(&q.encode()), Some(q));
    assert_eq!(Pending::decode("only\nthree\nlines\n"), None);
}

#[test]
fn text_helpers() {
    assert_eq!(text::split_lines("a\r\nb\n\nc"), ["a", "b", "", "c"]);
    assert!(text::split_lines("").is_empty());
    assert_eq!(text::trim("  x y \t"), "x y");
    assert_eq!(text::split_words("  nvim  -d\tx "), ["nvim", "-d", "x"]);
    // Unicode spaces count as white space; a zero width space does not.
    assert_eq!(text::trim("\u{3000}a\u{2009}b\u{00A0}"), "a\u{2009}b");
    assert_eq!(text::split_words("a\u{200B}b c"), ["a\u{200B}b", "c"]);
    assert_eq!(text::join(&vec!["a".into(), "b".into()], ", "), "a, b");
    assert!(text::starts_with("<<<<<<< HEAD", "<<<<<<< "));
}

#[test]
fn listing_reads_back() {
    let bs = vec![
        Branch { name: "feature/x".into(), current: false, hash: "1111111".into(), subject: "a\tb".into() },
        Branch { name: "main".into(), current: true, hash: "2222222".into(), subject: "".into() },
    ];
    let out: String = bs
        .iter()
        .map(|b| format!("{}\t{}\t{}\t{}\n", if b.current { "*" } else { " " }, b.name, b.hash, b.subject))
        .collect();
    assert_eq!(Repo::parse_branches(&out), bs);
}

#[test]
fn git_failure_messages() {
    assert_eq!(gim::git::git_failure("  fatal: no\n", "exit status: 128"), "fatal: no");
    assert_eq!(gim::git::git_failure(" \n", "exit status: 1"), "git exited with exit status: 1");
    assert_eq!(gim::git::spawn_failure("not found"), "failed to run git: not found");
    assert_eq!(gim::ui::no_branches(), "  (no branches)");
}
