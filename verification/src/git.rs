//! The git side: branches, the calls the library asks the binary to make, and
//! the replies it gets back.

use vstd::prelude::*;
use vstd::string::*;

use crate::text::{
    cat, chars_to_string, eq_str, find_char, first_index, lemma_first_index, lemma_first_index_bounds,
    lines_of, split_lines, str_chars, strip_cr, trim, trimmed, views,
};

verus! {

/// A local branch as `git for-each-ref` lists it.
#[derive(Debug, Clone, PartialEq, Eq)]
pub struct Branch {
    pub name: String,
    pub current: bool,
    pub hash: String,
    pub subject: String,
}

/// The kind of an operation that can stop on conflicts.
#[derive(Debug, Clone, Copy, PartialEq, Eq, Structural)]
pub enum Op {
    Merge,
    Rebase,
}

/// What gim records in the git dir while a merge / rebase it started needs the
/// working tree: where to return, and what to report.
#[derive(Debug, Clone, PartialEq, Eq)]
pub struct Pending {
    /// The branch (or commit) that was checked out.
    pub orig: String,
    /// The stash holding the uncommitted changes, if they were stashed.
    pub stash: Option<String>,
    /// What is in progress, e.g. "merging feat into dev".
    pub desc: String,
    /// The message once it is done, e.g. "merged feat into dev".
    pub done: String,
}

/// A repository that git commands run in.
#[derive(Debug, Clone)]
pub struct Repo {
    pub dir: String,
}

/// A git command line to run in a directory.
#[derive(Debug, Clone)]
pub struct Invocation {
    pub dir: String,
    pub args: Vec<String>,
}

/// One thing the library needs done on the repository. The binary performs it
/// and answers with a `Reply` of the kind named on each variant; any call can
/// instead fail with `Reply::Failed`, except `ReadFile`.
#[derive(Debug, Clone)]
pub enum GitCall {
    /// `Reply::Branches`: the local branches, sorted by name.
    ListBranches,
    /// `Reply::Done`: `git branch -d` (or `-D` when `force`).
    DeleteBranches { names: Vec<String>, force: bool },
    /// `Reply::Done`: `git branch -m`.
    RenameBranch { old: String, new: String },
    /// `Reply::Done`: `git checkout -b <name> <start>`.
    CheckoutNew { name: String, start: String },
    /// `Reply::Done`: `git checkout`.
    Checkout { name: String },
    /// `Reply::State`: the merge / rebase in progress, if any.
    InProgress,
    /// `Reply::Record`: the record gim keeps while an operation it started runs.
    LoadPending,
    /// `Reply::Done`: store the record.
    SavePending { pending: Pending },
    /// `Reply::Done`: remove the record.
    ClearPending,
    /// `Reply::Texts`: the unresolved paths, relative to the top level.
    ConflictedFiles,
    /// `Reply::Text`: the top level of the working tree.
    Toplevel,
    /// `Reply::Text`: the commit a revision names.
    RevParse { rev: String },
    /// `Reply::Flag`: whether `ancestor` is an ancestor of `descendant`.
    IsAncestor { ancestor: String, descendant: String },
    /// `Reply::MaybeText`: the branch checked out, if any.
    CurrentBranch,
    /// `Reply::Text`: the branch checked out, or the commit when detached.
    HeadRef,
    /// `Reply::Flag`: whether there are uncommitted changes.
    IsDirty,
    /// `Reply::Text`: stash the uncommitted changes; the stash made.
    StashPush,
    /// `Reply::Done`: apply and drop a stash.
    StashPop { stash: String },
    /// `Reply::Done`: move branch `name` from `old` to `new`.
    UpdateBranch { name: String, new: String, old: String, msg: String },
    /// `Reply::MaybeText`: the merged tree of two commits, or none on conflicts.
    MergeTree { ours: String, theirs: String },
    /// `Reply::Text`: a commit of `tree` with the given parents.
    CommitTree { tree: String, parents: Vec<String>, subject: String },
    /// `Reply::Done`: `git merge` into the branch checked out.
    Merge { branch: String },
    /// `Reply::Done`: `git rebase <onto> <branch>`.
    Rebase { branch: String, onto: String },
    /// `Reply::Done`: `git commit` to conclude a merge.
    MergeContinue,
    /// `Reply::Done`: `git rebase --continue`.
    RebaseContinue,
    /// `Reply::Done`: `git merge --abort`.
    MergeAbort,
    /// `Reply::Done`: `git rebase --abort`.
    RebaseAbort,
    /// `Reply::Done`: `git add`.
    Add { files: Vec<String> },
    /// `Reply::MaybeText`: the contents of `path` under `dir`, none when it cannot be read.
    ReadFile { dir: String, path: String },
}

/// The answer to a `GitCall`.
#[derive(Debug, Clone)]
pub enum Reply {
    Failed(String),
    Done,
    Flag(bool),
    Text(String),
    MaybeText(Option<String>),
    Texts(Vec<String>),
    Branches(Vec<Branch>),
    State(Option<Op>),
    Record(Option<Pending>),
}

/// The message a reply stands for when it is not the kind that was asked for.
pub open spec fn failure_of(r: Reply) -> Seq<char> {
    match r {
        Reply::Failed(e) => e@,
        _ => "unexpected reply from git"@,
    }
}

impl Reply {
    /// The message of a reply that is not of the expected kind.
    pub fn failure(self) -> (e: String)
        ensures
            e@ == failure_of(self),
    {
        match self {
            Reply::Failed(e) => e,
            _ => String::from_str("unexpected reply from git"),
        }
    }

    /// The reply to a call that only succeeds or fails.
    pub fn unit(self) -> (r: Result<(), String>)
        ensures
            self is Done ==> r is Ok,
            !(self is Done) ==> (r matches Err(e) && e@ == failure_of(self)),
    {
        match self {
            Reply::Done => Ok(()),
            other => Err(other.failure()),
        }
    }
}

/// The message of a failed git run: what it wrote to stderr, trimmed, or, when that is
/// empty, how it exited.
pub open spec fn git_failure_text(stderr: Seq<char>, status: Seq<char>) -> Seq<char> {
    if trimmed(stderr).len() == 0 {
        "git exited with "@ + status
    } else {
        trimmed(stderr)
    }
}

/// The message of a failed git run, from its stderr and how its exit status reads.
pub fn git_failure(stderr: &str, status: &str) -> (e: String)
    ensures
        e@ == git_failure_text(stderr@, status@),
{
    let t = trim(stderr);
    if t.as_str().unicode_len() == 0 {
        cat("git exited with ", status)
    } else {
        t
    }
}

/// The message when git cannot be run at all.
pub fn spawn_failure(error: &str) -> (e: String)
    ensures
        e@ == "failed to run git: "@ + error@,
{
    cat("failed to run git: ", error)
}

/// The fields of a `for-each-ref` line: split at the first three tabs.
pub open spec fn cut(s: Seq<char>) -> (Seq<char>, Option<Seq<char>>) {
    let i = first_index(s, '\t');
    if i < s.len() {
        (s.take(i), Some(s.skip(i + 1)))
    } else {
        (s, None)
    }
}

pub open spec fn fields(l: Seq<char>) -> Seq<Seq<char>> {
    let (a, r1) = cut(l);
    match r1 {
        None => seq![a],
        Some(r1) => {
            let (b, r2) = cut(r1);
            match r2 {
                None => seq![a, b],
                Some(r2) => {
                    let (c, r3) = cut(r2);
                    match r3 {
                        None => seq![a, b, c],
                        Some(d) => seq![a, b, c, d],
                    }
                },
            }
        },
    }
}

/// Field `k` of a line, empty when the line has fewer fields.
pub open spec fn field(l: Seq<char>, k: int) -> Seq<char> {
    if k < fields(l).len() {
        fields(l)[k]
    } else {
        Seq::empty()
    }
}

/// The lines that are not empty.
pub open spec fn nonempty_lines(ls: Seq<Seq<char>>) -> Seq<Seq<char>>
    decreases ls.len(),
{
    if ls.len() == 0 {
        Seq::empty()
    } else {
        nonempty_lines(ls.drop_last()) + if ls.last().len() > 0 {
            seq![ls.last()]
        } else {
            Seq::empty()
        }
    }
}

/// The branch a `for-each-ref` line describes: `HEAD marker, name, hash, subject`.
pub open spec fn branch_from_line(b: Branch, l: Seq<char>) -> bool {
    &&& b.current == (field(l, 0) == "*"@)
    &&& b.name@ == field(l, 1)
    &&& b.hash@ == field(l, 2)
    &&& b.subject@ == field(l, 3)
}

/// The branches that the output of `Repo::list_branches` lists.
pub open spec fn branches_listed(bs: Seq<Branch>, out: Seq<char>) -> bool {
    let ls = nonempty_lines(lines_of(out));
    &&& bs.len() == ls.len()
    &&& forall|i: int| 0 <= i < bs.len() ==> branch_from_line(#[trigger] bs[i], ls[i])
}

/// The field from `from` up to the next tab (to the end, when `last`), and where the next field starts.
fn next_field(cs: &Vec<char>, from: usize, last: bool) -> (r: (String, Option<usize>))
    requires
        from <= cs@.len(),
    ensures
        ({
            let (a, rest) = cut(cs@.skip(from as int));
            if last {
                r.0@ == cs@.skip(from as int) && r.1 is None
            } else {
                &&& r.0@ == a
                &&& rest is None ==> r.1 is None
                &&& rest matches Some(x) ==> (r.1 matches Some(p) && p <= cs@.len() && x == cs@.skip(p as int))
            }
        }),
{
    if last {
        let s = chars_to_string(&cs.as_slice()[from..cs.len()]);
        assert(s@ =~= cs@.skip(from as int));
        return (s, None);
    }
    let i = find_char(cs, from, '\t');
    proof {
        lemma_first_index_bounds(cs@.skip(from as int), '\t');
    }
    let s = chars_to_string(&cs.as_slice()[from..i]);
    assert(s@ =~= cs@.skip(from as int).take(i - from));
    if i < cs.len() {
        assert(cs@.skip(from as int).skip(i - from + 1) =~= cs@.skip(i + 1));
        (s, Some(i + 1))
    } else {
        assert(s@ =~= cs@.skip(from as int));
        (s, None)
    }
}

fn parse_branch_line(line: &String) -> (b: Branch)
    ensures
        branch_from_line(b, line@),
{
    let cs = str_chars(line.as_str());
    assert(cs@.skip(0) =~= cs@);
    let ghost l = cs@;
    let (f0, p1) = next_field(&cs, 0, false);
    let mut f1 = String::new();
    let mut f2 = String::new();
    let mut f3 = String::new();
    if let Some(p1) = p1 {
        let (a, p2) = next_field(&cs, p1, false);
        f1 = a;
        if let Some(p2) = p2 {
            let (b, p3) = next_field(&cs, p2, false);
            f2 = b;
            if let Some(p3) = p3 {
                let (c, _) = next_field(&cs, p3, true);
                f3 = c;
            }
        }
    }
    let current = eq_str(&str_chars(f0.as_str()), "*");
    assert(f1@ == field(l, 1));
    assert(f2@ == field(l, 2));
    assert(f3@ == field(l, 3));
    Branch { current, name: f1, hash: f2, subject: f3 }
}

impl Repo {
    pub fn new(dir: String) -> (r: Repo)
        ensures
            r.dir == dir,
    {
        Repo { dir }
    }

    fn invocation(&self, args: Vec<String>) -> (c: Invocation)
        ensures
            c.dir == self.dir,
            c.args == args,
    {
        Invocation { dir: self.dir.clone(), args }
    }

    /// The command that lists the local branches, sorted by name; its output
    /// is read by `Repo::parse_branches`.
    pub fn list_branches(&self) -> (c: Invocation)
        ensures
            c.dir == self.dir,
            views(c.args@) == seq![
                "for-each-ref"@,
                "--format=%(HEAD)%09%(refname:short)%09%(objectname:short)%09%(contents:subject)"@,
                "refs/heads"@,
            ],
    {
        let args = vec![
            String::from_str("for-each-ref"),
            String::from_str(
                "--format=%(HEAD)%09%(refname:short)%09%(objectname:short)%09%(contents:subject)",
            ),
            String::from_str("refs/heads"),
        ];
        let c = self.invocation(args);
        assert(views(c.args@) =~= seq![
            "for-each-ref"@,
            "--format=%(HEAD)%09%(refname:short)%09%(objectname:short)%09%(contents:subject)"@,
            "refs/heads"@,
        ]);
        c
    }

    /// The branches listed by the output of the command from `Repo::list_branches`:
    /// one per line that is not empty.
    pub fn parse_branches(out: &str) -> (bs: Vec<Branch>)
        ensures
            branches_listed(bs@, out@),
    {
        let lines = split_lines(out);
        let ghost ls = lines_of(out@);
        let mut bs: Vec<Branch> = Vec::new();
        let mut i: usize = 0;
        while i < lines.len()
            invariant
                views(lines@) == ls,
                i <= lines@.len(),
                bs@.len() == nonempty_lines(ls.take(i as int)).len(),
                forall|j: int|
                    0 <= j < bs@.len() ==> branch_from_line(
                        #[trigger] bs@[j],
                        nonempty_lines(ls.take(i as int))[j],
                    ),
            decreases lines@.len() - i,
        {
            let ghost prev = nonempty_lines(ls.take(i as int));
            assert(ls.take(i + 1).drop_last() =~= ls.take(i as int));
            assert(ls[i as int] == lines@[i as int]@);
            if !lines[i].as_str().is_empty() {
                let b = parse_branch_line(&lines[i]);
                bs.push(b);
            }
            i = i + 1;
        }
        assert(ls.take(lines@.len() as int) =~= ls);
        bs
    }

    /// `git branch -d` (or `-D` when `force`) on the named branches.
    pub fn delete_branches(&self, names: &Vec<String>, force: bool) -> (c: Invocation)
        ensures
            c.dir == self.dir,
            views(c.args@) == seq!["branch"@, if force { "-D"@ } else { "-d"@ }, "--"@] + views(names@),
    {
        let mut args = vec![
            String::from_str("branch"),
            String::from_str(if force { "-D" } else { "-d" }),
            String::from_str("--"),
        ];
        let mut i: usize = 0;
        while i < names.len()
            invariant
                i <= names@.len(),
                views(args@) == seq!["branch"@, if force { "-D"@ } else { "-d"@ }, "--"@] + views(names@.take(i as int)),
            decreases names@.len() - i,
        {
            let ghost before = args@;
            args.push(names[i].clone());
            assert(names@.take(i + 1) =~= names@.take(i as int).push(names@[i as int]));
            assert(views(args@) =~= views(before).push(names@[i as int]@));
            assert(views(names@.take(i + 1)) =~= views(names@.take(i as int)).push(names@[i as int]@));
            i = i + 1;
        }
        assert(names@.take(names@.len() as int) =~= names@);
        self.invocation(args)
    }

    /// `git branch -m -- <old> <new>`.
    pub fn rename_branch(&self, old: &str, new: &str) -> (c: Invocation)
        ensures
            c.dir == self.dir,
            views(c.args@) == seq!["branch"@, "-m"@, "--"@, old@, new@],
    {
        let args = vec![
            String::from_str("branch"),
            String::from_str("-m"),
            String::from_str("--"),
            String::from_str(old),
            String::from_str(new),
        ];
        let c = self.invocation(args);
        assert(views(c.args@) =~= seq!["branch"@, "-m"@, "--"@, old@, new@]);
        c
    }

    /// `git checkout -b <name> <start> --`.
    pub fn checkout_new(&self, name: &str, start: &str) -> (c: Invocation)
        ensures
            c.dir == self.dir,
            views(c.args@) == seq!["checkout"@, "-b"@, name@, start@, "--"@],
    {
        let args = vec![
            String::from_str("checkout"),
            String::from_str("-b"),
            String::from_str(name),
            String::from_str(start),
            String::from_str("--"),
        ];
        let c = self.invocation(args);
        assert(views(c.args@) =~= seq!["checkout"@, "-b"@, name@, start@, "--"@]);
        c
    }

    /// `git checkout <name> --`.
    pub fn checkout(&self, name: &str) -> (c: Invocation)
        ensures
            c.dir == self.dir,
            views(c.args@) == seq!["checkout"@, name@, "--"@],
    {
        let args = vec![String::from_str("checkout"), String::from_str(name), String::from_str("--")];
        let c = self.invocation(args);
        assert(views(c.args@) =~= seq!["checkout"@, name@, "--"@]);
        c
    }
}

/// A record, as plain text: `orig`, `stash`, `desc`, `done`.
pub type PendingText = (Seq<char>, Option<Seq<char>>, Seq<char>, Seq<char>);

pub open spec fn pending_view(p: Pending) -> PendingText {
    (p.orig@, match p.stash {
        Some(s) => Some(s@),
        None => None,
    }, p.desc@, p.done@)
}

/// How a record is stored: one field per line, an empty line for no stash.
pub open spec fn encode_pending(p: PendingText) -> Seq<char> {
    p.0 + "\n"@ + match p.1 {
        Some(s) => s,
        None => Seq::empty(),
    } + "\n"@ + p.2 + "\n"@ + p.3 + "\n"@
}

/// The record that stored text holds: exactly four lines.
pub open spec fn decode_pending(s: Seq<char>) -> Option<PendingText> {
    let ls = lines_of(s);
    if ls.len() == 4 {
        Some((ls[0], if ls[1].len() == 0 {
            None
        } else {
            Some(ls[1])
        }, ls[2], ls[3]))
    } else {
        None
    }
}

/// A field that a line holds as it is: no line break in it, no carriage return at its end.
pub open spec fn line_safe(f: Seq<char>) -> bool {
    &&& forall|i: int| 0 <= i < f.len() ==> f[i] != '\n'
    &&& (f.len() > 0 ==> f.last() != '\r')
}

proof fn lemma_lines_cons(a: Seq<char>, rest: Seq<char>)
    requires
        line_safe(a),
    ensures
        lines_of(a + "\n"@ + rest) == seq![a] + lines_of(rest),
{
    reveal_strlit("\n");
    let s = a + "\n"@ + rest;
    assert(s[a.len() as int] == '\n');
    assert forall|j: int| 0 <= j < a.len() implies s[j] != '\n' by {
        assert(s[j] == a[j]);
    }
    lemma_first_index(s, '\n', a.len() as int);
    assert(s.take(a.len() as int) =~= a);
    assert(s.skip(a.len() as int + 1) =~= rest);
    assert(strip_cr(a) == a);
}

/// What a record holds is read back as it was stored, when its fields are single lines
/// and a stash, if there is one, has a name.
pub proof fn law_pending_round_trip(p: PendingText)
    requires
        line_safe(p.0),
        p.1 matches Some(st) ==> line_safe(st) && st.len() > 0,
        line_safe(p.2),
        line_safe(p.3),
    ensures
        decode_pending(encode_pending(p)) == Some(p),
{
    let st = match p.1 {
        Some(s) => s,
        None => Seq::<char>::empty(),
    };
    let e = encode_pending(p);
    let r3 = p.3 + "\n"@ + Seq::<char>::empty();
    let r2 = p.2 + "\n"@ + r3;
    let r1 = st + "\n"@ + r2;
    assert(e =~= p.0 + "\n"@ + r1);
    lemma_lines_cons(p.0, r1);
    lemma_lines_cons(st, r2);
    lemma_lines_cons(p.2, r3);
    lemma_lines_cons(p.3, Seq::<char>::empty());
    assert(lines_of(Seq::<char>::empty()) =~= Seq::<Seq<char>>::empty());
    let ls = lines_of(e);
    assert(ls =~= seq![p.0, st, p.2, p.3]);
}

impl Pending {
    /// The text the record is stored as.
    pub fn encode(&self) -> (s: String)
        ensures
            s@ == encode_pending(pending_view(*self)),
    {
        let mut s = cat(self.orig.as_str(), "\n");
        match &self.stash {
            Some(st) => s.append(st.as_str()),
            None => {},
        }
        s.append("\n");
        s.append(self.desc.as_str());
        s.append("\n");
        s.append(self.done.as_str());
        s.append("\n");
        proof {
            reveal_strlit("\n");
        }
        assert(s@ =~= encode_pending(pending_view(*self)));
        s
    }

    /// The record stored as `s`, if `s` is one.
    pub fn decode(s: &str) -> (r: Option<Pending>)
        ensures
            match (r, decode_pending(s@)) {
                (Some(p), Some(t)) => pending_view(p) == t,
                (None, None) => true,
                _ => false,
            },
    {
        let ls = split_lines(s);
        if ls.len() != 4 {
            return None;
        }
        assert(views(ls@)[0] == ls@[0]@);
        assert(views(ls@)[1] == ls@[1]@);
        assert(views(ls@)[2] == ls@[2]@);
        assert(views(ls@)[3] == ls@[3]@);
        let stash = if ls[1].as_str().is_empty() {
            None
        } else {
            Some(ls[1].clone())
        };
        Some(Pending { orig: ls[0].clone(), stash, desc: ls[2].clone(), done: ls[3].clone() })
    }
}

// ---------------------------------------------------------------------------
// Reading git's output

/// The paths git lists one per line (`git diff --name-only`): the lines that are not empty.
pub fn listed_paths(out: &str) -> (r: Vec<String>)
    ensures
        views(r@) == nonempty_lines(lines_of(out@)),
{
    let lines = split_lines(out);
    let ghost ls = lines_of(out@);
    let mut r: Vec<String> = Vec::new();
    let mut i: usize = 0;
    while i < lines.len()
        invariant
            views(lines@) == ls,
            ls == lines_of(out@),
            i <= lines@.len(),
            views(r@) == nonempty_lines(ls.take(i as int)),
        decreases lines@.len() - i,
    {
        assert(ls.take(i + 1).drop_last() =~= ls.take(i as int));
        assert(views(lines@)[i as int] == lines@[i as int]@);
        let ghost before = r@;
        if !lines[i].as_str().is_empty() {
            r.push(lines[i].clone());
            assert(views(r@) =~= views(before).push(lines@[i as int]@));
        } else {
            assert(nonempty_lines(ls.take(i + 1)) =~= nonempty_lines(ls.take(i as int)));
        }
        i = i + 1;
    }
    assert(ls.take(lines@.len() as int) =~= ls);
    r
}

/// The first line of git's output, trimmed, if there is one (`git merge-tree` writes the tree first).
pub fn first_line(out: &str) -> (r: Option<String>)
    ensures
        lines_of(out@).len() == 0 ==> r is None,
        lines_of(out@).len() > 0 ==> (r matches Some(t) && t@ == trimmed(lines_of(out@)[0])),
{
    let lines = split_lines(out);
    if lines.len() == 0 {
        None
    } else {
        assert(views(lines@)[0] == lines@[0]@);
        Some(trim(lines[0].as_str()))
    }
}

/// The position of `stash` in the list of stashes (`git stash list --format=%H`), if it is there.
pub fn stash_index(list: &str, stash: &str) -> (r: Option<usize>)
    ensures
        r matches Some(i) ==> i < lines_of(list@).len() && trimmed(lines_of(list@)[i as int]) == stash@
            && forall|j: int| 0 <= j < i ==> trimmed(#[trigger] lines_of(list@)[j]) != stash@,
        r is None ==> forall|j: int| 0 <= j < lines_of(list@).len() ==> trimmed(#[trigger] lines_of(list@)[j]) != stash@,
{
    let lines = split_lines(list);
    let ghost ls = lines_of(list@);
    let mut i: usize = 0;
    while i < lines.len()
        invariant
            views(lines@) == ls,
            ls == lines_of(list@),
            i <= lines@.len(),
            forall|j: int| 0 <= j < i ==> trimmed(#[trigger] ls[j]) != stash@,
        decreases lines@.len() - i,
    {
        assert(views(lines@)[i as int] == lines@[i as int]@);
        let t = trim(lines[i].as_str());
        if crate::text::same_text(t.as_str(), stash) {
            return Some(i);
        }
        i = i + 1;
    }
    None
}

/// The line `git for-each-ref` writes for a branch with the format `Repo::list_branches`
/// asks for: the HEAD marker, name, hash and subject, tab-separated.
pub open spec fn listing_line(b: Branch) -> Seq<char> {
    (if b.current { "*"@ } else { " "@ }) + "\t"@ + b.name@ + "\t"@ + b.hash@ + "\t"@ + b.subject@
}

/// What git writes for `bs`: one line each.
pub open spec fn listing_text(bs: Seq<Branch>) -> Seq<char>
    decreases bs.len(),
{
    if bs.len() == 0 {
        Seq::empty()
    } else {
        listing_line(bs[0]) + "\n"@ + listing_text(bs.drop_first())
    }
}

/// A branch that git's listing can carry: no tab or line break in its name or hash, no
/// line break in its subject (which may hold tabs).
pub open spec fn listable(b: Branch) -> bool {
    &&& forall|i: int| 0 <= i < b.name@.len() ==> b.name@[i] != '\t' && b.name@[i] != '\n'
    &&& forall|i: int| 0 <= i < b.hash@.len() ==> b.hash@[i] != '\t' && b.hash@[i] != '\n'
    &&& line_safe(b.subject@)
}

proof fn lemma_line_fields(b: Branch)
    requires
        listable(b),
    ensures
        line_safe(listing_line(b)),
        listing_line(b).len() > 0,
        branch_from_line(b, listing_line(b)),
{
    reveal_strlit("*");
    reveal_strlit(" ");
    reveal_strlit("\t");
    let m: Seq<char> = if b.current { "*"@ } else { " "@ };
    let (n, h, sub) = (b.name@, b.hash@, b.subject@);
    let l = listing_line(b);
    let r1 = n + "\t"@ + h + "\t"@ + sub;
    let r2 = h + "\t"@ + sub;
    assert(l =~= m + "\t"@ + r1);
    assert(r1 =~= n + "\t"@ + r2);
    // The first tab of each part ends its first field.
    assert(l[1] == '\t');
    lemma_first_index(l, '\t', 1);
    assert(l.take(1) =~= m);
    assert(l.skip(2) =~= r1);
    assert(r1[n.len() as int] == '\t');
    assert forall|j: int| 0 <= j < n.len() implies r1[j] != '\t' by {
        assert(r1[j] == n[j]);
    }
    lemma_first_index(r1, '\t', n.len() as int);
    assert(r1.take(n.len() as int) =~= n);
    assert(r1.skip(n.len() as int + 1) =~= r2);
    assert(r2[h.len() as int] == '\t');
    assert forall|j: int| 0 <= j < h.len() implies r2[j] != '\t' by {
        assert(r2[j] == h[j]);
    }
    lemma_first_index(r2, '\t', h.len() as int);
    assert(r2.take(h.len() as int) =~= h);
    assert(r2.skip(h.len() as int + 1) =~= sub);
    assert(fields(l) =~= seq![m, n, h, sub]);
    assert(" "@ != "*"@) by {
        assert(" "@[0] != "*"@[0]);
    }
    assert forall|i: int| 0 <= i < l.len() implies l[i] != '\n' by {
        if i >= 2 {
            assert(l[i] == r1[i - 2]);
            if i - 2 >= n.len() + 1 {
                assert(r1[i - 2] == r2[i - 2 - n.len() - 1]);
                let k = i - 2 - n.len() - 1;
                if k >= h.len() + 1 {
                    assert(r2[k] == sub[k - h.len() - 1]);
                }
            }
        }
    }
    if sub.len() == 0 {
        assert(l.last() == '\t');
    } else {
        assert(l.last() == sub.last());
    }
}

proof fn lemma_listing_lines(bs: Seq<Branch>)
    requires
        forall|i: int| 0 <= i < bs.len() ==> listable(#[trigger] bs[i]),
    ensures
        lines_of(listing_text(bs)) == bs.map_values(|b: Branch| listing_line(b)),
    decreases bs.len(),
{
    if bs.len() == 0 {
        assert(lines_of(listing_text(bs)) =~= bs.map_values(|b: Branch| listing_line(b)));
    } else {
        let rest = bs.drop_first();
        assert forall|i: int| 0 <= i < rest.len() implies listable(#[trigger] rest[i]) by {
            assert(rest[i] == bs[i + 1]);
        }
        lemma_listing_lines(rest);
        assert(listable(bs[0]));
        lemma_line_fields(bs[0]);
        lemma_lines_cons(listing_line(bs[0]), listing_text(rest));
        assert(bs.map_values(|b: Branch| listing_line(b)) =~= seq![listing_line(bs[0])]
            + rest.map_values(|b: Branch| listing_line(b)));
    }
}

proof fn lemma_all_nonempty(ls: Seq<Seq<char>>)
    requires
        forall|i: int| 0 <= i < ls.len() ==> (#[trigger] ls[i]).len() > 0,
    ensures
        nonempty_lines(ls) == ls,
    decreases ls.len(),
{
    if ls.len() > 0 {
        lemma_all_nonempty(ls.drop_last());
        assert(ls.drop_last() + seq![ls.last()] =~= ls);
    }
}

/// The listing git writes for branches that it can carry reads back as those branches.
pub proof fn law_listing_reads_back(bs: Seq<Branch>)
    requires
        forall|i: int| 0 <= i < bs.len() ==> listable(#[trigger] bs[i]),
    ensures
        branches_listed(bs, listing_text(bs)),
{
    lemma_listing_lines(bs);
    let ls = bs.map_values(|b: Branch| listing_line(b));
    assert forall|i: int| 0 <= i < ls.len() implies (#[trigger] ls[i]).len() > 0 by {
        lemma_line_fields(bs[i]);
    }
    lemma_all_nonempty(ls);
    assert forall|i: int| 0 <= i < bs.len() implies branch_from_line(#[trigger] bs[i], ls[i]) by {
        lemma_line_fields(bs[i]);
    }
}

} // verus!
