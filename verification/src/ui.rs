//! What the screen shows: the texts of the title, the branch rows, the status line and
//! the help line, and where the cursor of the input prompt goes. Drawing them is up
//! to the binary.

use vstd::prelude::*;
use vstd::string::*;

use unicode_width::UnicodeWidthStr;

use crate::app::{App, Choice, Mode};
use crate::config::{names_key, Keys};
use crate::git::{Branch, Op};
use crate::ops::Operation;
use crate::text::{cat, cat3, cat4, join, joined, lines_of, split_lines, trim, trimmed, views};

verus! {

/// The display width of a string in terminal columns, as unicode-width's
/// `UnicodeWidthStr::width` measures it.
pub uninterp spec fn display_width(s: Seq<char>) -> usize;

/// unicode-width's `UnicodeWidthStr::width`. Trusted: the result is `display_width` of the
/// text, a function of the text alone; printable ASCII text is one column per character,
/// as the crate's rules give every such character width 1 and join none of them.
#[verifier::external_body]
fn text_width(s: &str) -> (w: usize)
    ensures
        w == display_width(s@),
        printable_ascii(s@) ==> w == s@.len(),
{
    s.width()
}

/// The character of the decimal digit `d`.
pub open spec fn digit(d: nat) -> char {
    (48 + d) as char
}

/// How a number reads in decimal: its digits, most significant first, with no leading zero.
pub open spec fn decimal(n: nat) -> Seq<char>
    decreases n,
{
    if n < 10 {
        seq![digit(n)]
    } else {
        decimal(n / 10) + seq![digit(n % 10)]
    }
}

/// Text of printable ASCII characters, from space to tilde.
pub open spec fn printable_ascii(s: Seq<char>) -> bool {
    forall|i: int| 0 <= i < s.len() ==> 0x20 <= (#[trigger] s[i]) as u32 <= 0x7E
}

/// `usize::to_string` (`<usize as Display>::fmt`). Trusted: the number in decimal.
#[verifier::external_body]
fn number_text(n: usize) -> (s: String)
    ensures
        s@ == decimal(n as nat),
{
    n.to_string()
}

/// How the status line is to look.
#[derive(Debug, Clone, Copy, PartialEq, Eq, Structural)]
pub enum Tone {
    /// Input being typed, or nothing to say.
    Plain,
    /// A question about deleting branches.
    Alert,
    /// The prompt for the merge / rebase in progress; the choices follow it.
    Choosing,
    Success,
    Error,
}

/// The widest branch name.
pub open spec fn widest(bs: Seq<Branch>) -> int
    decreases bs.len(),
{
    if bs.len() == 0 {
        0
    } else {
        let w = display_width(bs.last().name@) as int;
        let r = widest(bs.drop_last());
        if w > r {
            w
        } else {
            r
        }
    }
}

proof fn lemma_widest_bounds(bs: Seq<Branch>)
    ensures
        0 <= widest(bs) <= usize::MAX,
    decreases bs.len(),
{
    if bs.len() > 0 {
        lemma_widest_bounds(bs.drop_last());
    }
}

/// The width of the name column: the widest name.
pub fn name_width(branches: &Vec<Branch>) -> (w: usize)
    ensures
        w as int == widest(branches@),
{
    let mut w: usize = 0;
    let mut i: usize = 0;
    while i < branches.len()
        invariant
            i <= branches@.len(),
            w as int == widest(branches@.take(i as int)),
        decreases branches@.len() - i,
    {
        assert(branches@.take(i + 1).drop_last() =~= branches@.take(i as int));
        let x = text_width(branches[i].name.as_str());
        if x > w {
            w = x;
        }
        i = i + 1;
    }
    assert(branches@.take(branches@.len() as int) =~= branches@);
    w
}

/// What the list shows when there are no branches.
pub fn no_branches() -> (s: &'static str)
    ensures
        s@ == "  (no branches)"@,
{
    "  (no branches)"
}

/// `n` spaces.
pub open spec fn spaces(n: int) -> Seq<char> {
    Seq::new(if n > 0 { n as nat } else { 0 }, |i: int| ' ')
}

/// A name padded with spaces to `width` characters, as `{:<width$}` formats it.
pub open spec fn padded(name: Seq<char>, width: int) -> Seq<char> {
    name + spaces(width - name.len())
}

pub fn pad_name(name: &str, width: usize) -> (s: String)
    ensures
        s@ == padded(name@, width as int),
{
    let n = name.unicode_len();
    let mut s = String::from_str(name);
    let mut k: usize = n;
    while k < width
        invariant
            n == name@.len(),
            n <= k <= width || (k == n && n >= width),
            s@ == name@ + spaces(k - n),
        decreases width - k,
    {
        s.append(" ");
        proof {
            reveal_strlit(" ");
        }
        assert(s@ =~= name@ + spaces(k + 1 - n));
        k = k + 1;
    }
    assert(s@ =~= padded(name@, width as int));
    s
}

pub open spec fn marker_text(current: bool) -> Seq<char> {
    if current {
        "* "@
    } else {
        "  "@
    }
}

/// The mark before a branch name: `* ` for the branch checked out.
pub fn marker(current: bool) -> (s: &'static str)
    ensures
        s@ == marker_text(current),
{
    if current {
        "* "
    } else {
        "  "
    }
}

/// A branch row as plain text: mark, padded name, hash, subject.
pub open spec fn row(b: Branch, width: int) -> Seq<char> {
    marker_text(b.current) + padded(b.name@, width) + "  "@ + b.hash@ + "  "@ + b.subject@
}

pub fn row_text(b: &Branch, width: usize) -> (s: String)
    ensures
        s@ == row(*b, width as int),
{
    let name = pad_name(b.name.as_str(), width);
    let mut s = cat(marker(b.current), name.as_str());
    s.append("  ");
    s.append(b.hash.as_str());
    s.append("  ");
    s.append(b.subject.as_str());
    s
}

/// A row is highlighted: it is the cursor's, or in the visual selection.
pub open spec fn highlighted(app: App, i: int) -> bool {
    i == app.cursor || (app.visual() && app.selected().0 <= i <= app.selected().1)
}

pub fn is_highlighted(app: &App, i: usize) -> (b: bool)
    ensures
        b == highlighted(*app, i as int),
{
    let (lo, hi) = app.selection();
    i == app.cursor || (app.in_visual() && lo <= i && i <= hi)
}

pub open spec fn prompt_text(app: App) -> Seq<char> {
    match app.mode {
        Mode::Rename => "rename "@ + app.input_target@ + " to: "@,
        Mode::Create => "new branch from "@ + app.input_target@ + ": "@,
        _ => Seq::empty(),
    }
}

/// The prompt before the text being typed.
pub fn prompt(app: &App) -> (s: String)
    ensures
        s@ == prompt_text(*app),
{
    match app.mode {
        Mode::Rename => cat3("rename ", app.input_target.as_str(), " to: "),
        Mode::Create => cat3("new branch from ", app.input_target.as_str(), ": "),
        _ => String::new(),
    }
}

/// The lines of `ls` that are not empty after trimming, trimmed.
pub open spec fn trimmed_lines(ls: Seq<Seq<char>>) -> Seq<Seq<char>>
    decreases ls.len(),
{
    if ls.len() == 0 {
        Seq::empty()
    } else {
        let t = trimmed(ls.last());
        trimmed_lines(ls.drop_last()) + if t.len() > 0 {
            seq![t]
        } else {
            Seq::empty()
        }
    }
}

pub open spec fn one_line_text(s: Seq<char>) -> Seq<char> {
    joined(trimmed_lines(lines_of(s)), " | "@)
}

/// A message on one line: its lines trimmed, the empty ones left out, joined with ` | `.
pub fn one_line(s: &str) -> (r: String)
    ensures
        r@ == one_line_text(s@),
{
    let lines = split_lines(s);
    let ghost ls = lines_of(s@);
    let mut kept: Vec<String> = Vec::new();
    let mut i: usize = 0;
    while i < lines.len()
        invariant
            views(lines@) == ls,
            i <= lines@.len(),
            views(kept@) == trimmed_lines(ls.take(i as int)),
        decreases lines@.len() - i,
    {
        assert(ls.take(i + 1).drop_last() =~= ls.take(i as int));
        assert(views(lines@)[i as int] == lines@[i as int]@);
        let t = trim(lines[i].as_str());
        let ghost before = kept@;
        if !t.as_str().is_empty() {
            kept.push(t);
            assert(views(kept@) =~= views(before).push(t@));
        } else {
            assert(trimmed_lines(ls.take(i + 1)) =~= trimmed_lines(ls.take(i as int)));
        }
        i = i + 1;
    }
    assert(ls.take(lines@.len() as int) =~= ls);
    join(&kept, " | ")
}

pub open spec fn count_text(n: usize) -> Seq<char> {
    decimal(n as nat) + if n == 1 {
        " conflicted file"@
    } else {
        " conflicted files"@
    }
}

fn count_of(n: usize) -> (s: String)
    ensures
        s@ == count_text(n),
{
    let d = number_text(n);
    if n == 1 {
        cat(d.as_str(), " conflicted file")
    } else {
        cat(d.as_str(), " conflicted files")
    }
}

pub open spec fn badge_text(op: Op) -> Seq<char> {
    match op {
        Op::Merge => " MERGING "@,
        Op::Rebase => " REBASING "@,
    }
}

/// The title badge for a merge / rebase in progress.
pub fn operation_badge(op: Op) -> (s: &'static str)
    ensures
        s@ == badge_text(op),
{
    match op {
        Op::Merge => " MERGING ",
        Op::Rebase => " REBASING ",
    }
}

/// What is in progress, for the title: e.g. `merging feat into dev (1 conflicted file)`.
pub fn operation_summary(o: &Operation) -> (s: String)
    ensures
        s@ == summary_text(*o),
{
    let n = count_of(o.conflicts.len());
    cat4(o.desc.as_str(), " (", n.as_str(), ")")
}

pub open spec fn summary_text(o: Operation) -> Seq<char> {
    o.desc@ + " ("@ + count_text(o.conflicts@.len() as usize) + ")"@
}

/// How a piece of the title is to look.
#[derive(Debug, Clone, Copy, PartialEq, Eq, Structural)]
pub enum Look {
    /// The program's name.
    Name,
    /// The visual-mode badge.
    Visual,
    /// The merge / rebase badge.
    Badge,
    Plain,
    /// Hints in the background, such as the yanked branch.
    Dim,
}

/// The pieces of the title: the name, the visual badge in visual mode, the merge / rebase
/// in progress with its badge, and the yanked branch.
pub open spec fn title_text(app: App) -> Seq<(Seq<char>, Look)> {
    seq![("gim \u{2014} branches"@, Look::Name)] + (if app.visual() {
        seq![(" "@, Look::Plain), (" VISUAL "@, Look::Visual)]
    } else {
        Seq::empty()
    }) + match app.operation {
        Some(o) => seq![(" "@, Look::Plain), (badge_text(o.op), Look::Badge), (" "@, Look::Plain), (summary_text(o), Look::Plain)],
        None => Seq::empty(),
    } + match app.yanked {
        Some(y) => seq![("  yanked: "@ + y@, Look::Dim)],
        None => Seq::empty(),
    }
}

pub open spec fn pieces(v: Seq<(String, Look)>) -> Seq<(Seq<char>, Look)> {
    v.map_values(|p: (String, Look)| (p.0@, p.1))
}

/// The title line, in pieces.
pub fn title(app: &App) -> (v: Vec<(String, Look)>)
    ensures
        pieces(v@) == title_text(*app),
{
    let mut v: Vec<(String, Look)> = Vec::new();
    v.push((String::from_str("gim \u{2014} branches"), Look::Name));
    let ghost t0 = pieces(v@);
    if app.in_visual() {
        v.push((String::from_str(" "), Look::Plain));
        v.push((String::from_str(" VISUAL "), Look::Visual));
    }
    let ghost t1 = pieces(v@);
    match &app.operation {
        Some(o) => {
            v.push((String::from_str(" "), Look::Plain));
            v.push((String::from_str(operation_badge(o.op)), Look::Badge));
            v.push((String::from_str(" "), Look::Plain));
            v.push((operation_summary(o), Look::Plain));
        },
        None => {},
    }
    let ghost t2 = pieces(v@);
    match &app.yanked {
        Some(y) => {
            v.push((cat("  yanked: ", y.as_str()), Look::Dim));
        },
        None => {},
    }
    assert(pieces(v@) =~= title_text(*app));
    v
}

pub open spec fn operation_prompt_text(o: Operation) -> Seq<char> {
    o.desc@ + ", "@ + count_text(o.conflicts@.len() as usize) + ": "@
}

/// The prompt before the choices: e.g. `merging feat into dev, 1 conflicted file: `.
pub fn operation_prompt(o: &Operation) -> (s: String)
    ensures
        s@ == operation_prompt_text(*o),
{
    let n = count_of(o.conflicts.len());
    cat4(o.desc.as_str(), ", ", n.as_str(), ": ")
}

/// A choice as the prompt shows it: its label with a space on each side.
pub fn choice_text(c: Choice) -> (s: String)
    ensures
        s@ == " "@ + (match c {
            Choice::Continue => "continue"@,
            Choice::Resolve => "resolve"@,
            Choice::Abort => "abort"@,
        }) + " "@,
{
    cat3(" ", c.label(), " ")
}

pub open spec fn status_text(app: App) -> (Seq<char>, Tone) {
    match app.mode {
        Mode::Rename | Mode::Create => (prompt_text(app) + app.input@.0, Tone::Plain),
        Mode::Confirm => ((if app.pending_force {
            "Force delete"@
        } else {
            "Delete"@
        }) + " "@ + joined(views(app.pending_delete@), ", "@) + "? [y/N]"@, Tone::Alert),
        Mode::Operation if app.operation is Some => (operation_prompt_text(app.operation->0), Tone::Choosing),
        _ => match app.status {
            Some(s) => if s.error {
                (one_line_text(s.text@), Tone::Error)
            } else {
                (s.text@, Tone::Success)
            },
            None => (Seq::empty(), Tone::Plain),
        },
    }
}

/// The status line: the input prompt, the delete question, the operation prompt, or the
/// last message (an error on one line).
pub fn status_line(app: &App) -> (r: (String, Tone))
    ensures
        (r.0@, r.1) == status_text(*app),
{
    match app.mode {
        Mode::Rename | Mode::Create => {
            let p = prompt(app);
            let v = app.input.value();
            (cat(p.as_str(), v.as_str()), Tone::Plain)
        },
        Mode::Confirm => {
            let verb = if app.pending_force { "Force delete" } else { "Delete" };
            let names = join(&app.pending_delete, ", ");
            (cat4(verb, " ", names.as_str(), "? [y/N]"), Tone::Alert)
        },
        _ => {
            if app.mode == Mode::Operation {
                if let Some(o) = &app.operation {
                    return (operation_prompt(o), Tone::Choosing);
                }
            }
            match &app.status {
                Some(s) => if s.error {
                    (one_line(s.text.as_str()), Tone::Error)
                } else {
                    (s.text.clone(), Tone::Success)
                },
                None => (String::new(), Tone::Plain),
            }
        },
    }
}

/// The column of the input cursor: after the prompt and the text before the cursor,
/// at most the last column of the status area.
pub open spec fn cursor_column(prompt: Seq<char>, before: Seq<char>, x: u16, right: u16) -> u16 {
    let w = (display_width(prompt) as int + display_width(before) as int);
    let w16 = (if w > usize::MAX { usize::MAX as int } else { w }) as u16;
    let col = if x as int + w16 as int > u16::MAX { u16::MAX as int } else { x as int + w16 as int };
    let limit = if right > 0 { right - 1 } else { 0 };
    (if col < limit { col } else { limit }) as u16
}

/// Where the cursor of the input prompt goes, in an area from column `x` to `right`.
pub fn cursor_x(prompt: &str, before: &str, x: u16, right: u16) -> (col: u16)
    ensures
        col == cursor_column(prompt@, before@, x, right),
{
    let w = text_width(prompt).saturating_add(text_width(before));
    let w16 = w as u16;
    let col = x.saturating_add(w16);
    let limit = right.saturating_sub(1);
    if col < limit {
        col
    } else {
        limit
    }
}

/// The help line entry for an action with the given binding text.
pub open spec fn help_entry(key: Seq<char>, desc: Seq<char>) -> Seq<char> {
    key + ": "@ + desc
}

/// The actions the help line names in list mode, in order.
pub open spec fn help_actions(app: App) -> Seq<(Keys, Seq<char>)> {
    let k = app.cfg.keys;
    seq![
        (k.down, "down"@),
        (k.up, "up"@),
        (k.checkout, "checkout"@),
        (k.checkout_new, "checkout -b"@),
        (k.rename, "rename"@),
        (k.delete, "delete"@),
        (k.force_delete, "force delete"@),
        if app.mode == Mode::Visual {
            (k.cancel, "cancel"@)
        } else {
            (k.visual, "visual"@)
        },
        (k.quit, "quit"@),
    ]
}

/// `t` names the first binding of `keys`, as `KeySpec::to_text` writes it.
pub open spec fn names_primary(keys: Keys, t: Seq<char>) -> bool {
    names_key(keys.denotes()[0], t)
}

/// The help line entries for `acts[..n]`, with the binding texts `texts`: actions
/// without a binding are left out.
pub open spec fn help_entries(acts: Seq<(Keys, Seq<char>)>, texts: Seq<Seq<char>>, n: int) -> Seq<Seq<char>>
    decreases n,
{
    if n <= 0 {
        Seq::empty()
    } else {
        help_entries(acts, texts, n - 1) + if acts[n - 1].0.0@.len() > 0 {
            seq![help_entry(texts[n - 1], acts[n - 1].1)]
        } else {
            Seq::empty()
        }
    }
}

pub open spec fn help_text(app: App, texts: Seq<Seq<char>>) -> Seq<char> {
    let acts = help_actions(app);
    joined(help_entries(acts, texts, acts.len() as int), "  "@)
}

fn primary_text(keys: &Keys) -> (r: Option<String>)
    ensures
        r is Some <==> keys.0@.len() > 0,
        r matches Some(t) ==> names_primary(*keys, t@),
{
    match keys.primary() {
        Some(k) => {
            let t = k.to_text();
            assert(keys.denotes()[0] == k@);
            Some(t)
        },
        None => None,
    }
}

/// The help line: the keys for the mode.
pub fn help(app: &App) -> (s: String)
    ensures
        app.mode == Mode::Rename || app.mode == Mode::Create ==> s@ == "enter: confirm  esc: cancel"@,
        app.mode == Mode::Confirm ==> s@ == "y: confirm  any other key: cancel"@,
        !(app.mode == Mode::Rename || app.mode == Mode::Create || app.mode == Mode::Confirm) ==> exists|texts: Seq<Seq<char>>|
            texts.len() == 9 && (forall|i: int| 0 <= i < 9 && help_actions(*app)[i].0.0@.len() > 0
                ==> names_primary(help_actions(*app)[i].0, #[trigger] texts[i]))
                && s@ == help_text(*app, texts),
{
    match app.mode {
        Mode::Rename | Mode::Create => return String::from_str("enter: confirm  esc: cancel"),
        Mode::Confirm => return String::from_str("y: confirm  any other key: cancel"),
        _ => {},
    }
    let k = &app.cfg.keys;
    let (last_keys, last_desc) = if app.mode == Mode::Visual {
        (&k.cancel, "cancel")
    } else {
        (&k.visual, "visual")
    };
    let texts_opt: Vec<Option<String>> = vec![
        primary_text(&k.down),
        primary_text(&k.up),
        primary_text(&k.checkout),
        primary_text(&k.checkout_new),
        primary_text(&k.rename),
        primary_text(&k.delete),
        primary_text(&k.force_delete),
        primary_text(last_keys),
        primary_text(&k.quit),
    ];
    let descs: Vec<&str> = vec![
        "down",
        "up",
        "checkout",
        "checkout -b",
        "rename",
        "delete",
        "force delete",
        last_desc,
        "quit",
    ];
    let ghost acts = help_actions(*app);
    let ghost texts = Seq::new(9, |i: int| match texts_opt@[i] {
        Some(t) => t@,
        None => Seq::<char>::empty(),
    });
    assert forall|i: int| 0 <= i < 9 implies (texts_opt@[i] is Some <==> acts[i].0.0@.len() > 0)
        && (texts_opt@[i] matches Some(t) ==> names_primary(acts[i].0, t@))
        && descs@[i]@ == acts[i].1 by {
        if i == 0 {
        } else if i == 1 {
        } else if i == 2 {
        } else if i == 3 {
        } else if i == 4 {
        } else if i == 5 {
        } else if i == 6 {
        } else if i == 7 {
        } else {
        }
    }
    let mut parts: Vec<String> = Vec::new();
    let mut i: usize = 0;
    while i < 9
        invariant
            i <= 9,
            texts_opt@.len() == 9,
            descs@.len() == 9,
            acts.len() == 9,
            texts == Seq::new(9, |i: int| match texts_opt@[i] {
                Some(t) => t@,
                None => Seq::<char>::empty(),
            }),
            forall|j: int| 0 <= j < 9 ==> (texts_opt@[j] is Some <==> acts[j].0.0@.len() > 0),
            forall|j: int| 0 <= j < 9 ==> descs@[j]@ == acts[j].1,
            views(parts@) == help_entries(acts, texts, i as int),
        decreases 9 - i,
    {
        let ghost before = parts@;
        match &texts_opt[i] {
            Some(t) => {
                parts.push(cat3(t.as_str(), ": ", descs[i]));
                assert(views(parts@) =~= views(before).push(help_entry(texts[i as int], acts[i as int].1)));
            },
            None => {},
        }
        i = i + 1;
    }
    assert forall|j: int| 0 <= j < 9 && acts[j].0.0@.len() > 0 implies names_primary(acts[j].0, #[trigger] texts[j]) by {
    }
    let s = join(&parts, "  ");
    assert(acts.len() == 9);
    assert(s@ == help_text(*app, texts));
    assert(texts.len() == 9);
    s
}

} // verus!
