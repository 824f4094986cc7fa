//! Minimal single-line text input.

use vstd::prelude::*;

use crate::config::{KeyCode, KeyEvent, NamedKey};
use crate::text::{chars_to_string, str_chars};

verus! {

/// A line of text being edited, with a cursor between characters.
#[derive(Debug)]
pub struct LineInput {
    chars: Vec<char>,
    /// Cursor position in chars.
    pub cursor: usize,
}

impl View for LineInput {
    /// The text, and the cursor position in it.
    type V = (Seq<char>, int);

    closed spec fn view(&self) -> (Seq<char>, int) {
        (self.chars@, self.cursor as int)
    }
}

/// Moving left from `i` while the character before is (`space`) or is not (`!space`) a space.
pub open spec fn skip_back(s: Seq<char>, i: int, space: bool) -> int
    decreases i,
{
    if 0 < i <= s.len() && (s[i - 1] == ' ') == space {
        skip_back(s, i - 1, space)
    } else {
        i
    }
}

/// Where the word before `i` starts: spaces before `i` are skipped, then the word.
pub open spec fn word_start(s: Seq<char>, i: int) -> int {
    skip_back(s, skip_back(s, i, true), false)
}

/// Text and cursor after the key press `ev`, from text `s` with the cursor at `c`.
pub open spec fn edit(s: Seq<char>, c: int, ev: KeyEvent) -> (Seq<char>, int) {
    let ctrl = ev.modifiers.control;
    match ev.code {
        KeyCode::Char(x) => if ctrl {
            if x == 'a' {
                (s, 0)
            } else if x == 'e' {
                (s, s.len() as int)
            } else if x == 'u' {
                (s.skip(c), 0)
            } else if x == 'w' {
                let w = word_start(s, c);
                (s.take(w) + s.skip(c), w)
            } else {
                (s, c)
            }
        } else {
            (s.insert(c, x), c + 1)
        },
        KeyCode::Named(NamedKey::Backspace) => if c > 0 {
            (s.remove(c - 1), c - 1)
        } else {
            (s, c)
        },
        KeyCode::Named(NamedKey::Delete) => if c < s.len() {
            (s.remove(c), c)
        } else {
            (s, c)
        },
        KeyCode::Named(NamedKey::Left) => (s, if c > 0 { c - 1 } else { 0 }),
        KeyCode::Named(NamedKey::Right) => (s, if c + 1 < s.len() { c + 1 } else { s.len() as int }),
        KeyCode::Named(NamedKey::Home) => (s, 0),
        KeyCode::Named(NamedKey::End) => (s, s.len() as int),
        _ => (s, c),
    }
}

proof fn lemma_skip_back_bounds(s: Seq<char>, i: int, space: bool)
    requires
        0 <= i <= s.len(),
    ensures
        0 <= skip_back(s, i, space) <= i,
    decreases i,
{
    if 0 < i && (s[i - 1] == ' ') == space {
        lemma_skip_back_bounds(s, i - 1, space);
    }
}

/// Typing a character and then deleting it with backspace leaves the line as it was.
pub proof fn law_type_then_backspace(s: Seq<char>, c: int, x: char, mods: crate::config::KeyModifiers, bs: KeyEvent)
    requires
        0 <= c <= s.len(),
        !mods.control,
        bs.code == KeyCode::Named(NamedKey::Backspace),
    ensures
        ({
            let (s1, c1) = edit(s, c, KeyEvent { code: KeyCode::Char(x), modifiers: mods });
            edit(s1, c1, bs) == (s, c)
        }),
{
    let s1 = s.insert(c, x);
    assert(s1.remove(c) =~= s);
}

/// Editing never moves the cursor off the line.
pub proof fn law_cursor_stays_on_line(s: Seq<char>, c: int, ev: KeyEvent)
    requires
        0 <= c <= s.len(),
    ensures
        0 <= edit(s, c, ev).1 <= edit(s, c, ev).0.len(),
{
    let w = word_start(s, c);
    lemma_skip_back_bounds(s, c, true);
    lemma_skip_back_bounds(s, skip_back(s, c, true), false);
    assert(0 <= w <= c);
}

impl Default for LineInput {
    fn default() -> (l: LineInput)
        ensures
            l@ == (Seq::<char>::empty(), 0int),
    {
        LineInput { chars: Vec::new(), cursor: 0 }
    }
}

impl LineInput {
    /// The cursor is on the line.
    pub open spec fn wf(&self) -> bool {
        0 <= self@.1 <= self@.0.len()
    }

    /// Replaces the text, with the cursor at its end.
    pub fn set(&mut self, s: &str)
        ensures
            final(self)@ == (s@, s@.len() as int),
    {
        self.chars = str_chars(s);
        self.cursor = self.chars.len();
    }

    pub fn value(&self) -> (v: String)
        ensures
            v@ == self@.0,
    {
        chars_to_string(self.chars.as_slice())
    }

    /// The cursor position, in characters.
    pub fn cursor(&self) -> (c: usize)
        ensures
            c == self@.1,
    {
        self.cursor
    }

    /// Applies one key press: typing, deleting and cursor movement with the
    /// usual readline keys (ctrl+a, ctrl+e, ctrl+u, ctrl+w).
    pub fn handle(&mut self, ev: &KeyEvent)
        requires
            old(self).wf(),
        ensures
            final(self).wf(),
            final(self)@ == edit(old(self)@.0, old(self)@.1, *ev),
    {
        let ghost s = self.chars@;
        let ghost c = self.cursor as int;
        proof {
            law_cursor_stays_on_line(s, c, *ev);
        }
        let ctrl = ev.modifiers.control;
        match ev.code {
            KeyCode::Char(x) => {
                if ctrl {
                    if x == 'a' {
                        self.cursor = 0;
                    } else if x == 'e' {
                        self.cursor = self.chars.len();
                    } else if x == 'u' {
                        let rest = self.chars.split_off(self.cursor);
                        self.chars = rest;
                        self.cursor = 0;
                        assert(self.chars@ =~= s.skip(c));
                    } else if x == 'w' {
                        let mut start = self.cursor;
                        while start > 0 && self.chars[start - 1] == ' '
                            invariant
                                start <= self.cursor <= self.chars@.len(),
                                self.chars@ == s,
                                self.cursor == c,
                                skip_back(s, start as int, true) == skip_back(s, c, true),
                            decreases start,
                        {
                            start = start - 1;
                        }
                        let ghost mid = start as int;
                        while start > 0 && self.chars[start - 1] != ' '
                            invariant
                                start <= mid <= self.cursor <= self.chars@.len(),
                                self.chars@ == s,
                                self.cursor == c,
                                mid == skip_back(s, c, true),
                                skip_back(s, start as int, false) == skip_back(s, mid, false),
                            decreases start,
                        {
                            start = start - 1;
                        }
                        let tail = self.chars.split_off(self.cursor);
                        self.chars.truncate(start);
                        let mut tail = tail;
                        self.chars.append(&mut tail);
                        self.cursor = start;
                        assert(self.chars@ =~= s.take(start as int) + s.skip(c));
                    }
                } else {
                    self.chars.insert(self.cursor, x);
                    assert(self.cursor < self.chars.len());
                    self.cursor = self.cursor + 1;
                }
            },
            KeyCode::Named(NamedKey::Backspace) => {
                if self.cursor > 0 {
                    self.cursor = self.cursor - 1;
                    self.chars.remove(self.cursor);
                }
            },
            KeyCode::Named(NamedKey::Delete) => {
                if self.cursor < self.chars.len() {
                    self.chars.remove(self.cursor);
                }
            },
            KeyCode::Named(NamedKey::Left) => {
                self.cursor = if self.cursor > 0 { self.cursor - 1 } else { 0 };
            },
            KeyCode::Named(NamedKey::Right) => {
                self.cursor = if self.cursor < self.chars.len() && self.chars.len() - self.cursor > 1 {
                    self.cursor + 1
                } else {
                    self.chars.len()
                };
            },
            KeyCode::Named(NamedKey::Home) => {
                self.cursor = 0;
            },
            KeyCode::Named(NamedKey::End) => {
                self.cursor = self.chars.len();
            },
            _ => {},
        }
    }
}

/// The arrow keys move the cursor one character, stopping at the ends of the line, and
/// leave the text alone; from anywhere but the end, right then left comes back.
pub proof fn law_arrows_move_one_character(s: Seq<char>, c: int, left: KeyEvent, right: KeyEvent)
    requires
        0 <= c <= s.len(),
        left.code == KeyCode::Named(NamedKey::Left),
        right.code == KeyCode::Named(NamedKey::Right),
    ensures
        edit(s, c, right).0 == s,
        c < s.len() ==> edit(s, c, right).1 == c + 1,
        c == s.len() ==> edit(s, c, right).1 == c,
        edit(s, c, left).0 == s,
        c > 0 ==> edit(s, c, left).1 == c - 1,
        c == 0 ==> edit(s, c, left).1 == 0,
        c < s.len() ==> edit(edit(s, c, right).0, edit(s, c, right).1, left) == (s, c),
{
}

/// Home and End (and ctrl+a / ctrl+e) go to the start and the end of the line.
pub proof fn law_home_and_end(s: Seq<char>, c: int, ev: KeyEvent)
    requires
        0 <= c <= s.len(),
    ensures
        ev.code == KeyCode::Named(NamedKey::Home) || (ev.code == KeyCode::Char('a') && ev.modifiers.control)
            ==> edit(s, c, ev) == (s, 0int),
        ev.code == KeyCode::Named(NamedKey::End) || (ev.code == KeyCode::Char('e') && ev.modifiers.control)
            ==> edit(s, c, ev) == (s, s.len() as int),
{
}

/// Typing a character puts it at the cursor, keeps the text around it, and moves the
/// cursor past it.
pub proof fn law_typing_inserts_at_cursor(s: Seq<char>, c: int, x: char, ev: KeyEvent)
    requires
        0 <= c <= s.len(),
        ev.code == KeyCode::Char(x),
        !ev.modifiers.control,
    ensures
        edit(s, c, ev).0.len() == s.len() + 1,
        edit(s, c, ev).0.take(c) == s.take(c),
        edit(s, c, ev).0[c] == x,
        edit(s, c, ev).0.skip(c + 1) == s.skip(c),
        edit(s, c, ev).1 == c + 1,
{
    let t = s.insert(c, x);
    assert(t.take(c) =~= s.take(c));
    assert(t.skip(c + 1) =~= s.skip(c));
}

/// Backspace removes the character before the cursor and Delete the one after it; at the
/// start (for Backspace) or the end (for Delete) of the line nothing changes.
pub proof fn law_backspace_and_delete(s: Seq<char>, c: int, ev: KeyEvent)
    requires
        0 <= c <= s.len(),
    ensures
        ev.code == KeyCode::Named(NamedKey::Backspace) && c > 0 ==> edit(s, c, ev) == (
        s.take(c - 1) + s.skip(c),
        c - 1,
        ),
        ev.code == KeyCode::Named(NamedKey::Delete) && c < s.len() ==> edit(s, c, ev) == (
        s.take(c) + s.skip(c + 1),
        c,
        ),
        (ev.code == KeyCode::Named(NamedKey::Backspace) && c == 0) || (ev.code == KeyCode::Named(
            NamedKey::Delete,
        ) && c == s.len()) ==> edit(s, c, ev) == (s, c),
{
    if c > 0 {
        assert(s.remove(c - 1) =~= s.take(c - 1) + s.skip(c));
    }
    if c < s.len() {
        assert(s.remove(c) =~= s.take(c) + s.skip(c + 1));
    }
}

/// `s[w..c]` is a word (no spaces) `s[w..m]` followed by all the spaces `s[m..c]` before `c`.
pub open spec fn word_then_spaces(s: Seq<char>, w: int, m: int, c: int) -> bool {
    &&& w <= m <= c
    &&& forall|j: int| w <= j < m ==> #[trigger] s[j] != ' '
    &&& forall|j: int| m <= j < c ==> #[trigger] s[j] == ' '
    &&& m == 0 || s[m - 1] != ' '
}

proof fn lemma_skip_back_run(s: Seq<char>, i: int, space: bool)
    requires
        0 <= i <= s.len(),
    ensures
        0 <= skip_back(s, i, space) <= i,
        forall|j: int| skip_back(s, i, space) <= j < i ==> (#[trigger] s[j] == ' ') == space,
        skip_back(s, i, space) == 0 || (s[skip_back(s, i, space) - 1] == ' ') != space,
    decreases i,
{
    if 0 < i && (s[i - 1] == ' ') == space {
        lemma_skip_back_run(s, i - 1, space);
    }
}

/// ctrl+u deletes everything before the cursor; ctrl+w deletes the word before the cursor
/// and the spaces after that word: the spaces right before the cursor, then the run of other
/// characters before them. The text after the cursor stays, and the cursor ends where the
/// deleted part began.
pub proof fn law_ctrl_u_and_ctrl_w(s: Seq<char>, c: int, ev: KeyEvent)
    requires
        0 <= c <= s.len(),
        ev.modifiers.control,
    ensures
        ev.code == KeyCode::Char('u') ==> edit(s, c, ev) == (s.skip(c), 0int),
        ev.code == KeyCode::Char('w') ==> ({
            let (t, w) = edit(s, c, ev);
            &&& 0 <= w <= c
            &&& t == s.take(w) + s.skip(c)
            &&& w == 0 || s[w - 1] == ' '
            &&& exists|m: int| #[trigger] word_then_spaces(s, w, m, c)
        }),
{
    let m = skip_back(s, c, true);
    lemma_skip_back_run(s, c, true);
    lemma_skip_back_run(s, m, false);
    let w = skip_back(s, m, false);
    assert(w <= m <= c);
    assert(forall|j: int| w <= j < m ==> #[trigger] s[j] != ' ');
    if w > 0 {
        assert(s[w - 1] == ' ');
    }
    assert(word_then_spaces(s, w, m, c));
    assert(s.take(w) + s.skip(c) =~= s.take(w) + s.skip(c));
}

} // verus!
