//! Key bindings and options.

use vstd::prelude::*;
use vstd::string::*;

use ratatui::crossterm::event::KeyCode as TermKeyCode;

use crate::text::{
    all_ascii, ascii_lower, chars_to_string, debug_str, eq_str, lower_range, str_chars, str_debug,
    to_lowercase,
};

verus! {

/// Modifier keys held with a key press.
#[derive(Clone, Copy, Debug, PartialEq, Eq, Structural)]
pub struct KeyModifiers {
    pub shift: bool,
    pub control: bool,
    pub alt: bool,
    pub super_key: bool,
    pub hyper: bool,
    pub meta: bool,
}

pub open spec fn no_mods() -> KeyModifiers {
    KeyModifiers { shift: false, control: false, alt: false, super_key: false, hyper: false, meta: false }
}

impl KeyModifiers {
    pub fn none() -> (m: KeyModifiers)
        ensures
            m == no_mods(),
    {
        KeyModifiers { shift: false, control: false, alt: false, super_key: false, hyper: false, meta: false }
    }

    pub open spec fn unshifted(self) -> KeyModifiers {
        KeyModifiers { shift: false, ..self }
    }

    fn without_shift(self) -> (m: KeyModifiers)
        ensures
            m == self.unshifted(),
    {
        KeyModifiers { shift: false, ..self }
    }
}

/// Keys with a name of their own, other than Enter and Esc.
#[derive(Clone, Copy, Debug, PartialEq, Eq, Structural)]
pub enum NamedKey {
    Left,
    Right,
    Up,
    Down,
    Home,
    End,
    PageUp,
    PageDown,
    Tab,
    BackTab,
    Backspace,
    Delete,
}

/// The key of a key press.
#[derive(Clone, Copy, Debug, PartialEq, Eq, Structural)]
pub enum KeyCode {
    Char(char),
    Enter,
    Esc,
    Named(NamedKey),
    /// Any key that no binding can name (function keys, media keys, ...).
    Other,
}

/// A key press.
#[derive(Clone, Copy, Debug, PartialEq, Eq, Structural)]
pub struct KeyEvent {
    pub code: KeyCode,
    pub modifiers: KeyModifiers,
}

impl KeyEvent {
    pub fn new(code: KeyCode, modifiers: KeyModifiers) -> (ev: KeyEvent)
        ensures
            ev.code == code,
            ev.modifiers == modifiers,
    {
        KeyEvent { code, modifiers }
    }
}

/// The modifier set after a modifier name such as `ctrl` or `s`; `None` for an unknown name.
pub open spec fn with_modifier(mods: KeyModifiers, name: Seq<char>) -> Option<KeyModifiers> {
    if name == "ctrl"@ || name == "c"@ {
        Some(KeyModifiers { control: true, ..mods })
    } else if name == "alt"@ || name == "a"@ || name == "m"@ {
        Some(KeyModifiers { alt: true, ..mods })
    } else if name == "shift"@ || name == "s"@ {
        Some(KeyModifiers { shift: true, ..mods })
    } else {
        None
    }
}

/// The key a (lower case) key name stands for.
pub open spec fn named_code(name: Seq<char>) -> Option<KeyCode> {
    if name == "up"@ {
        Some(KeyCode::Named(NamedKey::Up))
    } else if name == "down"@ {
        Some(KeyCode::Named(NamedKey::Down))
    } else if name == "left"@ {
        Some(KeyCode::Named(NamedKey::Left))
    } else if name == "right"@ {
        Some(KeyCode::Named(NamedKey::Right))
    } else if name == "home"@ {
        Some(KeyCode::Named(NamedKey::Home))
    } else if name == "end"@ {
        Some(KeyCode::Named(NamedKey::End))
    } else if name == "pageup"@ {
        Some(KeyCode::Named(NamedKey::PageUp))
    } else if name == "pagedown"@ {
        Some(KeyCode::Named(NamedKey::PageDown))
    } else if name == "enter"@ {
        Some(KeyCode::Enter)
    } else if name == "esc"@ {
        Some(KeyCode::Esc)
    } else if name == "tab"@ {
        Some(KeyCode::Named(NamedKey::Tab))
    } else if name == "backspace"@ {
        Some(KeyCode::Named(NamedKey::Backspace))
    } else if name == "delete"@ {
        Some(KeyCode::Named(NamedKey::Delete))
    } else if name == "space"@ {
        Some(KeyCode::Char(' '))
    } else {
        None
    }
}

/// `rest` splits into a modifier and more at `i`: the first `+`, with something after it.
pub open spec fn is_split(rest: Seq<char>, i: int) -> bool {
    &&& 0 <= i
    &&& i + 1 < rest.len()
    &&& rest[i] == '+'
    &&& forall|j: int| 0 <= j < i ==> rest[j] != '+'
}

pub open spec fn modifier_error(name: Seq<char>, s: Seq<char>) -> Seq<char> {
    "unknown modifier "@ + str_debug(name) + " in key "@ + str_debug(s)
}

pub open spec fn key_error(s: Seq<char>) -> Seq<char> {
    "unknown key "@ + str_debug(s)
}

/// Parsing the part `rest` of the key name `s`, with `mods` read so far.
pub open spec fn parse_rest(s: Seq<char>, rest: Seq<char>, mods: KeyModifiers) -> Result<
    (KeyCode, KeyModifiers),
    Seq<char>,
>
    decreases rest.len(),
{
    if exists|i: int| is_split(rest, i) {
        let i = choose|i: int| is_split(rest, i);
        match with_modifier(mods, ascii_lower(rest.take(i))) {
            Some(m) => parse_rest(s, rest.skip(i + 1), m),
            None => Err(modifier_error(rest.take(i), s)),
        }
    } else {
        match named_code(ascii_lower(rest)) {
            Some(code) => Ok((code, mods)),
            None => if rest.len() == 1 {
                Ok((KeyCode::Char(rest[0]), mods))
            } else {
                Err(key_error(s))
            },
        }
    }
}

/// What the key name `s` (such as `k`, `D`, `up`, `ctrl+c`) denotes, or the error message.
pub open spec fn parse_key(s: Seq<char>) -> Result<(KeyCode, KeyModifiers), Seq<char>> {
    parse_rest(s, s, no_mods())
}

/// A binding matches a key press: characters compare with shift ignored, since
/// shift already shows in the character's case; other keys compare exactly.
pub open spec fn key_matches(k: (KeyCode, KeyModifiers), ev: KeyEvent) -> bool {
    match (k.0, ev.code) {
        (KeyCode::Char(a), KeyCode::Char(b)) => a == b && k.1.unshifted() == ev.modifiers.unshifted(),
        _ => k.0 == ev.code && k.1 == ev.modifiers,
    }
}

proof fn lemma_split_unique(rest: Seq<char>, i: int, j: int)
    requires
        is_split(rest, i),
        is_split(rest, j),
    ensures
        i == j,
{
    if i < j {
        assert(rest[i] != '+');
    } else if j < i {
        assert(rest[j] != '+');
    }
}

/// One key, e.g. `k`, `D`, `up`, `esc`, `ctrl+c`.
#[derive(Clone, Copy, Debug, PartialEq, Eq, Structural)]
pub struct KeySpec {
    code: KeyCode,
    mods: KeyModifiers,
}

impl KeySpec {
    /// A binding always names a key: never `KeyCode::Other`.
    #[verifier::type_invariant]
    spec fn names_a_key(self) -> bool {
        self.code != KeyCode::Other
    }
}

/// The modifier part of a binding's name, as `KeySpec::to_text` writes it.
pub open spec fn mods_prefix(m: KeyModifiers) -> Seq<char> {
    (if m.control { "ctrl+"@ } else { Seq::empty() }) + (if m.alt { "alt+"@ } else { Seq::empty() })
        + (if m.shift { "shift+"@ } else { Seq::empty() })
}

/// The key part of a binding's name, for the keys that are not `NamedKey`s.
pub open spec fn code_text(c: KeyCode) -> Seq<char> {
    match c {
        KeyCode::Char(ch) => if ch == ' ' {
            "space"@
        } else {
            seq![ch]
        },
        KeyCode::Esc => "esc"@,
        KeyCode::Enter => "enter"@,
        _ => Seq::empty(),
    }
}

/// crossterm's names for a key, `(elsewhere, on macOS)`: the two differ for Backspace and
/// Delete only.
pub open spec fn term_labels(k: NamedKey) -> (Seq<char>, Seq<char>) {
    match k {
        NamedKey::Left => ("Left"@, "Left"@),
        NamedKey::Right => ("Right"@, "Right"@),
        NamedKey::Up => ("Up"@, "Up"@),
        NamedKey::Down => ("Down"@, "Down"@),
        NamedKey::Home => ("Home"@, "Home"@),
        NamedKey::End => ("End"@, "End"@),
        NamedKey::PageUp => ("Page Up"@, "Page Up"@),
        NamedKey::PageDown => ("Page Down"@, "Page Down"@),
        NamedKey::Tab => ("Tab"@, "Tab"@),
        NamedKey::BackTab => ("Back Tab"@, "Back Tab"@),
        NamedKey::Backspace => ("Backspace"@, "Delete"@),
        NamedKey::Delete => ("Del"@, "Fwd Del"@),
    }
}

/// The name of a binding as `KeySpec::to_text` writes it: the modifiers, then the key; a
/// `NamedKey` by crossterm's name in lower case (which of its two names depends on the
/// platform).
pub open spec fn names_key(k: (KeyCode, KeyModifiers), t: Seq<char>) -> bool {
    match k.0 {
        KeyCode::Named(n) => t == mods_prefix(k.1) + ascii_lower(term_labels(n).0) || t == mods_prefix(
            k.1,
        ) + ascii_lower(term_labels(n).1),
        _ => t == mods_prefix(k.1) + code_text(k.0),
    }
}

proof fn lemma_labels_ascii(k: NamedKey)
    ensures
        all_ascii(term_labels(k).0),
        all_ascii(term_labels(k).1),
{
    match k {
        NamedKey::Left => reveal_strlit("Left"),
        NamedKey::Right => reveal_strlit("Right"),
        NamedKey::Up => reveal_strlit("Up"),
        NamedKey::Down => reveal_strlit("Down"),
        NamedKey::Home => reveal_strlit("Home"),
        NamedKey::End => reveal_strlit("End"),
        NamedKey::PageUp => reveal_strlit("Page Up"),
        NamedKey::PageDown => reveal_strlit("Page Down"),
        NamedKey::Tab => reveal_strlit("Tab"),
        NamedKey::BackTab => reveal_strlit("Back Tab"),
        NamedKey::Backspace => {
            reveal_strlit("Backspace");
            reveal_strlit("Delete");
        },
        NamedKey::Delete => {
            reveal_strlit("Del");
            reveal_strlit("Fwd Del");
        },
    }
}

/// crossterm's name for a key: `<crossterm::event::KeyCode as Display>::fmt` via `to_string`.
/// Trusted: the name is one of the two that crossterm's source writes for the key, the first
/// off macOS, the second on macOS; which one is not stated, as it depends on the platform
/// the program was built for.
#[verifier::external_body]
fn named_key_label(key: NamedKey) -> (l: String)
    ensures
        l@ == term_labels(key).0 || l@ == term_labels(key).1,
{
    let code = match key {
        NamedKey::Left => TermKeyCode::Left,
        NamedKey::Right => TermKeyCode::Right,
        NamedKey::Up => TermKeyCode::Up,
        NamedKey::Down => TermKeyCode::Down,
        NamedKey::Home => TermKeyCode::Home,
        NamedKey::End => TermKeyCode::End,
        NamedKey::PageUp => TermKeyCode::PageUp,
        NamedKey::PageDown => TermKeyCode::PageDown,
        NamedKey::Tab => TermKeyCode::Tab,
        NamedKey::BackTab => TermKeyCode::BackTab,
        NamedKey::Backspace => TermKeyCode::Backspace,
        NamedKey::Delete => TermKeyCode::Delete,
    };
    code.to_string()
}

impl View for KeySpec {
    type V = (KeyCode, KeyModifiers);

    closed spec fn view(&self) -> (KeyCode, KeyModifiers) {
        (self.code, self.mods)
    }
}

fn named_code_of(name: &Vec<char>) -> (r: Option<KeyCode>)
    ensures
        r == named_code(name@),
{
    if eq_str(name, "up") {
        Some(KeyCode::Named(NamedKey::Up))
    } else if eq_str(name, "down") {
        Some(KeyCode::Named(NamedKey::Down))
    } else if eq_str(name, "left") {
        Some(KeyCode::Named(NamedKey::Left))
    } else if eq_str(name, "right") {
        Some(KeyCode::Named(NamedKey::Right))
    } else if eq_str(name, "home") {
        Some(KeyCode::Named(NamedKey::Home))
    } else if eq_str(name, "end") {
        Some(KeyCode::Named(NamedKey::End))
    } else if eq_str(name, "pageup") {
        Some(KeyCode::Named(NamedKey::PageUp))
    } else if eq_str(name, "pagedown") {
        Some(KeyCode::Named(NamedKey::PageDown))
    } else if eq_str(name, "enter") {
        Some(KeyCode::Enter)
    } else if eq_str(name, "esc") {
        Some(KeyCode::Esc)
    } else if eq_str(name, "tab") {
        Some(KeyCode::Named(NamedKey::Tab))
    } else if eq_str(name, "backspace") {
        Some(KeyCode::Named(NamedKey::Backspace))
    } else if eq_str(name, "delete") {
        Some(KeyCode::Named(NamedKey::Delete))
    } else if eq_str(name, "space") {
        Some(KeyCode::Char(' '))
    } else {
        None
    }
}

fn add_modifier(mods: KeyModifiers, name: &Vec<char>) -> (r: Option<KeyModifiers>)
    ensures
        r == with_modifier(mods, name@),
{
    if eq_str(name, "ctrl") || eq_str(name, "c") {
        Some(KeyModifiers { control: true, ..mods })
    } else if eq_str(name, "alt") || eq_str(name, "a") || eq_str(name, "m") {
        Some(KeyModifiers { alt: true, ..mods })
    } else if eq_str(name, "shift") || eq_str(name, "s") {
        Some(KeyModifiers { shift: true, ..mods })
    } else {
        None
    }
}

impl KeySpec {
    /// Parses a key name; the error names what was not understood.
    pub fn parse(s: &str) -> (r: Result<KeySpec, String>)
        ensures
            match (r, parse_key(s@)) {
                (Ok(k), Ok(p)) => k@ == p,
                (Err(e), Err(m)) => e@ == m,
                _ => false,
            },
    {
        let cs = str_chars(s);
        let mut mods = KeyModifiers::none();
        let mut start: usize = 0;
        assert(cs@.skip(0) =~= s@);
        loop
            invariant
                cs@ == s@,
                start <= cs@.len(),
                parse_rest(s@, cs@.skip(start as int), mods) == parse_key(s@),
            ensures
                cs@ == s@,
                start <= cs@.len(),
                parse_rest(s@, cs@.skip(start as int), mods) == parse_key(s@),
                !exists|i: int| is_split(cs@.skip(start as int), i),
            decreases cs@.len() - start,
        {
            let ghost rest = cs@.skip(start as int);
            let mut i: usize = start;
            while i < cs.len() && cs[i] != '+'
                invariant
                    start <= i <= cs@.len(),
                    forall|j: int| start <= j < i ==> cs@[j] != '+',
                decreases cs@.len() - i,
            {
                i = i + 1;
            }
            if i < cs.len() && cs.len() - i > 1 {
                let ghost k = i - start;
                assert(is_split(rest, k));
                proof {
                    let c = choose|c: int| is_split(rest, c);
                    lemma_split_unique(rest, c, k);
                }
                assert(rest.take(k) =~= cs@.subrange(start as int, i as int));
                assert(rest.skip(k + 1) =~= cs@.skip(i + 1));
                let name = lower_range(&cs, start, i);
                match add_modifier(mods, &name) {
                    Some(m) => {
                        mods = m;
                        start = i + 1;
                    },
                    None => {
                        let m_str = chars_to_string(&cs.as_slice()[start..i]);
                        proof {
                            assert(cs@.subrange(start as int, i as int) =~= rest.take(k));
                        }
                        let mut e = String::from_str("unknown modifier ");
                        let d1 = debug_str(m_str.as_str());
                        e.append(d1.as_str());
                        e.append(" in key ");
                        let d2 = debug_str(s);
                        e.append(d2.as_str());
                        return Err(e);
                    },
                }
            } else {
                assert forall|j: int| !is_split(rest, j) by {
                    if is_split(rest, j) {
                        assert(rest[j] == '+');
                        assert(cs@[start + j] == '+');
                        if i < cs.len() {
                            assert(cs@[i as int] == '+');
                            assert(j <= i - start) by {
                                if j > i - start {
                                    assert(rest[i - start] != '+');
                                }
                            }
                        }
                    }
                }
                break;
            }
        }
        let ghost rest = cs@.skip(start as int);
        let name = lower_range(&cs, start, cs.len());
        assert(cs@.subrange(start as int, cs@.len() as int) =~= rest);
        match named_code_of(&name) {
            Some(code) => Ok(KeySpec { code, mods }),
            None => {
                if cs.len() - start == 1 {
                    Ok(KeySpec { code: KeyCode::Char(cs[start]), mods })
                } else {
                    let mut e = String::from_str("unknown key ");
                    let d = debug_str(s);
                    e.append(d.as_str());
                    Err(e)
                }
            },
        }
    }

    fn char_key(c: char) -> (k: KeySpec)
        ensures
            k@ == (KeyCode::Char(c), no_mods()),
    {
        KeySpec { code: KeyCode::Char(c), mods: KeyModifiers::none() }
    }

    fn ctrl_key(c: char) -> (k: KeySpec)
        ensures
            k@ == (KeyCode::Char(c), KeyModifiers { control: true, ..no_mods() }),
    {
        KeySpec { code: KeyCode::Char(c), mods: KeyModifiers { control: true, ..KeyModifiers::none() } }
    }

    fn plain_key(code: KeyCode) -> (k: KeySpec)
        requires
            code != KeyCode::Other,
        ensures
            k@ == (code, no_mods()),
    {
        KeySpec { code, mods: KeyModifiers::none() }
    }

    /// The binding's name, as help text shows it: `ctrl+c`, `space`, `D`, `esc`.
    /// For a `NamedKey` the key part is crossterm's name for it in lower case.
    pub fn to_text(&self) -> (t: String)
        ensures
            names_key(self@, t@),
    {
        proof {
            use_type_invariant(self);
        }
        let mut t = String::new();
        if self.mods.control {
            t.append("ctrl+");
        }
        if self.mods.alt {
            t.append("alt+");
        }
        if self.mods.shift {
            t.append("shift+");
        }
        let ghost prefix = t@;
        assert(prefix =~= mods_prefix(self@.1));
        match self.code {
            KeyCode::Char(c) => {
                if c == ' ' {
                    t.append("space");
                } else {
                    let one = chars_to_string(vec![c].as_slice());
                    t.append(one.as_str());
                }
            },
            KeyCode::Esc => t.append("esc"),
            KeyCode::Enter => t.append("enter"),
            KeyCode::Named(k) => {
                let label = named_key_label(k);
                proof {
                    lemma_labels_ascii(k);
                }
                let lower = to_lowercase(label.as_str());
                t.append(lower.as_str());
                proof {
                    if label@ == term_labels(k).0 {
                        assert(t@ =~= prefix + ascii_lower(term_labels(k).0));
                    } else {
                        assert(t@ =~= prefix + ascii_lower(term_labels(k).1));
                    }
                }
            },
            KeyCode::Other => {},
        }
        proof {
            if !(self.code is Named) {
                assert(t@ =~= prefix + code_text(self.code));
            }
        }
        t
    }

    /// Whether this binding matches the key press.
    pub fn matches(&self, ev: &KeyEvent) -> (b: bool)
        ensures
            b == key_matches(self@, *ev),
    {
        match (self.code, ev.code) {
            (KeyCode::Char(a), KeyCode::Char(b)) => a == b && self.mods.without_shift()
                == ev.modifiers.without_shift(),
            (a, b) => a == b && self.mods == ev.modifiers,
        }
    }
}

/// Bindings for one action: a key name or a list of key names in the config file.
#[derive(Clone, Debug, PartialEq, Eq)]
pub struct Keys(pub Vec<KeySpec>);

impl Keys {
    /// Some binding of the action matches the key press.
    pub open spec fn any_matches(self, ev: KeyEvent) -> bool {
        exists|i: int| 0 <= i < self.0@.len() && key_matches(#[trigger] self.0@[i]@, ev)
    }

    /// The bindings, as what each denotes.
    pub open spec fn denotes(self) -> Seq<(KeyCode, KeyModifiers)> {
        self.0@.map_values(|k: KeySpec| k@)
    }

    pub fn matches(&self, ev: &KeyEvent) -> (b: bool)
        ensures
            b == self.any_matches(*ev),
    {
        let mut i: usize = 0;
        while i < self.0.len()
            invariant
                i <= self.0@.len(),
                forall|j: int| 0 <= j < i ==> !key_matches(#[trigger] self.0@[j]@, *ev),
            decreases self.0@.len() - i,
        {
            if self.0[i].matches(ev) {
                return true;
            }
            i = i + 1;
        }
        false
    }

    /// First binding, for help text.
    pub fn primary(&self) -> (r: Option<&KeySpec>)
        ensures
            r is Some <==> self.0@.len() > 0,
            r matches Some(k) ==> *k == self.0@[0],
    {
        if self.0.len() > 0 {
            Some(&self.0[0])
        } else {
            None
        }
    }
}

pub open spec fn plain(code: KeyCode) -> (KeyCode, KeyModifiers) {
    (code, no_mods())
}

pub open spec fn ch(c: char) -> (KeyCode, KeyModifiers) {
    (KeyCode::Char(c), no_mods())
}

pub open spec fn named(k: NamedKey) -> (KeyCode, KeyModifiers) {
    (KeyCode::Named(k), no_mods())
}

/// The bindings of every action.
#[derive(Clone, Debug)]
pub struct KeyMap {
    pub up: Keys,
    pub down: Keys,
    pub top: Keys,
    pub bottom: Keys,
    pub delete: Keys,
    pub force_delete: Keys,
    pub visual: Keys,
    pub cancel: Keys,
    pub rename: Keys,
    pub checkout: Keys,
    pub checkout_new: Keys,
    pub yank: Keys,
    pub merge: Keys,
    pub rebase: Keys,
    pub operation: Keys,
    pub reload: Keys,
    pub quit: Keys,
}

/// The bindings the README lists as the defaults.
pub open spec fn default_bindings(m: KeyMap) -> bool {
    &&& m.up.denotes() == seq![ch('k'), named(NamedKey::Up)]
    &&& m.down.denotes() == seq![ch('j'), named(NamedKey::Down)]
    &&& m.top.denotes() == seq![ch('g'), named(NamedKey::Home)]
    &&& m.bottom.denotes() == seq![ch('G'), named(NamedKey::End)]
    &&& m.delete.denotes() == seq![ch('d')]
    &&& m.force_delete.denotes() == seq![ch('D')]
    &&& m.visual.denotes() == seq![ch('v')]
    &&& m.cancel.denotes() == seq![plain(KeyCode::Esc)]
    &&& m.rename.denotes() == seq![ch('r')]
    &&& m.checkout.denotes() == seq![plain(KeyCode::Enter)]
    &&& m.checkout_new.denotes() == seq![ch('b')]
    &&& m.yank.denotes() == seq![ch('y')]
    &&& m.merge.denotes() == seq![ch('p')]
    &&& m.rebase.denotes() == seq![ch('P')]
    &&& m.operation.denotes() == seq![ch('o')]
    &&& m.reload.denotes() == seq![ch('R')]
    &&& m.quit.denotes() == seq![ch('q'), (KeyCode::Char('c'), KeyModifiers { control: true, ..no_mods() })]
}

fn one(k: KeySpec) -> (r: Keys)
    ensures
        r.denotes() == seq![k@],
{
    let r = Keys(vec![k]);
    assert(r.denotes() =~= seq![k@]);
    r
}

fn two(k1: KeySpec, k2: KeySpec) -> (r: Keys)
    ensures
        r.denotes() == seq![k1@, k2@],
{
    let r = Keys(vec![k1, k2]);
    assert(r.denotes() =~= seq![k1@, k2@]);
    r
}

impl Default for KeyMap {
    fn default() -> (m: KeyMap)
        ensures
            default_bindings(m),
    {
        let quit = two(KeySpec::char_key('q'), KeySpec::ctrl_key('c'));
        assert(quit.denotes() == seq![ch('q'), (KeyCode::Char('c'), KeyModifiers { control: true, ..no_mods() })]);
        let up = two(KeySpec::char_key('k'), KeySpec::plain_key(KeyCode::Named(NamedKey::Up)));
        assert(up.denotes() == seq![ch('k'), named(NamedKey::Up)]);
        KeyMap {
            up,
            down: two(KeySpec::char_key('j'), KeySpec::plain_key(KeyCode::Named(NamedKey::Down))),
            top: two(KeySpec::char_key('g'), KeySpec::plain_key(KeyCode::Named(NamedKey::Home))),
            bottom: two(KeySpec::char_key('G'), KeySpec::plain_key(KeyCode::Named(NamedKey::End))),
            delete: one(KeySpec::char_key('d')),
            force_delete: one(KeySpec::char_key('D')),
            visual: one(KeySpec::char_key('v')),
            cancel: one(KeySpec::plain_key(KeyCode::Esc)),
            rename: one(KeySpec::char_key('r')),
            checkout: one(KeySpec::plain_key(KeyCode::Enter)),
            checkout_new: one(KeySpec::char_key('b')),
            yank: one(KeySpec::char_key('y')),
            merge: one(KeySpec::char_key('p')),
            rebase: one(KeySpec::char_key('P')),
            operation: one(KeySpec::char_key('o')),
            reload: one(KeySpec::char_key('R')),
            quit,
        }
    }
}

/// Settings read from the config file.
#[derive(Clone, Debug)]
pub struct Config {
    /// Ask for confirmation before deleting branches.
    pub confirm_delete: bool,
    /// Command opened on the conflicted files to resolve a merge / rebase conflict,
    /// split on whitespace (e.g. `"code"`, `"nvim -d"`).
    pub editor: String,
    /// Stash uncommitted changes around a merge / rebase instead of refusing to start.
    pub autostash: bool,
    pub keys: KeyMap,
}

impl Default for Config {
    fn default() -> (c: Config)
        ensures
            c.confirm_delete,
            c.editor@ == "code"@,
            !c.autostash,
            default_bindings(c.keys),
    {
        Config {
            confirm_delete: true,
            editor: String::from_str("code"),
            autostash: false,
            keys: KeyMap::default(),
        }
    }
}

/// Shift shows in a character's case, so a character binding matches a key press with or
/// without shift alike.
pub proof fn law_shift_ignored_for_chars(k: (KeyCode, KeyModifiers), c: char, m: KeyModifiers)
    requires
        k.0 is Char,
    ensures
        key_matches(k, KeyEvent { code: KeyCode::Char(c), modifiers: m }) == key_matches(
            k,
            KeyEvent { code: KeyCode::Char(c), modifiers: KeyModifiers { shift: !m.shift, ..m } },
        ),
{
}

proof fn lemma_modifier_step(s: Seq<char>, name: Seq<char>, rest: Seq<char>, mods: KeyModifiers)
    requires
        rest.len() > 0,
        forall|j: int| 0 <= j < name.len() ==> name[j] != '+' && !('A' <= name[j] && name[j] <= 'Z'),
    ensures
        parse_rest(s, name + "+"@ + rest, mods) == match with_modifier(mods, name) {
            Some(m2) => parse_rest(s, rest, m2),
            None => Err(modifier_error(name, s)),
        },
{
    reveal_strlit("+");
    let t = name + "+"@ + rest;
    let i = name.len() as int;
    assert(t[i] == '+');
    assert forall|j: int| 0 <= j < i implies t[j] != '+' by {
        assert(t[j] == name[j]);
    }
    assert(is_split(t, i));
    let c = choose|c: int| is_split(t, c);
    lemma_split_unique(t, c, i);
    assert(t.take(i) =~= name);
    assert(t.skip(i + 1) =~= rest);
    assert(ascii_lower(name) =~= name);
}

proof fn lemma_code_step(s: Seq<char>, c: KeyCode, m: KeyModifiers)
    requires
        !(c is Named),
        !(c is Other),
    ensures
        parse_rest(s, code_text(c), m) == Ok::<(KeyCode, KeyModifiers), Seq<char>>((c, m)),
{
    reveal_strlit("up");
    reveal_strlit("down");
    reveal_strlit("left");
    reveal_strlit("right");
    reveal_strlit("home");
    reveal_strlit("end");
    reveal_strlit("pageup");
    reveal_strlit("pagedown");
    reveal_strlit("enter");
    reveal_strlit("esc");
    reveal_strlit("tab");
    reveal_strlit("backspace");
    reveal_strlit("delete");
    reveal_strlit("space");
    let t = code_text(c);
    match c {
        KeyCode::Char(ch) => {
            if ch == ' ' {
                assert forall|i: int| !is_split(t, i) by {
                    if 0 <= i < t.len() {
                        assert(t[i] != '+');
                    }
                }
                assert(ascii_lower(t) =~= t);
                assert(named_code(ascii_lower(t)) == Some(KeyCode::Char(' ')));
                assert(!exists|i: int| is_split(t, i));
                assert(parse_rest(s, t, m) == Ok::<(KeyCode, KeyModifiers), Seq<char>>((KeyCode::Char(' '), m)));
            } else {
                assert forall|i: int| !is_split(t, i) by {}
                let l = ascii_lower(t);
                assert(l.len() == 1);
                assert(l != "up"@ && l != "down"@ && l != "left"@ && l != "right"@ && l != "home"@);
                assert(l != "end"@ && l != "pageup"@ && l != "pagedown"@ && l != "enter"@ && l != "esc"@);
                assert(l != "tab"@ && l != "backspace"@ && l != "delete"@ && l != "space"@);
                assert(named_code(l) is None);
                assert(t[0] == ch);
                assert(!exists|i: int| is_split(t, i));
                assert(parse_rest(s, t, m) == Ok::<(KeyCode, KeyModifiers), Seq<char>>((KeyCode::Char(t[0]), m)));
            }
            assert(c == KeyCode::Char(ch));
            assert(parse_rest(s, t, m) == Ok::<(KeyCode, KeyModifiers), Seq<char>>((c, m)));
        },
        KeyCode::Esc => {
            assert forall|i: int| !is_split(t, i) by {
                if 0 <= i < t.len() {
                    assert(t[i] != '+');
                }
            }
            assert(ascii_lower(t) =~= t);
            assert("esc"@ != "end"@) by {
                assert("esc"@[1] != "end"@[1]);
            }
            assert("esc"@ != "up"@ && "esc"@ != "down"@ && "esc"@ != "left"@ && "esc"@ != "right"@);
            assert("esc"@ != "home"@ && "esc"@ != "pageup"@ && "esc"@ != "pagedown"@ && "esc"@ != "enter"@);
            assert(named_code(t) == Some(KeyCode::Esc));
            assert(!exists|i: int| is_split(t, i));
        },
        KeyCode::Enter => {
            assert forall|i: int| !is_split(t, i) by {
                if 0 <= i < t.len() {
                    assert(t[i] != '+');
                }
            }
            assert(ascii_lower(t) =~= t);
            assert("enter"@ != "right"@) by {
                assert("enter"@[0] != "right"@[0]);
            }
            assert("enter"@ != "up"@ && "enter"@ != "down"@ && "enter"@ != "left"@ && "enter"@ != "home"@);
            assert("enter"@ != "end"@ && "enter"@ != "pageup"@ && "enter"@ != "pagedown"@);
            assert(named_code(t) == Some(KeyCode::Enter));
            assert(!exists|i: int| is_split(t, i));
        },
        _ => {},
    }
}

/// The keys whose crossterm name, in lower case, is also the name `KeySpec::parse` reads.
pub open spec fn reads_back(n: NamedKey) -> bool {
    match n {
        NamedKey::Left | NamedKey::Right | NamedKey::Up | NamedKey::Down | NamedKey::Home
        | NamedKey::End | NamedKey::Tab => true,
        _ => false,
    }
}

proof fn lemma_named_step(s: Seq<char>, n: NamedKey, m: KeyModifiers)
    requires
        reads_back(n),
    ensures
        term_labels(n).0 == term_labels(n).1,
        ascii_lower(term_labels(n).0).len() > 0,
        parse_rest(s, ascii_lower(term_labels(n).0), m) == Ok::<(KeyCode, KeyModifiers), Seq<char>>(
            (KeyCode::Named(n), m),
        ),
{
    reveal_strlit("up");
    reveal_strlit("down");
    reveal_strlit("left");
    reveal_strlit("right");
    reveal_strlit("home");
    reveal_strlit("end");
    reveal_strlit("pageup");
    reveal_strlit("pagedown");
    reveal_strlit("enter");
    reveal_strlit("esc");
    reveal_strlit("tab");
    let t = ascii_lower(term_labels(n).0);
    match n {
        NamedKey::Left => {
            reveal_strlit("Left");
            assert(t =~= "left"@);
            assert("left"@ != "down"@) by {
                assert("left"@[0] != "down"@[0]);
            }
        },
        NamedKey::Right => {
            reveal_strlit("Right");
            assert(t =~= "right"@);
        },
        NamedKey::Up => {
            reveal_strlit("Up");
            assert(t =~= "up"@);
        },
        NamedKey::Down => {
            reveal_strlit("Down");
            assert(t =~= "down"@);
        },
        NamedKey::Home => {
            reveal_strlit("Home");
            assert(t =~= "home"@);
            assert("home"@ != "down"@) by {
                assert("home"@[0] != "down"@[0]);
            }
            assert("home"@ != "left"@) by {
                assert("home"@[0] != "left"@[0]);
            }
        },
        NamedKey::End => {
            reveal_strlit("End");
            assert(t =~= "end"@);
        },
        NamedKey::Tab => {
            reveal_strlit("Tab");
            assert(t =~= "tab"@);
            assert("tab"@ != "end"@) by {
                assert("tab"@[0] != "end"@[0]);
            }
            assert("tab"@ != "esc"@) by {
                assert("tab"@[0] != "esc"@[0]);
            }
        },
        _ => {},
    }
    assert forall|i: int| !is_split(t, i) by {
        if 0 <= i < t.len() {
            assert(t[i] != '+');
        }
    }
    assert(ascii_lower(t) =~= t);
    assert(!exists|i: int| is_split(t, i));
}

/// The name `KeySpec::to_text` gives a binding reads back as the same binding: for every
/// key but the `NamedKey`s whose crossterm name `KeySpec::parse` does not read (such as
/// `page up`), and every set of the modifiers a name can hold.
pub proof fn law_name_reads_back(c: KeyCode, m: KeyModifiers, t: Seq<char>)
    requires
        names_key((c, m), t),
        !(c is Other),
        c matches KeyCode::Named(n) ==> reads_back(n),
        !m.super_key,
        !m.hyper,
        !m.meta,
    ensures
        parse_key(t) == Ok::<(KeyCode, KeyModifiers), Seq<char>>((c, m)),
{
    reveal_strlit("ctrl+");
    reveal_strlit("alt+");
    reveal_strlit("shift+");
    reveal_strlit("ctrl");
    reveal_strlit("alt");
    reveal_strlit("shift");
    reveal_strlit("+");
    reveal_strlit("space");
    reveal_strlit("esc");
    reveal_strlit("enter");
    reveal_strlit("c");
    reveal_strlit("a");
    reveal_strlit("m");
    reveal_strlit("s");
    let code = match c {
        KeyCode::Named(n) => ascii_lower(term_labels(n).0),
        _ => code_text(c),
    };
    let s = mods_prefix(m) + code;
    let p2: Seq<char> = if m.alt { "alt+"@ } else { Seq::empty() };
    let p3: Seq<char> = if m.shift { "shift+"@ } else { Seq::empty() };
    let m0 = no_mods();
    let m1 = if m.control { KeyModifiers { control: true, ..m0 } } else { m0 };
    let m2 = if m.alt { KeyModifiers { alt: true, ..m1 } } else { m1 };
    let m3 = if m.shift { KeyModifiers { shift: true, ..m2 } } else { m2 };
    assert(m3 == m);
    match c {
        KeyCode::Named(n) => {
            lemma_named_step(s, n, m3);
        },
        _ => {
            lemma_code_step(s, c, m3);
        },
    }
    assert(t == s);
    assert(code.len() > 0);
    let r3 = p3 + code;
    let r2 = p2 + r3;
    assert(s =~= (if m.control { "ctrl+"@ } else { Seq::empty() }) + r2);
    if m.shift {
        assert(r3 =~= "shift"@ + "+"@ + code);
        lemma_modifier_step(s, "shift"@, code, m2);
        assert(with_modifier(m2, "shift"@) == Some(m3));
    } else {
        assert(r3 =~= code);
    }
    if m.alt {
        assert(r2 =~= "alt"@ + "+"@ + r3);
        lemma_modifier_step(s, "alt"@, r3, m1);
        assert(with_modifier(m1, "alt"@) == Some(m2));
    } else {
        assert(r2 =~= r3);
    }
    if m.control {
        assert(s =~= "ctrl"@ + "+"@ + r2);
        lemma_modifier_step(s, "ctrl"@, r2, m0);
        assert(with_modifier(m0, "ctrl"@) == Some(m1));
    } else {
        assert(s =~= r2);
    }
}

/// Where the config file is looked for.
#[derive(Clone, Copy, Debug, PartialEq, Eq, Structural)]
pub enum ConfigPlace {
    /// The path `$GIM_CONFIG` names.
    Given,
    /// `gim/config.toml` under `$XDG_CONFIG_HOME`.
    XdgConfig,
    /// `.config/gim/config.toml` under the home directory.
    Home,
    /// Nowhere: the defaults apply.
    Nowhere,
}

/// `$GIM_CONFIG` first, else `$XDG_CONFIG_HOME`, else the home directory, from which of
/// them are set.
pub fn config_place(gim_set: bool, xdg_set: bool, home_known: bool) -> (p: ConfigPlace)
    ensures
        p == (if gim_set {
            ConfigPlace::Given
        } else if xdg_set {
            ConfigPlace::XdgConfig
        } else if home_known {
            ConfigPlace::Home
        } else {
            ConfigPlace::Nowhere
        }),
{
    if gim_set {
        ConfigPlace::Given
    } else if xdg_set {
        ConfigPlace::XdgConfig
    } else if home_known {
        ConfigPlace::Home
    } else {
        ConfigPlace::Nowhere
    }
}

// ---------------------------------------------------------------------------
// The syntax of key names

/// `ps[0] + "+" + ps[1] + "+" + ...`, each part followed by a `+`.
pub open spec fn plus_joined(ps: Seq<Seq<char>>) -> Seq<char>
    decreases ps.len(),
{
    if ps.len() == 0 {
        Seq::empty()
    } else {
        ps[0] + "+"@ + plus_joined(ps.drop_first())
    }
}

/// A modifier name, in any case: `ctrl`, `c`, `alt`, `a`, `m`, `shift`, `s`.
pub open spec fn is_modifier_name(p: Seq<char>) -> bool {
    with_modifier(no_mods(), ascii_lower(p)) is Some
}

/// The modifiers after adding those named by `ps`, in turn, to `m`.
pub open spec fn with_modifiers(m: KeyModifiers, ps: Seq<Seq<char>>) -> KeyModifiers
    decreases ps.len(),
{
    if ps.len() == 0 {
        m
    } else {
        match with_modifier(m, ascii_lower(ps[0])) {
            Some(m2) => with_modifiers(m2, ps.drop_first()),
            None => m,
        }
    }
}

/// The key part of a key name: a single character, or (in any case) the name of a key.
pub open spec fn is_key_name(r: Seq<char>) -> bool {
    r.len() == 1 || named_code(ascii_lower(r)) is Some
}

/// The key that the key part `r` names.
pub open spec fn key_named(r: Seq<char>) -> KeyCode {
    match named_code(ascii_lower(r)) {
        Some(c) => c,
        None => KeyCode::Char(r[0]),
    }
}

/// The modifier names `ps` and the key part `r` form a key name `ps[0]+...+r`.
pub open spec fn key_syntax(ps: Seq<Seq<char>>, r: Seq<char>) -> bool {
    &&& forall|i: int| 0 <= i < ps.len() ==> is_modifier_name(#[trigger] ps[i])
    &&& is_key_name(r)
}

proof fn lemma_lower_keeps_plus(t: Seq<char>)
    ensures
        forall|j: int| 0 <= j < t.len() && t[j] == '+' ==> #[trigger] ascii_lower(t)[j] == '+',
{
}

proof fn lemma_modifier_has_no_plus(m: KeyModifiers, l: Seq<char>)
    requires
        with_modifier(m, l) is Some,
    ensures
        forall|j: int| 0 <= j < l.len() ==> l[j] != '+',
{
    reveal_strlit("ctrl");
    reveal_strlit("c");
    reveal_strlit("alt");
    reveal_strlit("a");
    reveal_strlit("m");
    reveal_strlit("shift");
    reveal_strlit("s");
}

proof fn lemma_named_has_no_plus(l: Seq<char>)
    requires
        named_code(l) is Some,
    ensures
        forall|j: int| 0 <= j < l.len() ==> l[j] != '+',
        l.len() > 0,
{
    reveal_strlit("up");
    reveal_strlit("down");
    reveal_strlit("left");
    reveal_strlit("right");
    reveal_strlit("home");
    reveal_strlit("end");
    reveal_strlit("pageup");
    reveal_strlit("pagedown");
    reveal_strlit("enter");
    reveal_strlit("esc");
    reveal_strlit("tab");
    reveal_strlit("backspace");
    reveal_strlit("delete");
    reveal_strlit("space");
}

/// The first `+` of `name + "+" + rest` splits off `name` when `name` holds no `+`.
proof fn lemma_split_at(s: Seq<char>, name: Seq<char>, rest: Seq<char>, mods: KeyModifiers)
    requires
        rest.len() > 0,
        forall|j: int| 0 <= j < name.len() ==> name[j] != '+',
    ensures
        parse_rest(s, name + "+"@ + rest, mods) == match with_modifier(mods, ascii_lower(name)) {
            Some(m2) => parse_rest(s, rest, m2),
            None => Err(modifier_error(name, s)),
        },
{
    reveal_strlit("+");
    let t = name + "+"@ + rest;
    let i = name.len() as int;
    assert(t[i] == '+');
    assert forall|j: int| 0 <= j < i implies t[j] != '+' by {
        assert(t[j] == name[j]);
    }
    assert(is_split(t, i));
    let c = choose|c: int| is_split(t, c);
    lemma_split_unique(t, c, i);
    assert(t.take(i) =~= name);
    assert(t.skip(i + 1) =~= rest);
}

proof fn lemma_syntax_parses(s: Seq<char>, ps: Seq<Seq<char>>, r: Seq<char>, m: KeyModifiers)
    requires
        key_syntax(ps, r),
    ensures
        parse_rest(s, plus_joined(ps) + r, m) == Ok::<(KeyCode, KeyModifiers), Seq<char>>(
            (key_named(r), with_modifiers(m, ps)),
        ),
    decreases ps.len(),
{
    if ps.len() == 0 {
        assert(plus_joined(ps) + r =~= r);
        lemma_lower_keeps_plus(r);
        if r.len() != 1 {
            lemma_named_has_no_plus(ascii_lower(r));
        }
        assert forall|i: int| !is_split(r, i) by {
            if is_split(r, i) {
                assert(r[i] == '+');
                assert(ascii_lower(r)[i] == '+');
            }
        }
    } else {
        let p0 = ps[0];
        let rest = ps.drop_first();
        assert(is_modifier_name(ps[0]));
        lemma_modifier_has_no_plus(no_mods(), ascii_lower(p0));
        lemma_lower_keeps_plus(p0);
        assert forall|j: int| 0 <= j < p0.len() implies p0[j] != '+' by {
            if p0[j] == '+' {
                assert(ascii_lower(p0)[j] == '+');
            }
        }
        assert(key_syntax(rest, r)) by {
            assert forall|i: int| 0 <= i < rest.len() implies is_modifier_name(#[trigger] rest[i]) by {
                assert(rest[i] == ps[i + 1]);
            }
        }
        let tail = plus_joined(rest) + r;
        assert(plus_joined(ps) + r =~= p0 + "+"@ + tail);
        if r.len() != 1 {
            lemma_named_has_no_plus(ascii_lower(r));
        }
        lemma_split_at(s, p0, tail, m);
        let m2 = with_modifier(m, ascii_lower(p0))->0;
        lemma_syntax_parses(s, rest, r, m2);
    }
}

/// Every name made of modifier names and a key part, joined by `+`, is a key name: it
/// parses as the key part's key with the modifiers named, whatever their case.
pub proof fn law_key_syntax_parses(ps: Seq<Seq<char>>, r: Seq<char>)
    requires
        key_syntax(ps, r),
    ensures
        parse_key(plus_joined(ps) + r) == Ok::<(KeyCode, KeyModifiers), Seq<char>>(
            (key_named(r), with_modifiers(no_mods(), ps)),
        ),
{
    lemma_syntax_parses(plus_joined(ps) + r, ps, r, no_mods());
}

proof fn lemma_parse_has_syntax(s: Seq<char>, t: Seq<char>, m: KeyModifiers)
    requires
        parse_rest(s, t, m) is Ok,
    ensures
        exists|ps: Seq<Seq<char>>, r: Seq<char>| key_syntax(ps, r) && t == plus_joined(ps) + r,
    decreases t.len(),
{
    if exists|i: int| is_split(t, i) {
        reveal_strlit("+");
        let i = choose|i: int| is_split(t, i);
        let p0 = t.take(i);
        let m2 = with_modifier(m, ascii_lower(p0))->0;
        let t2 = t.skip(i + 1);
        lemma_parse_has_syntax(s, t2, m2);
        let (ps2, r) = choose|ps2: Seq<Seq<char>>, r: Seq<char>| key_syntax(ps2, r) && t2 == plus_joined(ps2) + r;
        let ps = seq![p0] + ps2;
        assert(ps.drop_first() =~= ps2);
        assert(ps[0] == p0);
        assert(t =~= p0 + "+"@ + t2);
        assert(t =~= plus_joined(ps) + r);
        assert forall|k: int| 0 <= k < ps.len() implies is_modifier_name(#[trigger] ps[k]) by {
            if k > 0 {
                assert(ps[k] == ps2[k - 1]);
            }
        }
        assert(key_syntax(ps, r));
    } else {
        let ps = Seq::<Seq<char>>::empty();
        assert(t =~= plus_joined(ps) + t);
        assert(key_syntax(ps, t));
    }
}

/// Only such names are key names: every name that parses is modifier names and a key part
/// joined by `+`.
pub proof fn law_parse_accepts_only_key_syntax(s: Seq<char>)
    requires
        parse_key(s) is Ok,
    ensures
        exists|ps: Seq<Seq<char>>, r: Seq<char>| key_syntax(ps, r) && s == plus_joined(ps) + r,
{
    lemma_parse_has_syntax(s, s, no_mods());
}

/// A binding matches a key press only of its own key. A character binding matches with
/// its modifiers, shift aside (shift already shows in the character); any other binding
/// only with exactly its modifiers.
pub proof fn law_binding_matches_its_key(k: (KeyCode, KeyModifiers), ev: KeyEvent)
    ensures
        key_matches(k, ev) ==> k.0 == ev.code,
        k.0 is Char && k.0 == ev.code ==> (key_matches(k, ev) <==> (k.1.control == ev.modifiers.control
            && k.1.alt == ev.modifiers.alt && k.1.super_key == ev.modifiers.super_key && k.1.hyper
            == ev.modifiers.hyper && k.1.meta == ev.modifiers.meta)),
        !(k.0 is Char) && k.0 == ev.code ==> (key_matches(k, ev) <==> k.1 == ev.modifiers),
{
}

} // verus!
