use gim::config::{Config, KeyCode, KeyEvent, KeyModifiers, KeySpec, NamedKey};
use gim::input::LineInput;

fn ev(code: KeyCode, mods: KeyModifiers) -> KeyEvent {
    KeyEvent::new(code, mods)
}

fn none() -> KeyModifiers {
    KeyModifiers::none()
}

fn shift() -> KeyModifiers {
    KeyModifiers { shift: true, ..none() }
}

fn ctrl() -> KeyModifiers {
    KeyModifiers { control: true, ..none() }
}

#[test]
fn matching() {
    let upper_d = KeySpec::parse("D").unwrap();
    assert!(upper_d.matches(&ev(KeyCode::Char('D'), shift())));
    assert!(upper_d.matches(&ev(KeyCode::Char('D'), none())));
    assert!(!upper_d.matches(&ev(KeyCode::Char('d'), none())));
    let ctrl_c = KeySpec::parse("ctrl+c").unwrap();
    assert!(ctrl_c.matches(&ev(KeyCode::Char('c'), ctrl())));
    assert!(!ctrl_c.matches(&ev(KeyCode::Char('c'), none())));
    assert_eq!(ctrl_c.to_text(), "ctrl+c");
    assert!(KeySpec::parse("esc").unwrap().matches(&ev(KeyCode::Esc, none())));
}

#[test]
fn parse_errors_name_the_problem() {
    assert_eq!(KeySpec::parse("hyper+x").unwrap_err(), "unknown modifier \"hyper\" in key \"hyper+x\"");
    assert_eq!(KeySpec::parse("xx").unwrap_err(), "unknown key \"xx\"");
    assert_eq!(KeySpec::parse("").unwrap_err(), "unknown key \"\"");
    assert!(KeySpec::parse("++").is_err());
}

#[test]
fn parse_modifiers_and_names() {
    let k = KeySpec::parse("Ctrl+Alt+Shift+PageUp").unwrap();
    assert!(k.matches(&ev(
        KeyCode::Named(NamedKey::PageUp),
        KeyModifiers { control: true, alt: true, shift: true, ..none() }
    )));
    let plus = KeySpec::parse("ctrl++").unwrap();
    assert!(plus.matches(&ev(KeyCode::Char('+'), ctrl())));
    assert_eq!(plus.to_text(), "ctrl++");
    let space = KeySpec::parse("SPACE").unwrap();
    assert!(space.matches(&ev(KeyCode::Char(' '), none())));
    assert_eq!(space.to_text(), "space");
    assert_eq!(KeySpec::parse("a+x").unwrap().to_text(), "alt+x");
    assert_eq!(KeySpec::parse("s+m+x").unwrap().to_text(), "alt+shift+x");
    // Shift is ignored for characters, not for other keys.
    assert!(!KeySpec::parse("up").unwrap().matches(&ev(KeyCode::Named(NamedKey::Up), shift())));
}

#[test]
fn named_key_names_are_lower_case() {
    let t = KeySpec::parse("shift+up").unwrap().to_text();
    assert_eq!(t, "shift+up");
    assert_eq!(KeySpec::parse("pageup").unwrap().to_text(), "page up");
    assert_eq!(KeySpec::parse("ctrl+pagedown").unwrap().to_text(), "ctrl+page down");
    assert_eq!(KeySpec::parse("home").unwrap().to_text(), "home");
    // Off macOS crossterm writes "Backspace" and "Del"; on macOS "Delete" and "Fwd Del".
    let b = KeySpec::parse("backspace").unwrap().to_text();
    assert!(b == "backspace" || b == "delete");
    let d = KeySpec::parse("delete").unwrap().to_text();
    assert!(d == "del" || d == "fwd del");
}

#[test]
fn name_of_a_key_reads_back_as_the_key() {
    for name in [
        "k", "D", "ctrl+c", "alt+shift+x", "esc", "enter", "space", "+", "ctrl++", "up", "ctrl+left",
        "tab", "shift+end",
    ] {
        let k = KeySpec::parse(name).unwrap();
        assert_eq!(KeySpec::parse(&k.to_text()).unwrap(), k, "{name}");
    }
}

#[test]
fn default_config() {
    let cfg = Config::default();
    assert!(cfg.confirm_delete);
    assert_eq!(cfg.editor, "code");
    assert!(!cfg.autostash);
    let keys = &cfg.keys;
    assert_eq!(keys.down.0, vec![KeySpec::parse("j").unwrap(), KeySpec::parse("down").unwrap()]);
    assert_eq!(keys.quit.0, vec![KeySpec::parse("q").unwrap(), KeySpec::parse("ctrl+c").unwrap()]);
    assert_eq!(keys.operation.primary().unwrap().to_text(), "o");
    assert!(keys.up.matches(&ev(KeyCode::Named(NamedKey::Up), none())));
    assert!(!keys.up.matches(&ev(KeyCode::Char('j'), none())));
}

fn line(keys: &[KeyEvent], start: &str) -> LineInput {
    let mut l = LineInput::default();
    l.set(start);
    for k in keys {
        l.handle(k);
    }
    l
}

#[test]
fn line_input_editing() {
    let c = |x| ev(KeyCode::Char(x), none());
    let l = line(&[c('a'), c('b')], "xy");
    assert_eq!((l.value().as_str(), l.cursor), ("xyab", 4));
    let l = line(&[ev(KeyCode::Char('a'), ctrl()), c('>')], "xy");
    assert_eq!((l.value().as_str(), l.cursor), (">xy", 1));
    let l = line(&[ev(KeyCode::Named(NamedKey::Left), none()), ev(KeyCode::Char('u'), ctrl())], "abc");
    assert_eq!((l.value().as_str(), l.cursor), ("c", 0));
    let l = line(&[ev(KeyCode::Char('w'), ctrl())], "git branch  ");
    assert_eq!((l.value().as_str(), l.cursor), ("git ", 4));
    let l = line(&[ev(KeyCode::Named(NamedKey::Backspace), none())], "ab");
    assert_eq!((l.value().as_str(), l.cursor), ("a", 1));
    let l = line(&[ev(KeyCode::Named(NamedKey::Home), none()), ev(KeyCode::Named(NamedKey::Delete), none())], "ab");
    assert_eq!((l.value().as_str(), l.cursor), ("b", 0));
    let l = line(&[ev(KeyCode::Named(NamedKey::Right), none())], "ab");
    assert_eq!(l.cursor, 2);
    let l = line(&[ev(KeyCode::Char('x'), ctrl())], "ab");
    assert_eq!((l.value().as_str(), l.cursor), ("ab", 2));
}

#[test]
fn typing_then_backspace_restores_the_line() {
    let l0 = line(&[ev(KeyCode::Named(NamedKey::Left), none())], "héllo");
    let l = line(
        &[
            ev(KeyCode::Named(NamedKey::Left), none()),
            ev(KeyCode::Char('Z'), shift()),
            ev(KeyCode::Named(NamedKey::Backspace), none()),
        ],
        "héllo",
    );
    assert_eq!((l.value(), l.cursor), (l0.value(), l0.cursor));
}

#[test]
fn key_names_are_modifiers_then_a_key() {
    for ok in ["x", "+", "ctrl++", "C+A+S+x", "m+Tab", "shift+DELETE"] {
        assert!(KeySpec::parse(ok).is_ok(), "{ok}");
    }
    for bad in ["", "ctrl+", "ctrl+xy", "cmd+x", "ctrl+hyper+x", "+x"] {
        assert!(KeySpec::parse(bad).is_err(), "{bad}");
    }
}

#[test]
fn config_file_place() {
    assert_eq!(gim::config::config_place(true, true, true), gim::config::ConfigPlace::Given);
    assert_eq!(gim::config::config_place(false, true, true), gim::config::ConfigPlace::XdgConfig);
    assert_eq!(gim::config::config_place(false, false, true), gim::config::ConfigPlace::Home);
    assert_eq!(gim::config::config_place(false, false, false), gim::config::ConfigPlace::Nowhere);
}
