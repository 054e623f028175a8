use unsound::hotkeys::{
    cancel_capture, combo_string, mod_from_keycode, name_from_keycode, parse, run, set_bindings,
    should_swallow_fn, Event, KeyEventKind, Matcher, ModSet, Mode, Modifier, Tap, ESCAPE,
};

fn names(events: &[Event]) -> Vec<String> {
    events
        .iter()
        .map(|e| match e {
            Event::CaptureUpdate(u) => format!("update {}", u.combo),
            Event::CaptureCommit(u) => format!("commit {}", u.combo),
            other => other.name().to_string(),
        })
        .collect()
}

fn matcher(bindings: &[(&str, Mode)]) -> Matcher {
    let mut m = Matcher::new();
    let b: Vec<(String, Mode)> = bindings.iter().map(|(c, md)| (c.to_string(), *md)).collect();
    set_bindings(&mut m, &b).unwrap();
    m
}

fn key(k: &str) -> Tap {
    Tap::Key(k.to_string())
}

#[test]
fn parses_combos() {
    let b = parse("fn+space", Mode::HandsFree).unwrap();
    assert!(b.mods.fn_key && !b.mods.cmd);
    assert_eq!(b.key.as_deref(), Some("space"));
    assert_eq!(b.combo, "fn+space");
    let c = parse("super+command+control+option+x", Mode::PushToTalk).unwrap();
    assert!(c.mods.cmd && c.mods.ctrl && c.mods.alt && !c.mods.shift);
    assert_eq!(c.mode, Mode::PushToTalk);
    assert_eq!(parse("fn", Mode::HandsFree).unwrap().key, None);
}

#[test]
fn refuses_bad_combos() {
    assert_eq!(parse("cmd+a+b", Mode::HandsFree).unwrap_err(), "'cmd+a+b' has more than one non-modifier key");
    assert_eq!(parse("", Mode::HandsFree).unwrap_err(), "'' is empty");
    assert_eq!(parse("++", Mode::HandsFree).unwrap_err(), "'++' is empty");
}

#[test]
fn combo_strings_have_a_fixed_order_and_read_back() {
    let m = ModSet { cmd: true, ctrl: false, alt: true, shift: true, fn_key: true };
    let s = combo_string(&m, Some("k"));
    assert_eq!(s, "cmd+alt+shift+fn+k");
    let b = parse(&s, Mode::HandsFree).unwrap();
    assert_eq!(b.mods, m);
    assert_eq!(b.key.as_deref(), Some("k"));
    assert_eq!(combo_string(&ModSet::empty(), None), "");
}

#[test]
fn bare_fn_push_to_talk_gives_way_to_a_key_combo() {
    let mut m = matcher(&[("fn", Mode::PushToTalk), ("fn+space", Mode::HandsFree)]);
    assert_eq!(names(&m.on_key(Tap::Mod(Modifier::Fn), true)), vec!["ptt-down"]);
    assert_eq!(names(&m.on_key(key("space"), true)), vec!["ptt-cancel", "hotkey-toggle"]);
    assert!(m.on_key(key("space"), false).is_empty());
    assert!(m.on_key(Tap::Mod(Modifier::Fn), false).is_empty());
}

#[test]
fn push_to_talk_key_goes_up_on_release() {
    let mut m = matcher(&[("ctrl+k", Mode::PushToTalk)]);
    assert!(m.on_key(Tap::Mod(Modifier::Ctrl), true).is_empty());
    assert_eq!(names(&m.on_key(key("k"), true)), vec!["ptt-down"]);
    assert_eq!(names(&m.on_key(key("k"), false)), vec!["ptt-up"]);
    assert!(m.on_key(Tap::Mod(Modifier::Ctrl), false).is_empty());
}

#[test]
fn push_to_talk_ends_when_its_modifier_is_released() {
    let mut m = matcher(&[("ctrl+k", Mode::PushToTalk)]);
    m.on_key(Tap::Mod(Modifier::Ctrl), true);
    m.on_key(key("k"), true);
    assert_eq!(names(&m.on_key(Tap::Mod(Modifier::Ctrl), false)), vec!["ptt-up"]);
    assert!(m.on_key(key("k"), false).is_empty());
}

#[test]
fn keys_need_the_exact_modifiers() {
    let mut m = matcher(&[("cmd+k", Mode::HandsFree)]);
    assert!(m.on_key(key("k"), true).is_empty());
    m.on_key(Tap::Mod(Modifier::Cmd), true);
    m.on_key(Tap::Mod(Modifier::Shift), true);
    assert!(m.on_key(key("k"), true).is_empty());
    m.on_key(Tap::Mod(Modifier::Shift), false);
    assert_eq!(names(&m.on_key(key("k"), true)), vec!["hotkey-toggle"]);
}

#[test]
fn capture_commits_a_key_combo() {
    let mut m = matcher(&[]);
    m.begin_capture();
    assert_eq!(names(&m.on_key(Tap::Mod(Modifier::Cmd), true)), vec!["update cmd"]);
    assert_eq!(names(&m.on_key(Tap::Mod(Modifier::Shift), true)), vec!["update cmd+shift"]);
    assert_eq!(names(&m.on_key(key("j"), true)), vec!["commit cmd+shift+j"]);
    assert!(m.on_key(key("j"), false).is_empty());
    assert!(m.on_key(Tap::Mod(Modifier::Shift), false).is_empty());
    assert!(m.on_key(Tap::Mod(Modifier::Cmd), false).is_empty());
}

#[test]
fn capture_commits_a_bare_modifier_on_release() {
    let mut m = matcher(&[]);
    m.begin_capture();
    assert_eq!(names(&m.on_key(Tap::Mod(Modifier::Fn), true)), vec!["update fn"]);
    assert!(should_swallow_fn(&m));
    assert_eq!(names(&m.on_key(Tap::Mod(Modifier::Fn), false)), vec!["commit fn"]);
    assert!(!should_swallow_fn(&m));
}

#[test]
fn escape_cancels_a_capture_and_bindings_stay_silent_meanwhile() {
    let mut m = matcher(&[("fn", Mode::HandsFree)]);
    m.begin_capture();
    assert_eq!(names(&m.on_key(Tap::Mod(Modifier::Fn), true)), vec!["update fn"]);
    assert_eq!(names(&m.on_key(Tap::Escape, true)), vec!["capture-cancel"]);
    m.on_key(Tap::Mod(Modifier::Fn), false);
    assert_eq!(names(&m.on_key(Tap::Mod(Modifier::Fn), true)), vec!["hotkey-toggle"]);
    cancel_capture(&mut m);
    assert!(should_swallow_fn(&m));
}

#[test]
fn set_bindings_reports_the_first_bad_combo() {
    let mut m = Matcher::new();
    let bad = vec![("fn".to_string(), Mode::HandsFree), ("a+b".to_string(), Mode::HandsFree), ("".to_string(), Mode::HandsFree)];
    assert_eq!(set_bindings(&mut m, &bad).unwrap_err(), "'a+b' has more than one non-modifier key");
    assert!(!should_swallow_fn(&m));
}

#[test]
fn key_codes() {
    assert_eq!(name_from_keycode(49), Some("space"));
    assert_eq!(name_from_keycode(0), Some("a"));
    assert_eq!(name_from_keycode(9999), None);
    assert_eq!(mod_from_keycode(63), Some(Modifier::Fn));
    assert_eq!(mod_from_keycode(55), Some(Modifier::Cmd));
    assert_eq!(mod_from_keycode(54), Some(Modifier::Cmd));
    assert_eq!(mod_from_keycode(49), None);
}

#[test]
fn raw_events_drive_the_matcher() {
    let mut m = matcher(&[("fn", Mode::PushToTalk)]);
    let (ev, drop) = m.handle_raw(KeyEventKind::FlagsChanged, 63, true);
    assert_eq!(names(&ev), vec!["ptt-down"]);
    assert!(drop);
    let (ev, drop) = m.handle_raw(KeyEventKind::FlagsChanged, 63, false);
    assert_eq!(names(&ev), vec!["ptt-up"]);
    assert!(drop);
    let (ev, drop) = m.handle_raw(KeyEventKind::KeyUp, ESCAPE, false);
    assert!(ev.is_empty() && !drop);
    let (ev, _) = m.handle_raw(KeyEventKind::TapDisabled, 63, true);
    assert!(ev.is_empty());
}

#[test]
fn no_key_listener_off_macos() {
    assert_eq!(run().unwrap_err(), "fn-key shortcuts are only supported on macOS");
}
