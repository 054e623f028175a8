use unsound::asr::{engine_kind, EngineKind};
use unsound::deliver::with_trailing_space;
use unsound::frontapp::frontmost_app;
use unsound::hotkeys::{Event, Mode};
use unsound::models::{builtin_registry, find_model};
use unsound::permissions::{accessibility_trusted, request_accessibility, status};
use unsound::shortcuts::{
    duplicate_message, has_fn, plan_shortcuts, shortcut_event, ShortcutMode, ShortcutStep,
};
use unsound::tray::{menu_action, mic_entries, MenuAction, MIC_DEFAULT_ID, TRAY_ID};

fn strings(v: &[&str]) -> Vec<String> {
    v.iter().map(|s| s.to_string()).collect()
}

fn describe(step: &ShortcutStep) -> String {
    match step {
        ShortcutStep::System(c, ShortcutMode::HandsFree) => format!("system hands-free {c}"),
        ShortcutStep::System(c, ShortcutMode::PushToTalk) => format!("system ptt {c}"),
        ShortcutStep::FnKey(c, Mode::HandsFree) => format!("fn hands-free {c}"),
        ShortcutStep::FnKey(c, Mode::PushToTalk) => format!("fn ptt {c}"),
    }
}

#[test]
fn plans_fn_combos_for_the_listener() {
    let plan = plan_shortcuts(
        &strings(&["cmd+shift+space", "fn", "  "]),
        &strings(&["fn+space", "ctrl+fnord"]),
    );
    let steps: Vec<String> = plan.steps.iter().map(describe).collect();
    assert_eq!(
        steps,
        vec![
            "system hands-free cmd+shift+space",
            "fn hands-free fn",
            "fn ptt fn+space",
            "system ptt ctrl+fnord",
        ]
    );
    assert_eq!(plan.duplicate, None);
}

#[test]
fn planning_stops_at_a_combo_assigned_twice() {
    let plan = plan_shortcuts(&strings(&["alt+x", "fn"]), &strings(&["fn", "ctrl+y"]));
    assert_eq!(plan.steps.len(), 2);
    assert_eq!(plan.duplicate, Some("fn".to_string()));
    assert_eq!(duplicate_message("fn"), "'fn' is assigned twice");
    let blanks = plan_shortcuts(&strings(&["", ""]), &strings(&[]));
    assert_eq!(blanks.steps.len(), 0);
    assert_eq!(blanks.duplicate, None);
}

#[test]
fn fn_parts() {
    assert!(has_fn("fn"));
    assert!(has_fn("cmd+fn+k"));
    assert!(!has_fn("fnord"));
    assert!(!has_fn("cmd+f"));
    assert!(!has_fn(""));
}

#[test]
fn system_hotkey_events() {
    assert!(matches!(shortcut_event(Some(ShortcutMode::HandsFree), true), Some(Event::HotkeyToggle)));
    assert!(shortcut_event(Some(ShortcutMode::HandsFree), false).is_none());
    assert!(matches!(shortcut_event(Some(ShortcutMode::PushToTalk), true), Some(Event::PttDown)));
    assert!(matches!(shortcut_event(Some(ShortcutMode::PushToTalk), false), Some(Event::PttUp)));
    assert!(shortcut_event(None, true).is_none());
}

#[test]
fn tray_menu_actions() {
    assert!(matches!(menu_action("open"), MenuAction::Open));
    assert!(matches!(menu_action("paste-last"), MenuAction::PasteLast));
    assert!(matches!(menu_action("quit"), MenuAction::Quit));
    assert!(matches!(menu_action("mic:"), MenuAction::SelectMic(d) if d.is_empty()));
    assert!(matches!(menu_action("mic:USB Mic"), MenuAction::SelectMic(d) if d == "USB Mic"));
    assert!(matches!(menu_action("mic:mic:x"), MenuAction::SelectMic(d) if d == "x"));
    assert!(matches!(menu_action("Open"), MenuAction::Ignore));
    assert!(matches!(menu_action("mi"), MenuAction::Ignore));
    assert_eq!(TRAY_ID, "unsound-tray");
}

#[test]
fn microphone_entries_select_their_device() {
    let devices = strings(&["Built-in", "USB Mic"]);
    let entries = mic_entries("USB Mic", &devices);
    assert_eq!(entries.len(), 3);
    assert_eq!(entries[0].id, MIC_DEFAULT_ID);
    assert_eq!(entries[0].label, "System default");
    assert!(!entries[0].checked);
    assert_eq!(entries[2].id, "mic:USB Mic");
    assert!(entries[2].checked && !entries[1].checked);
    for (e, d) in entries[1..].iter().zip(&devices) {
        assert!(matches!(menu_action(&e.id), MenuAction::SelectMic(x) if &x == d));
    }
    assert!(mic_entries("", &devices)[0].checked);
}

#[test]
fn typed_text_gets_one_trailing_space() {
    assert_eq!(with_trailing_space("hello"), "hello ");
    assert_eq!(with_trailing_space("hello\n"), "hello\n");
    assert_eq!(with_trailing_space(""), "");
    let once = with_trailing_space("a b");
    assert_eq!(with_trailing_space(&once), once);
}

#[test]
fn engines_by_model() {
    let models = builtin_registry();
    let whisper = find_model(&models, "whisper-base").ok().unwrap();
    assert_eq!(engine_kind(&whisper, "whisper-base"), EngineKind::Whisper);
    let parakeet = find_model(&models, "parakeet-tdt-v3").ok().unwrap();
    assert_eq!(engine_kind(&parakeet, "parakeet-tdt-v3"), EngineKind::Parakeet);
    let moonshine = find_model(&models, "moonshine-base-en").ok().unwrap();
    assert_eq!(engine_kind(&moonshine, "moonshine-base-en"), EngineKind::Moonshine);
}

#[test]
fn platform_without_permission_prompts() {
    assert!(accessibility_trusted());
    assert!(status().accessibility);
    assert!(request_accessibility());
    assert_eq!(frontmost_app(), None);
}
