use redactor::settings::toggle_shortcut_from_member;
use redactor::settings::shortcut_change;
use redactor::settings::{panic_hotkey, shortcut_action, ShortcutAction};
use redactor::settings::ShortcutChangeOutcome;
use redactor::redactor::RedactorState;
use redactor::settings::{config_body, load_toggle_shortcut, DEFAULT_TOGGLE_SHORTCUT};

#[test]
fn default_shortcut_without_config() {
    assert_eq!(load_toggle_shortcut(None), "CmdOrCtrl+Alt+B");
    assert_eq!(DEFAULT_TOGGLE_SHORTCUT, "CmdOrCtrl+Alt+B");
}

#[test]
fn shortcut_from_config() {
    assert_eq!(load_toggle_shortcut(Some(r#"{"toggle": "Ctrl+Shift+X"}"#)), "Ctrl+Shift+X");
}

#[test]
fn malformed_config_falls_back_to_default() {
    assert_eq!(load_toggle_shortcut(Some("not json")), "CmdOrCtrl+Alt+B");
    assert_eq!(load_toggle_shortcut(Some(r#"{"toggle": 5}"#)), "CmdOrCtrl+Alt+B");
    assert_eq!(load_toggle_shortcut(Some(r#"["toggle"]"#)), "CmdOrCtrl+Alt+B");
    assert_eq!(load_toggle_shortcut(Some(r#"{"other": "Alt+Q"}"#)), "CmdOrCtrl+Alt+B");
}

#[test]
fn config_body_is_pretty_json() {
    assert_eq!(config_body("CmdOrCtrl+Alt+B"), "{\n  \"toggle\": \"CmdOrCtrl+Alt+B\"\n}");
}

#[test]
fn saved_shortcut_loads_back() {
    for s in ["Ctrl+Shift+X", "with \"quotes\" and \\", "Ünïcode+K", ""] {
        let body = config_body(s);
        assert_eq!(load_toggle_shortcut(Some(&body)), s);
    }
}

#[test]
fn invalid_shortcut_is_refused_with_message() {
    let s = RedactorState::new("CmdOrCtrl+Alt+B".to_string());
    match s.plan_shortcut_change("Ctrl+Nope+") {
        Err(msg) => assert_eq!(msg, "invalid shortcut: Ctrl+Nope+"),
        Ok(_) => panic!("accepted an invalid shortcut"),
    }
}

#[test]
fn valid_shortcut_change_unregisters_old() {
    let s = RedactorState::new("CmdOrCtrl+Alt+B".to_string());
    assert!(s.toggle_hotkey().is_some());
    let change = s.plan_shortcut_change("Ctrl+Shift+K").ok().unwrap();
    assert!(change.unregister.is_some());
}

#[test]
fn unparsable_old_shortcut_is_not_unregistered() {
    let s = RedactorState::new("garbage++".to_string());
    assert!(s.toggle_hotkey().is_none());
    let change = s.plan_shortcut_change("Alt+Q").ok().unwrap();
    assert!(change.unregister.is_none());
}

#[test]
fn panic_shortcut_parses() {
    assert_eq!(redactor::settings::PANIC_SHORTCUT, "CmdOrCtrl+Alt+Shift+B");
    assert!(redactor::settings::panic_hotkey().is_some());
}

#[test]
fn config_body_escapes_like_json() {
    assert_eq!(
        config_body("a\"\\\u{1}\t\u{7f}é"),
        "{\n  \"toggle\": \"a\\\"\\\\\\u0001\\t\u{7f}é\"\n}"
    );
    assert_eq!(config_body("\u{1f}\u{8}\u{c}\r\n"), "{\n  \"toggle\": \"\\u001f\\b\\f\\r\\n\"\n}");
}

#[test]
fn failed_registration_keeps_old_shortcut() {
    let mut s = RedactorState::new("CmdOrCtrl+Alt+B".to_string());
    let change = s.plan_shortcut_change("Ctrl+Shift+K").ok().unwrap();
    let rollback =
        s.finish_shortcut_change(&change, "Ctrl+Shift+K".to_string(), ShortcutChangeOutcome::RegisterFailed);
    assert_eq!(s.get_toggle_shortcut(), "CmdOrCtrl+Alt+B");
    assert!(rollback.unregister.is_none());
    assert_eq!(rollback.register, change.unregister);
}

#[test]
fn failed_save_restores_old_hotkey() {
    let mut s = RedactorState::new("CmdOrCtrl+Alt+B".to_string());
    let change = s.plan_shortcut_change("Ctrl+Shift+K").ok().unwrap();
    let rollback =
        s.finish_shortcut_change(&change, "Ctrl+Shift+K".to_string(), ShortcutChangeOutcome::SaveFailed);
    assert_eq!(s.get_toggle_shortcut(), "CmdOrCtrl+Alt+B");
    assert_eq!(rollback.unregister, Some(change.register));
    assert_eq!(rollback.register, change.unregister);
}

#[test]
fn saved_change_is_recorded() {
    let mut s = RedactorState::new("CmdOrCtrl+Alt+B".to_string());
    let change = s.plan_shortcut_change("Ctrl+Shift+K").ok().unwrap();
    let rollback =
        s.finish_shortcut_change(&change, "Ctrl+Shift+K".to_string(), ShortcutChangeOutcome::Saved);
    assert_eq!(s.get_toggle_shortcut(), "Ctrl+Shift+K");
    assert!(rollback.unregister.is_none() && rollback.register.is_none());
}

#[test]
fn member_or_default() {
    assert_eq!(toggle_shortcut_from_member(Some("Alt+Q".to_string())), "Alt+Q");
    assert_eq!(toggle_shortcut_from_member(None), "CmdOrCtrl+Alt+B");
}

#[test]
fn shortcut_change_pairs_new_and_old() {
    let new: global_hotkey::hotkey::HotKey = "Ctrl+Shift+K".parse().unwrap();
    let old: global_hotkey::hotkey::HotKey = "Alt+B".parse().unwrap();
    let c = shortcut_change(Some(new), Some(old), "Ctrl+Shift+K").ok().unwrap();
    assert_eq!(c.register, new);
    assert_eq!(c.unregister, Some(old));
    match shortcut_change(None, Some(old), "bad+") {
        Err(m) => assert_eq!(m, "invalid shortcut: bad+"),
        Ok(_) => panic!("accepted"),
    }
}

#[test]
fn pressed_shortcut_action() {
    let panic = panic_hotkey();
    let toggle: global_hotkey::hotkey::HotKey = "CmdOrCtrl+Alt+B".parse().unwrap();
    assert_eq!(shortcut_action(&panic.unwrap(), panic), ShortcutAction::ClearAll);
    assert_eq!(shortcut_action(&toggle, panic), ShortcutAction::Toggle);
    assert_eq!(shortcut_action(&toggle, None), ShortcutAction::Toggle);
}
