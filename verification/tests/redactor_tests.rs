use redactor::redactor::{menu_action, MenuAction};
use redactor::redactor::{box_layer_label, windows_with_prefix, DrawMode, Effects, RedactorState};

fn none() -> Effects {
    Effects {
        create_box_layer: false,
        create_draw_layer: false,
        start_watcher: false,
        stop_watcher: false,
        close_draw_windows: false,
        close_box_windows: false,
        reset_deadline: false,
    }
}

fn idle() -> DrawMode {
    DrawMode { drawing: false, box_count: 0, watcher_running: false }
}

#[test]
fn enter_opens_layers_and_starts_watcher() {
    let mut s = RedactorState::new("CmdOrCtrl+Alt+B".to_string());
    let e = s.enter_draw_mode(false);
    assert_eq!(
        e,
        Effects { create_box_layer: true, create_draw_layer: true, start_watcher: true, ..none() }
    );
    assert_eq!(s.mode(), DrawMode { drawing: true, box_count: 0, watcher_running: true });
    assert_eq!(s.enter_draw_mode(false), none());
}

#[test]
fn toggle_twice_without_boxes_clears() {
    let mut s = RedactorState::new(String::new());
    s.toggle(false);
    let e = s.toggle(true);
    assert_eq!(
        e,
        Effects { stop_watcher: true, close_draw_windows: true, close_box_windows: true, ..none() }
    );
    assert_eq!(s.mode(), idle());
}

#[test]
fn exit_with_boxes_keeps_them() {
    let mut s = RedactorState::new(String::new());
    s.enter_draw_mode(false);
    assert_eq!(s.add_box_internal(), Effects { reset_deadline: true, ..none() });
    s.add_box_internal();
    let e = s.exit_draw_mode();
    assert_eq!(e, Effects { close_draw_windows: true, ..none() });
    assert_eq!(s.mode(), DrawMode { drawing: false, box_count: 2, watcher_running: true });
    // Entering again reuses the boxes layer and the running watcher.
    let e = s.toggle(true);
    assert_eq!(e, Effects { create_draw_layer: true, ..none() });
}

#[test]
fn cancel_clears_everything() {
    let mut s = RedactorState::new(String::new());
    s.enter_draw_mode(false);
    s.add_box_internal();
    let e = s.clear_all();
    assert_eq!(
        e,
        Effects { stop_watcher: true, close_draw_windows: true, close_box_windows: true, ..none() }
    );
    assert_eq!(s.mode(), idle());
    assert_eq!(s.exit_draw_mode(), none());
}

#[test]
fn clear_all_reports_running_watcher() {
    let mut s = RedactorState::new(String::new());
    assert!(!s.clear_all().stop_watcher);
    s.enter_draw_mode(true);
    assert!(s.mode().watcher_running);
    assert!(s.clear_all().stop_watcher);
    assert!(!s.mode().watcher_running);
}

#[test]
fn box_goes_to_matching_boxes_window() {
    assert_eq!(box_layer_label("draw-2"), "boxes-2");
    assert_eq!(box_layer_label("draw-"), "boxes-");
    assert_eq!(box_layer_label("settings"), "boxes-0");
}

#[test]
fn windows_by_prefix() {
    let labels: Vec<String> =
        vec!["boxes-0".into(), "draw-0".into(), "settings".into(), "draw-1".into()];
    assert_eq!(windows_with_prefix(&labels, "draw-"), vec![1, 3]);
    assert_eq!(windows_with_prefix(&labels, "boxes-"), vec![0]);
    assert!(windows_with_prefix(&labels, "nothing").is_empty());
}

#[test]
fn toggle_shortcut_getter() {
    let s = RedactorState::new("Ctrl+Shift+R".to_string());
    assert_eq!(s.get_toggle_shortcut(), "Ctrl+Shift+R");
}

#[test]
fn tray_menu_actions() {
    assert_eq!(menu_action("toggle"), MenuAction::Toggle);
    assert_eq!(menu_action("settings"), MenuAction::OpenSettings);
    assert_eq!(menu_action("quit"), MenuAction::Quit);
    assert_eq!(menu_action("Quit"), MenuAction::Nothing);
    assert_eq!(menu_action(""), MenuAction::Nothing);
}

#[test]
fn exit_without_code_keeps_tray_running() {
    assert!(redactor::redactor::keeps_running(None));
    assert!(!redactor::redactor::keeps_running(Some(0)));
}
