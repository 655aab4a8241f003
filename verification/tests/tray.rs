use grab::tray::{
    handle_tray_event, on_shortcut, setup_tray, MenuEntry, MenuItem, ShortcutAction, TrayAction,
    UiSignal, TRAY_TOOLTIP,
};
use grab::types::CaptureSource;

fn source(id: &str, name: &str) -> CaptureSource {
    CaptureSource {
        id: id.to_string(),
        name: name.to_string(),
        thumbnail: None,
        display_id: Some(id.to_string()),
        app_icon: None,
    }
}

fn plain(id: &str, label: &str, accelerator: Option<&str>) -> MenuEntry {
    MenuEntry::Item(MenuItem {
        id: id.to_string(),
        label: label.to_string(),
        accelerator: accelerator.map(|keys| keys.to_string()),
    })
}

#[test]
fn signals_have_their_names() {
    assert_eq!(UiSignal::HistoryRefresh.name(), "history:refresh");
    assert_eq!(UiSignal::ShowCapture.name(), "show-capture");
    assert_eq!(UiSignal::ShowScreenPicker.name(), "show-screen-picker");
    assert_eq!(UiSignal::ShowWindowPicker.name(), "show-window-picker");
    assert_eq!(UiSignal::StartRegionSelect.name(), "start-region-select");
    assert_eq!(UiSignal::OpenSettings.name(), "open-settings");
}

#[test]
fn tray_entries_set_off_their_actions() {
    assert_eq!(handle_tray_event("capture_monitor_25"), TrayAction::CaptureDisplay("25".to_string()));
    assert_eq!(handle_tray_event("capture_monitor_"), TrayAction::CaptureDisplay(String::new()));
    assert_eq!(handle_tray_event("capture_fullscreen"), TrayAction::ShowScreenPicker);
    assert_eq!(handle_tray_event("capture_region"), TrayAction::StartRegionSelect);
    assert_eq!(handle_tray_event("capture_window"), TrayAction::ShowWindowPicker);
    assert_eq!(handle_tray_event("open_editor"), TrayAction::OpenEditor);
    assert_eq!(handle_tray_event("settings"), TrayAction::OpenSettings);
    assert_eq!(handle_tray_event("quit"), TrayAction::Quit);
    assert_eq!(handle_tray_event("capture_monitor"), TrayAction::Ignore);
    assert_eq!(handle_tray_event("Quit"), TrayAction::Ignore);
    assert_eq!(handle_tray_event(""), TrayAction::Ignore);
}

#[test]
fn tray_actions_raise_the_window_and_signal() {
    assert!(TrayAction::ShowScreenPicker.shows_main_window());
    assert!(TrayAction::ShowWindowPicker.shows_main_window());
    assert!(TrayAction::OpenEditor.shows_main_window());
    assert!(TrayAction::OpenSettings.shows_main_window());
    assert!(!TrayAction::StartRegionSelect.shows_main_window());
    assert!(!TrayAction::Quit.shows_main_window());
    assert!(!TrayAction::CaptureDisplay("1".to_string()).shows_main_window());
    assert_eq!(TrayAction::ShowScreenPicker.signal(), Some(UiSignal::ShowScreenPicker));
    assert_eq!(TrayAction::StartRegionSelect.signal(), Some(UiSignal::StartRegionSelect));
    assert_eq!(TrayAction::ShowWindowPicker.signal(), Some(UiSignal::ShowWindowPicker));
    assert_eq!(TrayAction::OpenSettings.signal(), Some(UiSignal::OpenSettings));
    assert_eq!(TrayAction::OpenEditor.signal(), None);
    assert_eq!(TrayAction::Quit.signal(), None);
    assert_eq!(TrayAction::Ignore.signal(), None);
}

#[test]
fn tray_menu_lists_the_monitors_and_the_fixed_entries() {
    let sources = vec![source("10", "Display 1: 800x600"), source("25", "Display 2: 1920x1080 (Primary)")];
    let menu = setup_tray(&sources);
    assert_eq!(menu.len(), 8);
    assert_eq!(
        menu[0],
        MenuEntry::Submenu(
            MenuItem {
                id: "capture_fullscreen".to_string(),
                label: "Capture Full Screen".to_string(),
                accelerator: None,
            },
            vec![
                MenuItem {
                    id: "capture_monitor_10".to_string(),
                    label: "Display 1: 800x600".to_string(),
                    accelerator: None,
                },
                MenuItem {
                    id: "capture_monitor_25".to_string(),
                    label: "Display 2: 1920x1080 (Primary)".to_string(),
                    accelerator: None,
                },
            ],
        )
    );
    assert_eq!(menu[1], plain("capture_region", "Capture Region", Some("CommandOrControl+Shift+2")));
    assert_eq!(menu[2], plain("capture_window", "Capture Window", Some("CommandOrControl+Shift+3")));
    assert_eq!(menu[3], MenuEntry::Separator);
    assert_eq!(menu[4], plain("open_editor", "Open Editor", None));
    assert_eq!(menu[5], plain("settings", "Settings...", None));
    assert_eq!(menu[6], MenuEntry::Separator);
    assert_eq!(menu[7], plain("quit", "Quit Grab", Some("CommandOrControl+Q")));
    assert_eq!(TRAY_TOOLTIP, "Grab - Screen Capture");
}

#[test]
fn monitor_entries_capture_their_display() {
    let sources = vec![source("10", "a"), source("", "b")];
    let menu = setup_tray(&sources);
    match &menu[0] {
        MenuEntry::Submenu(_, items) => {
            assert_eq!(handle_tray_event(&items[0].id), TrayAction::CaptureDisplay("10".to_string()));
            assert_eq!(handle_tray_event(&items[1].id), TrayAction::CaptureDisplay(String::new()));
        }
        other => panic!("unexpected: {:?}", other),
    }
}

#[test]
fn tray_menu_without_monitors() {
    let menu = setup_tray(&Vec::new());
    assert_eq!(menu.len(), 8);
    match &menu[0] {
        MenuEntry::Submenu(_, items) => assert!(items.is_empty()),
        other => panic!("unexpected: {:?}", other),
    }
}

#[test]
fn shortcuts_set_off_their_actions() {
    assert_eq!(on_shortcut(true, true, false, false), Some(ShortcutAction::CaptureFullScreen));
    assert_eq!(on_shortcut(true, false, true, false), Some(ShortcutAction::ShowRegionOverlay));
    assert_eq!(on_shortcut(true, false, false, true), Some(ShortcutAction::ShowWindowPicker));
    assert_eq!(on_shortcut(true, true, true, true), Some(ShortcutAction::CaptureFullScreen));
    assert_eq!(on_shortcut(true, false, true, true), Some(ShortcutAction::ShowRegionOverlay));
    assert_eq!(on_shortcut(true, false, false, false), None);
    assert_eq!(on_shortcut(false, true, true, true), None);
}
