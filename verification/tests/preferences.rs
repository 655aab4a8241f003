use grab::preferences::{
    default_folder_in, get_default_output_folder, PreferencesStore, StoredPreferences,
    CAPTURES_FOLDER, PREFERENCES_FILE,
};
use grab::types::{CaptureMode, CapturePreferences, ShortcutConfig};

fn custom() -> CapturePreferences {
    CapturePreferences {
        output_folder: "/tmp/out".to_string(),
        copy_to_clipboard: false,
        save_to_disk: true,
        default_mode: CaptureMode::Region,
        naming_template: "shot-{mode}".to_string(),
        shortcuts: ShortcutConfig {
            full_screen: "Alt+1".to_string(),
            region: "Alt+2".to_string(),
            window: "Alt+3".to_string(),
        },
        open_editor_after_capture: true,
        hide_editor_during_capture: true,
        show_notifications: false,
    }
}

#[test]
fn defaults_of_a_fresh_installation() {
    let preferences = CapturePreferences::default();
    assert_eq!(preferences.output_folder, "");
    assert!(preferences.copy_to_clipboard);
    assert!(preferences.save_to_disk);
    assert_eq!(preferences.default_mode, CaptureMode::FullScreen);
    assert_eq!(preferences.naming_template, "grab-{date}-{time}-{mode}");
    assert_eq!(preferences.shortcuts, ShortcutConfig::default());
    assert!(!preferences.open_editor_after_capture);
    assert!(!preferences.hide_editor_during_capture);
    assert!(preferences.show_notifications);
    assert_eq!(CaptureMode::default(), CaptureMode::FullScreen);
}

#[test]
fn default_shortcuts() {
    let shortcuts = ShortcutConfig::default();
    assert_eq!(shortcuts.full_screen, "CommandOrControl+Shift+1");
    assert_eq!(shortcuts.region, "CommandOrControl+Shift+2");
    assert_eq!(shortcuts.window, "CommandOrControl+Shift+3");
}

#[test]
fn names_of_the_files() {
    assert_eq!(PREFERENCES_FILE, "preferences.json");
    assert_eq!(CAPTURES_FOLDER, "Grab Captures");
}

#[test]
fn store_without_a_file_starts_from_the_defaults() {
    let store = PreferencesStore::with_default_folder(None, "/home/u/Pictures/Grab Captures".to_string());
    let mut expected = CapturePreferences::default();
    expected.output_folder = "/home/u/Pictures/Grab Captures".to_string();
    assert_eq!(store.get(), expected);
    assert!(store.save_due());
}

#[test]
fn store_keeps_what_was_loaded() {
    let store = PreferencesStore::with_default_folder(Some(custom()), "/ignored".to_string());
    assert_eq!(store.get(), custom());
    assert!(store.save_due());
    assert_eq!(PreferencesStore::new(Some(custom())).get(), custom());
}

#[test]
fn new_store_resolves_the_default_folder() {
    let store = PreferencesStore::new(None);
    let preferences = store.get();
    assert!(!preferences.output_folder.is_empty());
    let mut expected = CapturePreferences::default();
    expected.output_folder = preferences.output_folder.clone();
    assert_eq!(preferences, expected);
}

#[test]
fn set_replaces_the_settings_as_a_whole() {
    let mut store = PreferencesStore::with_default_folder(None, "/d".to_string());
    store.set(custom());
    assert_eq!(store.get(), custom());
    assert!(store.save_due());
}

#[test]
fn output_folder_falls_back_when_none_is_named() {
    let mut store = PreferencesStore::with_default_folder(Some(custom()), "/d".to_string());
    assert_eq!(store.get_output_folder(), "/tmp/out");
    assert_eq!(store.output_folder_or("/fallback".to_string()), "/tmp/out");
    let mut unnamed = custom();
    unnamed.output_folder = String::new();
    store.set(unnamed);
    assert_eq!(store.output_folder_or("/fallback".to_string()), "/fallback");
    assert_eq!(store.get_output_folder(), get_default_output_folder());
}

#[test]
fn default_folder_is_relative_where_the_platform_offers_none() {
    assert_eq!(default_folder_in(None, None), "./captures");
}

#[test]
fn default_folder_lies_among_the_pictures_else_in_the_home() {
    let pictures = Some("/home/u/Pictures".to_string());
    let home = Some("/home/u".to_string());
    assert_eq!(default_folder_in(pictures.clone(), home.clone()), "/home/u/Pictures/Grab Captures");
    assert_eq!(default_folder_in(pictures, None), "/home/u/Pictures/Grab Captures");
    assert_eq!(default_folder_in(None, home), "/home/u/Grab Captures");
}

#[test]
fn default_folder_of_the_platform() {
    let folder = get_default_output_folder();
    assert!(folder == "./captures" || folder.ends_with("Grab Captures"));
}

#[test]
fn stored_preferences_round_trip() {
    let stored = StoredPreferences::from_preferences(&custom());
    assert_eq!(stored.open_editor_after_capture, Some(true));
    assert_eq!(stored.show_notifications, Some(false));
    assert_eq!(stored.into_preferences(), custom());
    let initial = CapturePreferences::default();
    assert_eq!(StoredPreferences::from_preferences(&initial).into_preferences(), initial);
}

#[test]
fn record_without_the_later_switches_takes_their_defaults() {
    let old = StoredPreferences {
        output_folder: "/tmp/out".to_string(),
        copy_to_clipboard: false,
        save_to_disk: false,
        default_mode: CaptureMode::Window,
        naming_template: "n".to_string(),
        shortcuts: ShortcutConfig::default(),
        open_editor_after_capture: None,
        hide_editor_during_capture: None,
        show_notifications: None,
    };
    let preferences = old.into_preferences();
    assert!(!preferences.open_editor_after_capture);
    assert!(!preferences.hide_editor_during_capture);
    assert!(preferences.show_notifications);
    assert_eq!(preferences.output_folder, "/tmp/out");
    assert!(!preferences.copy_to_clipboard);
    assert!(!preferences.save_to_disk);
    assert_eq!(preferences.default_mode, CaptureMode::Window);
}
