use grab::types::{default_true, CaptureMode};

#[test]
fn mode_names_are_lower_case_words() {
    assert_eq!(CaptureMode::FullScreen.name(), "fullscreen");
    assert_eq!(CaptureMode::Display.name(), "display");
    assert_eq!(CaptureMode::Window.name(), "window");
    assert_eq!(CaptureMode::Region.name(), "region");
}

#[test]
fn default_true_is_true() {
    assert!(default_true());
}
