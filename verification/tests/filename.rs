use grab::capture::{fill_template, generate_filename, generate_filename_at};
use grab::clock::Instant;
use grab::types::CaptureMode;

#[test]
fn test_generate_filename() {
    let template = "grab-{date}-{time}-{mode}";
    let filename = generate_filename(template, CaptureMode::FullScreen);

    assert!(filename.starts_with("grab-"));
    assert!(filename.contains("fullscreen"));
}

#[test]
fn filename_at_the_epoch() {
    let at = Instant { secs: 0, nanos: 0 };
    let name = generate_filename_at("grab-{date}-{time}-{mode}-{timestamp}", CaptureMode::Region, at);
    assert_eq!(name, "grab-1970-01-01-00-00-00-region-0");
}

#[test]
fn filename_at_a_known_instant() {
    let at = Instant { secs: 1_710_000_000, nanos: 123_456_789 };
    let name = generate_filename_at("{date}_{time}_{mode}_{timestamp}", CaptureMode::Window, at);
    assert_eq!(name, "2024-03-09_16-00-00_window_1710000000");
}

#[test]
fn every_occurrence_of_a_token_is_replaced() {
    let name = fill_template("{mode}{mode}-{date}{date}", "D", "T", CaptureMode::Display, 7);
    assert_eq!(name, "displaydisplay-DD");
}

#[test]
fn unknown_tokens_pass_through() {
    let name = fill_template("a-{user}-{Date}-{mode", "D", "T", CaptureMode::FullScreen, 7);
    assert_eq!(name, "a-{user}-{Date}-{mode");
}

#[test]
fn template_without_tokens_is_unchanged() {
    assert_eq!(fill_template("plain", "D", "T", CaptureMode::FullScreen, 7), "plain");
    assert_eq!(fill_template("", "D", "T", CaptureMode::FullScreen, 7), "");
}

#[test]
fn timestamp_token_takes_the_seconds() {
    assert_eq!(fill_template("{timestamp}", "D", "T", CaptureMode::FullScreen, 0), "0");
    assert_eq!(fill_template("{timestamp}", "D", "T", CaptureMode::FullScreen, -15), "-15");
    assert_eq!(
        fill_template("{timestamp}", "D", "T", CaptureMode::FullScreen, i64::MIN),
        "-9223372036854775808"
    );
    assert_eq!(
        fill_template("{timestamp}", "D", "T", CaptureMode::FullScreen, i64::MAX),
        "9223372036854775807"
    );
}

#[test]
fn tokens_are_replaced_in_order() {
    // The date is put in first, so a date that spells a token is expanded in turn.
    let name = fill_template("{date}", "{time}", "T", CaptureMode::FullScreen, 1);
    assert_eq!(name, "T");
}

#[test]
fn nested_braces_match_leftmost() {
    let name = fill_template("{{mode}}", "D", "T", CaptureMode::Region, 1);
    assert_eq!(name, "{region}");
}

#[test]
fn shot_template_for_full_screen() {
    assert_eq!(fill_template("shot-{mode}", "D", "T", CaptureMode::FullScreen, 1), "shot-fullscreen");
}
