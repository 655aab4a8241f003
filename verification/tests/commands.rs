use grab::capture::{save_image, Bitmap};
use grab::clock::Instant;
use grab::commands::{
    classify_input, copy_to_clipboard, default_save_name, export_capture, image_outcome,
    process_capture_as, read_image_data, resolve_input, save_and_process_capture, Action,
    ExportFormat, ImageData, ImageInput, Purpose, Report, Stage, Step,
};
use grab::error::GrabError;
use grab::history::HistoryStore;
use grab::types::{
    CaptureMetadata, CaptureMode, CapturePreferences, RegionBounds, UNIT_SCALE_BITS,
};

fn metadata(mode: CaptureMode) -> CaptureMetadata {
    CaptureMetadata {
        mode,
        display_id: Some("1".to_string()),
        window_id: None,
        bounds: RegionBounds { x: 0, y: 0, width: 4, height: 4 },
        timestamp: "2024-03-09T16:00:00+00:00".to_string(),
        scale_factor_bits: UNIT_SCALE_BITS,
        file_name: None,
    }
}

fn preferences(save: bool, copy: bool, notify: bool, editor: bool) -> CapturePreferences {
    let mut preferences = CapturePreferences::default();
    preferences.output_folder = "/tmp/out".to_string();
    preferences.naming_template = "shot-{mode}".to_string();
    preferences.save_to_disk = save;
    preferences.copy_to_clipboard = copy;
    preferences.show_notifications = notify;
    preferences.open_editor_after_capture = editor;
    preferences
}

fn start(save: bool, copy: bool, notify: bool, editor: bool) -> Step {
    process_capture_as(
        metadata(CaptureMode::FullScreen),
        &preferences(save, copy, notify, editor),
        "shot-fullscreen".to_string(),
        "/tmp/out/shot-fullscreen.png".to_string(),
        "shot-fullscreen.png".to_string(),
    )
}

fn ask(step: Step) -> (grab::commands::Pipeline, Action) {
    match step {
        Step::Ask(pipeline, action) => (pipeline, action),
        other => panic!("the pipeline has ended: {:?}", other),
    }
}

fn picture() -> Bitmap {
    Bitmap::new(2, 2, vec![255, 0, 0, 255, 0, 255, 0, 255, 0, 0, 255, 255, 9, 9, 9, 128]).unwrap()
}

#[test]
fn full_screen_capture_saved_to_disk() {
    let mut history = HistoryStore::new(Some(vec![grab::types::HistoryItem {
        id: "1".to_string(),
        file_path: "/tmp/out/older.png".to_string(),
        timestamp: "2020-01-01T00:00:00+00:00".to_string(),
        thumbnail: None,
    }]));
    let mut prefs = preferences(true, false, false, false);
    prefs.naming_template = "shot-{mode}".to_string();
    let mut folders = Vec::new();
    let mut files = Vec::new();
    let mut written = Vec::new();
    let mut step = save_and_process_capture(metadata(CaptureMode::FullScreen), &prefs);
    let result = loop {
        match step {
            Step::Ask(pipeline, action) => {
                match action {
                    Action::CreateFolder(folder) => folders.push(folder),
                    Action::WriteImage(path) => {
                        written = save_image(&picture()).unwrap();
                        files.push(path);
                    }
                    Action::RecordCapture(path) => history.add(path),
                    Action::CopyToClipboard => panic!("the clipboard was not asked for"),
                    Action::Notify { .. } => panic!("no notification was asked for"),
                    Action::Refresh { open_editor, show_capture } => {
                        assert!(!open_editor);
                        assert_eq!(show_capture, None);
                    }
                }
                step = pipeline.resume(Report::Done);
            }
            Step::Done(result) => break result,
            Step::Failed(error) => panic!("failed: {:?}", error),
        }
    };
    assert_eq!(folders, vec!["/tmp/out"]);
    assert_eq!(files, vec!["/tmp/out/shot-fullscreen.png"]);
    assert_eq!(image::load_from_memory(&written).unwrap().to_rgba8().into_raw(), picture().data);
    assert_eq!(history.get_all(&vec!["/tmp/out/shot-fullscreen.png".to_string()]).len(), 1);
    assert_eq!(result.file_path, Some("/tmp/out/shot-fullscreen.png".to_string()));
    assert!(!result.copied_to_clipboard);
    assert_eq!(result.metadata.file_name, Some("shot-fullscreen".to_string()));
    assert_eq!(result.metadata.mode, CaptureMode::FullScreen);
    let items = history.items();
    assert_eq!(items.len(), 2);
    assert_eq!(items[0].file_path, "/tmp/out/shot-fullscreen.png");
    assert_eq!(items[1].file_path, "/tmp/out/older.png");
    assert!(history.save_due());
}

#[test]
fn steps_come_in_their_order() {
    let (pipeline, action) = ask(start(true, true, true, true));
    assert_eq!(action, Action::CreateFolder("/tmp/out".to_string()));
    assert_eq!(pipeline.stage(), Stage::Folder);
    let (pipeline, action) = ask(pipeline.resume(Report::Done));
    assert_eq!(action, Action::WriteImage("/tmp/out/shot-fullscreen.png".to_string()));
    assert_eq!(pipeline.stage(), Stage::Image);
    let (pipeline, action) = ask(pipeline.resume(Report::Done));
    assert_eq!(action, Action::RecordCapture("/tmp/out/shot-fullscreen.png".to_string()));
    assert_eq!(pipeline.stage(), Stage::History);
    let (pipeline, action) = ask(pipeline.resume(Report::Done));
    assert_eq!(action, Action::CopyToClipboard);
    assert_eq!(pipeline.stage(), Stage::Clipboard);
    let (pipeline, action) = ask(pipeline.resume(Report::Done));
    assert_eq!(
        action,
        Action::Notify {
            title: "Capture Complete".to_string(),
            body: "Saved to shot-fullscreen.png and clipboard".to_string(),
        }
    );
    assert_eq!(pipeline.stage(), Stage::Notification);
    let (pipeline, action) = ask(pipeline.resume(Report::Done));
    assert_eq!(
        action,
        Action::Refresh {
            open_editor: true,
            show_capture: Some("/tmp/out/shot-fullscreen.png".to_string()),
        }
    );
    assert_eq!(pipeline.stage(), Stage::Refresh);
    match pipeline.resume(Report::Done) {
        Step::Done(result) => {
            assert_eq!(result.file_path, Some("/tmp/out/shot-fullscreen.png".to_string()));
            assert!(result.copied_to_clipboard);
            assert_eq!(result.metadata.file_name, Some("shot-fullscreen".to_string()));
        }
        other => panic!("unexpected: {:?}", other),
    }
}

#[test]
fn nothing_to_do_but_refresh() {
    let (pipeline, action) = ask(start(false, false, false, false));
    assert_eq!(action, Action::Refresh { open_editor: false, show_capture: None });
    match pipeline.resume(Report::Done) {
        Step::Done(result) => {
            assert_eq!(result.file_path, None);
            assert!(!result.copied_to_clipboard);
            assert_eq!(result.metadata, metadata(CaptureMode::FullScreen));
        }
        other => panic!("unexpected: {:?}", other),
    }
}

#[test]
fn notification_says_what_happened() {
    let (pipeline, action) = ask(start(false, true, true, false));
    assert_eq!(action, Action::CopyToClipboard);
    let (_, action) = ask(pipeline.resume(Report::Done));
    assert_eq!(
        action,
        Action::Notify { title: "Capture Complete".to_string(), body: "Copied to clipboard".to_string() }
    );

    let (pipeline, _) = ask(start(true, false, true, false));
    let (pipeline, _) = ask(pipeline.resume(Report::Done));
    let (pipeline, _) = ask(pipeline.resume(Report::Done));
    let (_, action) = ask(pipeline.resume(Report::Done));
    assert_eq!(
        action,
        Action::Notify {
            title: "Capture Complete".to_string(),
            body: "Saved to shot-fullscreen.png".to_string(),
        }
    );

    let (_, action) = ask(start(false, false, true, false));
    assert_eq!(action, Action::Notify { title: "Capture Complete".to_string(), body: String::new() });
}

#[test]
fn failure_while_saving_ends_the_pipeline() {
    let (pipeline, _) = ask(start(true, true, true, true));
    let failed = pipeline.resume(Report::Failed(GrabError::Io("denied".to_string())));
    assert_eq!(failed, Step::Failed(GrabError::Io("denied".to_string())));

    let (pipeline, _) = ask(start(true, true, true, true));
    let (pipeline, _) = ask(pipeline.resume(Report::Done));
    let failed = pipeline.resume(Report::Failed(GrabError::Image("bad".to_string())));
    assert_eq!(failed, Step::Failed(GrabError::Image("bad".to_string())));

    let (pipeline, _) = ask(start(true, true, true, true));
    let (pipeline, _) = ask(pipeline.resume(Report::Done));
    let (pipeline, _) = ask(pipeline.resume(Report::Done));
    let failed = pipeline.resume(Report::Failed(GrabError::Serialization("json".to_string())));
    assert_eq!(failed, Step::Failed(GrabError::Serialization("json".to_string())));
}

#[test]
fn failure_of_the_clipboard_is_a_clipboard_failure() {
    let (pipeline, action) = ask(start(false, true, true, false));
    assert_eq!(action, Action::CopyToClipboard);
    let failed = pipeline.resume(Report::Failed(GrabError::Tauri("no clipboard".to_string())));
    assert_eq!(failed, Step::Failed(GrabError::ClipboardFailed("no clipboard".to_string())));

    let (pipeline, _) = ask(start(false, true, true, false));
    let failed = pipeline.resume(Report::Failed(GrabError::Cancelled));
    assert_eq!(failed, Step::Failed(GrabError::ClipboardFailed(String::new())));
}

#[test]
fn failure_of_the_notification_is_swallowed() {
    let (pipeline, action) = ask(start(false, false, true, true));
    assert!(matches!(action, Action::Notify { .. }));
    let (pipeline, action) = ask(pipeline.resume(Report::Failed(GrabError::Tauri("x".to_string()))));
    assert_eq!(action, Action::Refresh { open_editor: true, show_capture: None });
    match pipeline.resume(Report::Failed(GrabError::Tauri("y".to_string()))) {
        Step::Done(result) => assert_eq!(result.file_path, None),
        other => panic!("unexpected: {:?}", other),
    }
}

#[test]
fn capture_is_shown_only_where_the_editor_opens() {
    let (pipeline, _) = ask(start(true, false, false, false));
    let (pipeline, _) = ask(pipeline.resume(Report::Done));
    let (pipeline, _) = ask(pipeline.resume(Report::Done));
    let (_, action) = ask(pipeline.resume(Report::Done));
    assert_eq!(action, Action::Refresh { open_editor: false, show_capture: None });
}

#[test]
fn processing_names_the_file_from_the_template() {
    let mut prefs = preferences(true, false, false, false);
    prefs.naming_template = "grab-{mode}-{timestamp}".to_string();
    let (pipeline, action) = ask(save_and_process_capture(metadata(CaptureMode::Region), &prefs));
    assert_eq!(action, Action::CreateFolder("/tmp/out".to_string()));
    let (_, action) = ask(pipeline.resume(Report::Done));
    match action {
        Action::WriteImage(path) => {
            assert!(path.starts_with("/tmp/out/grab-region-"));
            assert!(path.ends_with(".png"));
            let stamp = &path["/tmp/out/grab-region-".len()..path.len() - 4];
            assert!(stamp.parse::<i64>().unwrap() > 1_600_000_000);
        }
        other => panic!("unexpected: {:?}", other),
    }
}

#[test]
fn inputs_are_told_apart() {
    assert_eq!(classify_input("/tmp/a.png"), ImageInput::Path("/tmp/a.png".to_string()));
    assert_eq!(classify_input(""), ImageInput::Path(String::new()));
    assert_eq!(classify_input("data"), ImageInput::Path("data".to_string()));
    assert_eq!(
        classify_input("data:image/png;base64,AAEC"),
        ImageInput::Encoded("AAEC".to_string())
    );
    assert_eq!(classify_input("data:image/png;base64"), ImageInput::Malformed);
    assert_eq!(classify_input("data:,"), ImageInput::Encoded(String::new()));
    assert_eq!(classify_input("data:a,b,c"), ImageInput::Encoded("b".to_string()));
    assert_eq!(classify_input("data:,,x"), ImageInput::Encoded(String::new()));
}

#[test]
fn image_data_is_read_from_a_data_url() {
    assert_eq!(
        read_image_data("data:image/png;base64,AAEC/w==", Purpose::File),
        Ok(ImageData::Bytes(vec![0, 1, 2, 255]))
    );
    assert_eq!(
        read_image_data("/tmp/a.png", Purpose::Clipboard),
        Ok(ImageData::File("/tmp/a.png".to_string()))
    );
    assert_eq!(read_image_data("data:,", Purpose::File), Ok(ImageData::Bytes(Vec::new())));
}

#[test]
fn image_data_that_is_no_data_url_with_bytes_is_refused() {
    assert_eq!(
        read_image_data("data:image/png;base64", Purpose::File),
        Err(GrabError::InvalidRequest("Invalid data URL".to_string()))
    );
    assert_eq!(
        read_image_data("data:image/png;base64", Purpose::Clipboard),
        Err(GrabError::InvalidRequest("Invalid data URL".to_string()))
    );
    match read_image_data("data:image/png;base64,@@@@", Purpose::File) {
        Err(GrabError::ExportFailed(detail)) => assert!(!detail.is_empty()),
        other => panic!("unexpected: {:?}", other),
    }
    match read_image_data("data:image/png;base64,AAE", Purpose::Clipboard) {
        Err(GrabError::ClipboardFailed(detail)) => assert!(!detail.is_empty()),
        other => panic!("unexpected: {:?}", other),
    }
}

#[test]
fn resolved_input_for_each_case() {
    let encoded = ImageInput::Encoded("AAEC".to_string());
    assert_eq!(
        resolve_input(encoded.clone(), Ok(vec![0, 1, 2]), Purpose::File),
        Ok(ImageData::Bytes(vec![0, 1, 2]))
    );
    assert_eq!(
        resolve_input(encoded.clone(), Err("broken".to_string()), Purpose::File),
        Err(GrabError::ExportFailed("broken".to_string()))
    );
    assert_eq!(
        resolve_input(encoded, Err("broken".to_string()), Purpose::Clipboard),
        Err(GrabError::ClipboardFailed("broken".to_string()))
    );
    assert_eq!(
        resolve_input(ImageInput::Malformed, Ok(vec![1]), Purpose::File),
        Err(GrabError::InvalidRequest("Invalid data URL".to_string()))
    );
    assert_eq!(
        resolve_input(ImageInput::Path("/p".to_string()), Err(String::new()), Purpose::File),
        Ok(ImageData::File("/p".to_string()))
    );
}

#[test]
fn names_offered_for_saving_and_exporting() {
    assert_eq!(default_save_name(None), "capture.png");
    assert_eq!(default_save_name(Some("mine.jpg".to_string())), "mine.jpg");
    assert_eq!(ExportFormat::named("jpeg"), ExportFormat::Jpeg);
    assert_eq!(ExportFormat::named("jpg"), ExportFormat::Jpeg);
    assert_eq!(ExportFormat::named("png"), ExportFormat::Png);
    assert_eq!(ExportFormat::named("JPEG"), ExportFormat::Png);
    assert_eq!(ExportFormat::named(""), ExportFormat::Png);
    assert_eq!(ExportFormat::Jpeg.extension(), "jpg");
    assert_eq!(ExportFormat::Png.extension(), "png");
    assert_eq!(ExportFormat::Jpeg.default_name(), "capture.jpg");
    assert_eq!(ExportFormat::Png.default_name(), "capture.png");
}

#[test]
fn export_writes_the_format_that_is_asked_for() {
    let png = save_image(&picture()).unwrap();
    let as_png = export_capture(&png, "png").unwrap();
    assert_eq!(&as_png[..4], &[0x89, b'P', b'N', b'G']);
    assert_eq!(image::load_from_memory(&as_png).unwrap().to_rgba8().into_raw(), picture().data);
    let as_jpeg = export_capture(&png, "jpg").unwrap();
    assert_eq!(&as_jpeg[..3], &[0xFF, 0xD8, 0xFF]);
    let other = export_capture(&png, "webp").unwrap();
    assert_eq!(&other[..4], &[0x89, b'P', b'N', b'G']);
}

#[test]
fn export_of_bytes_that_hold_no_image_fails() {
    match export_capture(&vec![1, 2, 3], "png") {
        Err(GrabError::ExportFailed(detail)) => assert!(!detail.is_empty()),
        other => panic!("unexpected: {:?}", other),
    }
}

#[test]
fn clipboard_takes_the_pixels_of_the_image() {
    let png = save_image(&picture()).unwrap();
    let pixels = copy_to_clipboard(&png).unwrap();
    assert_eq!(pixels, picture());
    match copy_to_clipboard(&Vec::new()) {
        Err(GrabError::ClipboardFailed(detail)) => assert!(!detail.is_empty()),
        other => panic!("unexpected: {:?}", other),
    }
}

#[test]
fn outcome_of_the_codec_for_each_purpose() {
    assert_eq!(image_outcome(Ok::<Vec<u8>, String>(vec![1, 2]), Purpose::File), Ok(vec![1, 2]));
    assert_eq!(image_outcome(Ok::<u8, String>(7), Purpose::Clipboard), Ok(7));
    assert_eq!(
        image_outcome(Err::<Vec<u8>, String>("broken".to_string()), Purpose::File),
        Err(GrabError::ExportFailed("broken".to_string()))
    );
    assert_eq!(
        image_outcome(Err::<Vec<u8>, String>("broken".to_string()), Purpose::Clipboard),
        Err(GrabError::ClipboardFailed("broken".to_string()))
    );
}

#[test]
fn export_and_clipboard_give_the_same_for_the_same_bytes() {
    let png = save_image(&picture()).unwrap();
    assert_eq!(export_capture(&png, "jpeg"), export_capture(&png, "jpg"));
    assert_eq!(export_capture(&png, "png"), export_capture(&png, "anything"));
    assert_ne!(export_capture(&png, "png"), export_capture(&png, "jpg"));
    assert_eq!(copy_to_clipboard(&png), copy_to_clipboard(&png));
    let jpeg = export_capture(&png, "jpg").unwrap();
    let pixels = copy_to_clipboard(&jpeg).unwrap();
    assert_eq!((pixels.width, pixels.height), (2, 2));
    assert_eq!(pixels.data.len(), 16);
    assert!(pixels.is_valid());
}

#[test]
fn export_to_jpeg_of_an_image_holds_the_picture() {
    let png = save_image(&picture()).unwrap();
    let jpeg = export_capture(&png, "jpeg").unwrap();
    let read = image::load_from_memory(&jpeg).unwrap();
    assert_eq!((read.width(), read.height()), (2, 2));
}

#[test]
fn history_add_at_the_instant_of_the_capture() {
    let mut history = HistoryStore::new(None);
    history.add_at("/tmp/out/shot-fullscreen.png".to_string(), Instant { secs: 5, nanos: 0 });
    assert_eq!(history.items()[0].id, "500000000");
}
