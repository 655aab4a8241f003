use grab::error::{GrabError, SerializableError};
use grab::types::CaptureErrorCode;

fn all() -> Vec<(GrabError, CaptureErrorCode, &'static str, &'static str)> {
    vec![
        (GrabError::PermissionDenied("x".to_string()), CaptureErrorCode::PermissionDenied, "Permission denied: x", "x"),
        (GrabError::SourceNotFound("x".to_string()), CaptureErrorCode::SourceNotFound, "Source not found: x", "x"),
        (GrabError::CaptureFailed("x".to_string()), CaptureErrorCode::CaptureFailed, "Capture failed: x", "x"),
        (GrabError::ExportFailed("x".to_string()), CaptureErrorCode::ExportFailed, "Export failed: x", "x"),
        (GrabError::ClipboardFailed("x".to_string()), CaptureErrorCode::ClipboardFailed, "Clipboard operation failed: x", "x"),
        (GrabError::InvalidRequest("x".to_string()), CaptureErrorCode::InvalidRequest, "Invalid request: x", "x"),
        (GrabError::Cancelled, CaptureErrorCode::Cancelled, "Operation cancelled", ""),
        (GrabError::Io("x".to_string()), CaptureErrorCode::ExportFailed, "IO error: x", "x"),
        (GrabError::Serialization("x".to_string()), CaptureErrorCode::ExportFailed, "Serialization error: x", "x"),
        (GrabError::Tauri("x".to_string()), CaptureErrorCode::CaptureFailed, "Tauri error: x", "x"),
        (GrabError::Image("x".to_string()), CaptureErrorCode::CaptureFailed, "Image error: x", "x"),
    ]
}

#[test]
fn every_failure_has_its_code_and_sentence() {
    for (error, code, sentence, detail) in all() {
        assert_eq!(error.code(), code);
        assert_eq!(error.message(), sentence);
        assert_eq!(error.detail(), detail);
    }
}

#[test]
fn copies_are_equal() {
    for (error, _, _, _) in all() {
        assert_eq!(error.clone(), error);
    }
}

#[test]
fn report_for_the_user_interface() {
    for (error, code, sentence, _) in all() {
        let report = SerializableError::from(error);
        assert_eq!(report.code, code);
        assert_eq!(report.message, sentence);
    }
}

#[test]
fn empty_detail_keeps_the_prefix() {
    assert_eq!(GrabError::Io(String::new()).message(), "IO error: ");
}
