//! Failures of the capture pipeline and the form in which the user interface
//! receives them.

use crate::types::CaptureErrorCode;
use vstd::prelude::*;

verus! {

/// What `GrabError` holds, with texts as character sequences.
pub enum ErrorView {
    PermissionDenied(Seq<char>),
    SourceNotFound(Seq<char>),
    CaptureFailed(Seq<char>),
    ExportFailed(Seq<char>),
    ClipboardFailed(Seq<char>),
    InvalidRequest(Seq<char>),
    Cancelled,
    Io(Seq<char>),
    Serialization(Seq<char>),
    Tauri(Seq<char>),
    Image(Seq<char>),
}

impl ErrorView {
    /// The kind under which the failure is presented: failures of reading,
    /// writing and serialising count as failed exports, failures of the image
    /// codec and of the application framework as failed captures.
    pub open spec fn code(self) -> CaptureErrorCode {
        match self {
            ErrorView::PermissionDenied(_) => CaptureErrorCode::PermissionDenied,
            ErrorView::SourceNotFound(_) => CaptureErrorCode::SourceNotFound,
            ErrorView::CaptureFailed(_) => CaptureErrorCode::CaptureFailed,
            ErrorView::ExportFailed(_) => CaptureErrorCode::ExportFailed,
            ErrorView::ClipboardFailed(_) => CaptureErrorCode::ClipboardFailed,
            ErrorView::InvalidRequest(_) => CaptureErrorCode::InvalidRequest,
            ErrorView::Cancelled => CaptureErrorCode::Cancelled,
            ErrorView::Io(_) => CaptureErrorCode::ExportFailed,
            ErrorView::Serialization(_) => CaptureErrorCode::ExportFailed,
            ErrorView::Tauri(_) => CaptureErrorCode::CaptureFailed,
            ErrorView::Image(_) => CaptureErrorCode::CaptureFailed,
        }
    }

    /// The description that the failure carries; a cancelled operation carries none.
    pub open spec fn detail(self) -> Seq<char> {
        match self {
            ErrorView::PermissionDenied(detail) => detail,
            ErrorView::SourceNotFound(detail) => detail,
            ErrorView::CaptureFailed(detail) => detail,
            ErrorView::ExportFailed(detail) => detail,
            ErrorView::ClipboardFailed(detail) => detail,
            ErrorView::InvalidRequest(detail) => detail,
            ErrorView::Cancelled => Seq::empty(),
            ErrorView::Io(detail) => detail,
            ErrorView::Serialization(detail) => detail,
            ErrorView::Tauri(detail) => detail,
            ErrorView::Image(detail) => detail,
        }
    }

    /// The sentence that describes the failure.
    pub open spec fn message(self) -> Seq<char> {
        match self {
            ErrorView::PermissionDenied(detail) => "Permission denied: "@ + detail,
            ErrorView::SourceNotFound(detail) => "Source not found: "@ + detail,
            ErrorView::CaptureFailed(detail) => "Capture failed: "@ + detail,
            ErrorView::ExportFailed(detail) => "Export failed: "@ + detail,
            ErrorView::ClipboardFailed(detail) => "Clipboard operation failed: "@ + detail,
            ErrorView::InvalidRequest(detail) => "Invalid request: "@ + detail,
            ErrorView::Cancelled => "Operation cancelled"@,
            ErrorView::Io(detail) => "IO error: "@ + detail,
            ErrorView::Serialization(detail) => "Serialization error: "@ + detail,
            ErrorView::Tauri(detail) => "Tauri error: "@ + detail,
            ErrorView::Image(detail) => "Image error: "@ + detail,
        }
    }
}

/// A failure of the application. The last four variants carry the description
/// of a failure that arose below the application: in reading or writing, in
/// serialising, in the application framework, in the image codec.
#[derive(Debug, PartialEq, Eq)]
pub enum GrabError {
    PermissionDenied(String),
    SourceNotFound(String),
    CaptureFailed(String),
    ExportFailed(String),
    ClipboardFailed(String),
    InvalidRequest(String),
    Cancelled,
    Io(String),
    Serialization(String),
    Tauri(String),
    Image(String),
}

impl View for GrabError {
    type V = ErrorView;

    open spec fn view(&self) -> ErrorView {
        match self {
            GrabError::PermissionDenied(detail) => ErrorView::PermissionDenied(detail@),
            GrabError::SourceNotFound(detail) => ErrorView::SourceNotFound(detail@),
            GrabError::CaptureFailed(detail) => ErrorView::CaptureFailed(detail@),
            GrabError::ExportFailed(detail) => ErrorView::ExportFailed(detail@),
            GrabError::ClipboardFailed(detail) => ErrorView::ClipboardFailed(detail@),
            GrabError::InvalidRequest(detail) => ErrorView::InvalidRequest(detail@),
            GrabError::Cancelled => ErrorView::Cancelled,
            GrabError::Io(detail) => ErrorView::Io(detail@),
            GrabError::Serialization(detail) => ErrorView::Serialization(detail@),
            GrabError::Tauri(detail) => ErrorView::Tauri(detail@),
            GrabError::Image(detail) => ErrorView::Image(detail@),
        }
    }
}

fn prefixed(prefix: &str, detail: &String) -> (sentence: String)
    ensures
        sentence@ == prefix@ + detail@,
{
    prefix.to_string().concat(detail.as_str())
}

impl GrabError {
    /// The kind under which the failure is presented.
    pub fn code(&self) -> (code: CaptureErrorCode)
        ensures
            code == self@.code(),
    {
        match self {
            GrabError::PermissionDenied(_) => CaptureErrorCode::PermissionDenied,
            GrabError::SourceNotFound(_) => CaptureErrorCode::SourceNotFound,
            GrabError::CaptureFailed(_) => CaptureErrorCode::CaptureFailed,
            GrabError::ExportFailed(_) => CaptureErrorCode::ExportFailed,
            GrabError::ClipboardFailed(_) => CaptureErrorCode::ClipboardFailed,
            GrabError::InvalidRequest(_) => CaptureErrorCode::InvalidRequest,
            GrabError::Cancelled => CaptureErrorCode::Cancelled,
            GrabError::Io(_) => CaptureErrorCode::ExportFailed,
            GrabError::Serialization(_) => CaptureErrorCode::ExportFailed,
            GrabError::Tauri(_) => CaptureErrorCode::CaptureFailed,
            GrabError::Image(_) => CaptureErrorCode::CaptureFailed,
        }
    }

    /// The description that the failure carries; a cancelled operation carries none.
    pub fn detail(&self) -> (text: String)
        ensures
            text@ == self@.detail(),
    {
        match self {
            GrabError::PermissionDenied(detail) => detail.clone(),
            GrabError::SourceNotFound(detail) => detail.clone(),
            GrabError::CaptureFailed(detail) => detail.clone(),
            GrabError::ExportFailed(detail) => detail.clone(),
            GrabError::ClipboardFailed(detail) => detail.clone(),
            GrabError::InvalidRequest(detail) => detail.clone(),
            GrabError::Cancelled => String::new(),
            GrabError::Io(detail) => detail.clone(),
            GrabError::Serialization(detail) => detail.clone(),
            GrabError::Tauri(detail) => detail.clone(),
            GrabError::Image(detail) => detail.clone(),
        }
    }

    /// The sentence that describes the failure.
    pub fn message(&self) -> (sentence: String)
        ensures
            sentence@ == self@.message(),
    {
        match self {
            GrabError::PermissionDenied(detail) => prefixed("Permission denied: ", detail),
            GrabError::SourceNotFound(detail) => prefixed("Source not found: ", detail),
            GrabError::CaptureFailed(detail) => prefixed("Capture failed: ", detail),
            GrabError::ExportFailed(detail) => prefixed("Export failed: ", detail),
            GrabError::ClipboardFailed(detail) => prefixed("Clipboard operation failed: ", detail),
            GrabError::InvalidRequest(detail) => prefixed("Invalid request: ", detail),
            GrabError::Cancelled => "Operation cancelled".to_string(),
            GrabError::Io(detail) => prefixed("IO error: ", detail),
            GrabError::Serialization(detail) => prefixed("Serialization error: ", detail),
            GrabError::Tauri(detail) => prefixed("Tauri error: ", detail),
            GrabError::Image(detail) => prefixed("Image error: ", detail),
        }
    }
}

impl Clone for GrabError {
    fn clone(&self) -> (copy: Self)
        ensures
            copy == *self,
    {
        match self {
            GrabError::PermissionDenied(detail) => GrabError::PermissionDenied(detail.clone()),
            GrabError::SourceNotFound(detail) => GrabError::SourceNotFound(detail.clone()),
            GrabError::CaptureFailed(detail) => GrabError::CaptureFailed(detail.clone()),
            GrabError::ExportFailed(detail) => GrabError::ExportFailed(detail.clone()),
            GrabError::ClipboardFailed(detail) => GrabError::ClipboardFailed(detail.clone()),
            GrabError::InvalidRequest(detail) => GrabError::InvalidRequest(detail.clone()),
            GrabError::Cancelled => GrabError::Cancelled,
            GrabError::Io(detail) => GrabError::Io(detail.clone()),
            GrabError::Serialization(detail) => GrabError::Serialization(detail.clone()),
            GrabError::Tauri(detail) => GrabError::Tauri(detail.clone()),
            GrabError::Image(detail) => GrabError::Image(detail.clone()),
        }
    }
}

/// The result of an operation of the application.
pub type GrabResult<T> = Result<T, GrabError>;

/// A failure as it is handed to the user interface: its kind and its sentence.
#[derive(Debug, PartialEq, Eq)]
pub struct SerializableError {
    pub code: CaptureErrorCode,
    pub message: String,
}

impl SerializableError {
    /// Tells whether this is the report of `error`.
    pub open spec fn reports(&self, error: ErrorView) -> bool {
        &&& self.code == error.code()
        &&& self.message@ == error.message()
    }
}

/// The conversion is stated by `reports`: the new text has no value of its own
/// before it is built.
impl vstd::std_specs::convert::FromSpecImpl<GrabError> for SerializableError {
    open spec fn obeys_from_spec() -> bool {
        false
    }

    open spec fn from_spec(error: GrabError) -> Self {
        arbitrary()
    }
}

impl From<GrabError> for SerializableError {
    fn from(error: GrabError) -> (report: Self)
        ensures
            report.reports(error@),
    {
        SerializableError { code: error.code(), message: error.message() }
    }
}

} // verus!
