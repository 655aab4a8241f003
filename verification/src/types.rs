//! The records that captures, preferences and history are made of, each with
//! the mathematical view that contracts speak of.

use vstd::prelude::*;

verus! {

/// What a capture takes a picture of.
#[derive(Debug, Clone, Copy, PartialEq, Eq, Structural)]
pub enum CaptureMode {
    FullScreen,
    Display,
    Window,
    Region,
}

impl Default for CaptureMode {
    fn default() -> (mode: Self)
        ensures
            mode == CaptureMode::FullScreen,
    {
        CaptureMode::FullScreen
    }
}

impl CaptureMode {
    /// The lower-case word that stands for the mode in file names.
    pub open spec fn label(self) -> Seq<char> {
        match self {
            CaptureMode::FullScreen => "fullscreen"@,
            CaptureMode::Display => "display"@,
            CaptureMode::Window => "window"@,
            CaptureMode::Region => "region"@,
        }
    }

    /// The lower-case word that stands for the mode in file names.
    pub fn name(self) -> (word: &'static str)
        ensures
            word@ == self.label(),
    {
        match self {
            CaptureMode::FullScreen => "fullscreen",
            CaptureMode::Display => "display",
            CaptureMode::Window => "window",
            CaptureMode::Region => "region",
        }
    }
}

/// A rectangle in the pixel coordinates of the surface it is taken from.
#[derive(Debug, Clone, Copy, PartialEq, Eq, Structural)]
pub struct RegionBounds {
    pub x: i32,
    pub y: i32,
    pub width: u32,
    pub height: u32,
}

/// A copy of an optional text.
pub fn clone_text(text: &Option<String>) -> (copy: Option<String>)
    ensures
        copy == *text,
{
    match text {
        Some(s) => Some(s.clone()),
        None => None,
    }
}

/// What a caller asks a capture to do.
#[derive(Debug, PartialEq, Eq)]
pub struct CaptureRequest {
    pub mode: CaptureMode,
    pub display_id: Option<String>,
    pub window_id: Option<String>,
    pub region: Option<RegionBounds>,
    pub copy_to_clipboard: bool,
    pub save_to_disk: bool,
}

impl Clone for CaptureRequest {
    fn clone(&self) -> (copy: Self)
        ensures
            copy == *self,
    {
        CaptureRequest {
            mode: self.mode,
            display_id: clone_text(&self.display_id),
            window_id: clone_text(&self.window_id),
            region: self.region,
            copy_to_clipboard: self.copy_to_clipboard,
            save_to_disk: self.save_to_disk,
        }
    }
}

/// The default of switches that are on unless a stored record says otherwise.
pub fn default_true() -> (on: bool)
    ensures
        on,
{
    true
}

/// What `CaptureMetadata` holds, with texts as character sequences.
pub struct MetadataView {
    pub mode: CaptureMode,
    pub display_id: Option<Seq<char>>,
    pub window_id: Option<Seq<char>>,
    pub bounds: RegionBounds,
    pub timestamp: Seq<char>,
    pub scale_factor_bits: u64,
    pub file_name: Option<Seq<char>>,
}

/// The bit pattern of the scale factor 1.0.
pub const UNIT_SCALE_BITS: u64 = 0x3FF0_0000_0000_0000;

/// The facts recorded with one capture. The scale factor is kept as the bit
/// pattern of its double-precision value, so that it passes through unchanged.
#[derive(Debug, PartialEq, Eq)]
pub struct CaptureMetadata {
    pub mode: CaptureMode,
    pub display_id: Option<String>,
    pub window_id: Option<String>,
    pub bounds: RegionBounds,
    pub timestamp: String,
    pub scale_factor_bits: u64,
    pub file_name: Option<String>,
}

impl View for CaptureMetadata {
    type V = MetadataView;

    open spec fn view(&self) -> MetadataView {
        MetadataView {
            mode: self.mode,
            display_id: self.display_id.deep_view(),
            window_id: self.window_id.deep_view(),
            bounds: self.bounds,
            timestamp: self.timestamp@,
            scale_factor_bits: self.scale_factor_bits,
            file_name: self.file_name.deep_view(),
        }
    }
}

impl Clone for CaptureMetadata {
    fn clone(&self) -> (copy: Self)
        ensures
            copy == *self,
    {
        CaptureMetadata {
            mode: self.mode,
            display_id: clone_text(&self.display_id),
            window_id: clone_text(&self.window_id),
            bounds: self.bounds,
            timestamp: self.timestamp.clone(),
            scale_factor_bits: self.scale_factor_bits,
            file_name: clone_text(&self.file_name),
        }
    }
}

/// What `CaptureResult` holds, with texts as character sequences.
pub struct ResultView {
    pub file_path: Option<Seq<char>>,
    pub metadata: MetadataView,
    pub copied_to_clipboard: bool,
}

/// What one capture came to.
#[derive(Debug, PartialEq, Eq)]
pub struct CaptureResult {
    pub file_path: Option<String>,
    pub metadata: CaptureMetadata,
    pub copied_to_clipboard: bool,
}

impl View for CaptureResult {
    type V = ResultView;

    open spec fn view(&self) -> ResultView {
        ResultView {
            file_path: self.file_path.deep_view(),
            metadata: self.metadata@,
            copied_to_clipboard: self.copied_to_clipboard,
        }
    }
}

impl Clone for CaptureResult {
    fn clone(&self) -> (copy: Self)
        ensures
            copy == *self,
    {
        CaptureResult {
            file_path: clone_text(&self.file_path),
            metadata: self.metadata.clone(),
            copied_to_clipboard: self.copied_to_clipboard,
        }
    }
}

/// What `CaptureSource` holds, with texts as character sequences.
pub struct SourceView {
    pub id: Seq<char>,
    pub name: Seq<char>,
    pub thumbnail: Option<Seq<char>>,
    pub display_id: Option<Seq<char>>,
    pub app_icon: Option<Seq<char>>,
}

/// A screen or a window that can be captured.
#[derive(Debug, PartialEq, Eq)]
pub struct CaptureSource {
    pub id: String,
    pub name: String,
    pub thumbnail: Option<String>,
    pub display_id: Option<String>,
    pub app_icon: Option<String>,
}

impl View for CaptureSource {
    type V = SourceView;

    open spec fn view(&self) -> SourceView {
        SourceView {
            id: self.id@,
            name: self.name@,
            thumbnail: self.thumbnail.deep_view(),
            display_id: self.display_id.deep_view(),
            app_icon: self.app_icon.deep_view(),
        }
    }
}

impl Clone for CaptureSource {
    fn clone(&self) -> (copy: Self)
        ensures
            copy == *self,
    {
        CaptureSource {
            id: self.id.clone(),
            name: self.name.clone(),
            thumbnail: clone_text(&self.thumbnail),
            display_id: clone_text(&self.display_id),
            app_icon: clone_text(&self.app_icon),
        }
    }
}

/// What `ShortcutConfig` holds, with texts as character sequences.
pub struct ShortcutView {
    pub full_screen: Seq<char>,
    pub region: Seq<char>,
    pub window: Seq<char>,
}

/// The key combinations that start a capture from anywhere.
#[derive(Debug, PartialEq, Eq)]
pub struct ShortcutConfig {
    pub full_screen: String,
    pub region: String,
    pub window: String,
}

impl View for ShortcutConfig {
    type V = ShortcutView;

    open spec fn view(&self) -> ShortcutView {
        ShortcutView {
            full_screen: self.full_screen@,
            region: self.region@,
            window: self.window@,
        }
    }
}

impl ShortcutConfig {
    /// The key combinations of a fresh installation.
    pub open spec fn initial() -> ShortcutView {
        ShortcutView {
            full_screen: "CommandOrControl+Shift+1"@,
            region: "CommandOrControl+Shift+2"@,
            window: "CommandOrControl+Shift+3"@,
        }
    }
}

impl Default for ShortcutConfig {
    fn default() -> (config: Self)
        ensures
            config@ == ShortcutConfig::initial(),
    {
        ShortcutConfig {
            full_screen: "CommandOrControl+Shift+1".to_string(),
            region: "CommandOrControl+Shift+2".to_string(),
            window: "CommandOrControl+Shift+3".to_string(),
        }
    }
}

impl Clone for ShortcutConfig {
    fn clone(&self) -> (copy: Self)
        ensures
            copy == *self,
    {
        ShortcutConfig {
            full_screen: self.full_screen.clone(),
            region: self.region.clone(),
            window: self.window.clone(),
        }
    }
}

/// What `CapturePreferences` holds, with texts as character sequences.
pub struct PreferencesView {
    pub output_folder: Seq<char>,
    pub copy_to_clipboard: bool,
    pub save_to_disk: bool,
    pub default_mode: CaptureMode,
    pub naming_template: Seq<char>,
    pub shortcuts: ShortcutView,
    pub open_editor_after_capture: bool,
    pub hide_editor_during_capture: bool,
    pub show_notifications: bool,
}

/// The user's settings for captures.
#[derive(Debug, PartialEq, Eq)]
pub struct CapturePreferences {
    pub output_folder: String,
    pub copy_to_clipboard: bool,
    pub save_to_disk: bool,
    pub default_mode: CaptureMode,
    pub naming_template: String,
    pub shortcuts: ShortcutConfig,
    pub open_editor_after_capture: bool,
    pub hide_editor_during_capture: bool,
    pub show_notifications: bool,
}

impl View for CapturePreferences {
    type V = PreferencesView;

    open spec fn view(&self) -> PreferencesView {
        PreferencesView {
            output_folder: self.output_folder@,
            copy_to_clipboard: self.copy_to_clipboard,
            save_to_disk: self.save_to_disk,
            default_mode: self.default_mode,
            naming_template: self.naming_template@,
            shortcuts: self.shortcuts@,
            open_editor_after_capture: self.open_editor_after_capture,
            hide_editor_during_capture: self.hide_editor_during_capture,
            show_notifications: self.show_notifications,
        }
    }
}

impl CapturePreferences {
    /// The settings of a fresh installation; the output folder is still to be chosen.
    pub open spec fn initial() -> PreferencesView {
        PreferencesView {
            output_folder: Seq::empty(),
            copy_to_clipboard: true,
            save_to_disk: true,
            default_mode: CaptureMode::FullScreen,
            naming_template: "grab-{date}-{time}-{mode}"@,
            shortcuts: ShortcutConfig::initial(),
            open_editor_after_capture: false,
            hide_editor_during_capture: false,
            show_notifications: true,
        }
    }
}

impl Default for CapturePreferences {
    fn default() -> (preferences: Self)
        ensures
            preferences@ == CapturePreferences::initial(),
    {
        CapturePreferences {
            output_folder: String::new(),
            copy_to_clipboard: true,
            save_to_disk: true,
            default_mode: CaptureMode::FullScreen,
            naming_template: "grab-{date}-{time}-{mode}".to_string(),
            shortcuts: ShortcutConfig::default(),
            open_editor_after_capture: false,
            hide_editor_during_capture: false,
            show_notifications: true,
        }
    }
}

impl Clone for CapturePreferences {
    fn clone(&self) -> (copy: Self)
        ensures
            copy == *self,
    {
        CapturePreferences {
            output_folder: self.output_folder.clone(),
            copy_to_clipboard: self.copy_to_clipboard,
            save_to_disk: self.save_to_disk,
            default_mode: self.default_mode,
            naming_template: self.naming_template.clone(),
            shortcuts: self.shortcuts.clone(),
            open_editor_after_capture: self.open_editor_after_capture,
            hide_editor_during_capture: self.hide_editor_during_capture,
            show_notifications: self.show_notifications,
        }
    }
}

/// What `HistoryItem` holds, with texts as character sequences.
pub struct HistoryEntry {
    pub id: Seq<char>,
    pub file_path: Seq<char>,
    pub timestamp: Seq<char>,
    pub thumbnail: Option<Seq<char>>,
}

/// One remembered capture.
#[derive(Debug, PartialEq, Eq)]
pub struct HistoryItem {
    pub id: String,
    pub file_path: String,
    pub timestamp: String,
    pub thumbnail: Option<String>,
}

impl View for HistoryItem {
    type V = HistoryEntry;

    open spec fn view(&self) -> HistoryEntry {
        HistoryEntry {
            id: self.id@,
            file_path: self.file_path@,
            timestamp: self.timestamp@,
            thumbnail: self.thumbnail.deep_view(),
        }
    }
}

impl Clone for HistoryItem {
    fn clone(&self) -> (copy: Self)
        ensures
            copy == *self,
    {
        HistoryItem {
            id: self.id.clone(),
            file_path: self.file_path.clone(),
            timestamp: self.timestamp.clone(),
            thumbnail: clone_text(&self.thumbnail),
        }
    }
}

/// The kinds of failure that the user interface tells apart.
#[derive(Debug, Clone, Copy, PartialEq, Eq, Structural)]
pub enum CaptureErrorCode {
    PermissionDenied,
    SourceNotFound,
    CaptureFailed,
    ExportFailed,
    ClipboardFailed,
    InvalidRequest,
    Cancelled,
}

/// A failure as the user interface receives it.
#[derive(Debug, PartialEq, Eq)]
pub struct CaptureError {
    pub code: CaptureErrorCode,
    pub message: String,
    pub details: Option<String>,
}

impl Clone for CaptureError {
    fn clone(&self) -> (copy: Self)
        ensures
            copy == *self,
    {
        CaptureError {
            code: self.code,
            message: self.message.clone(),
            details: clone_text(&self.details),
        }
    }
}

} // verus!
