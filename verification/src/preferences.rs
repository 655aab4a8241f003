//! The user's settings: one value per installation, replaced as a whole, and
//! the record in which it is stored.

use crate::types::{CaptureMode, CapturePreferences, PreferencesView, ShortcutConfig, ShortcutView};
use vstd::prelude::*;

verus! {

/// The name of the file that holds the settings.
pub const PREFERENCES_FILE: &'static str = "preferences.json";

/// The name of the folder that captures go to unless the user chooses another.
pub const CAPTURES_FOLDER: &'static str = "Grab Captures";

/// The settings of a fresh installation whose captures go to `folder`.
pub open spec fn initial_in(folder: Seq<char>) -> PreferencesView {
    PreferencesView { output_folder: folder, ..CapturePreferences::initial() }
}

/// What `StoredPreferences` holds, with texts as character sequences.
pub struct StoredView {
    pub output_folder: Seq<char>,
    pub copy_to_clipboard: bool,
    pub save_to_disk: bool,
    pub default_mode: CaptureMode,
    pub naming_template: Seq<char>,
    pub shortcuts: ShortcutView,
    pub open_editor_after_capture: Option<bool>,
    pub hide_editor_during_capture: Option<bool>,
    pub show_notifications: Option<bool>,
}

/// The record that `preferences` are stored as: every field is written.
pub open spec fn stored_form(preferences: PreferencesView) -> StoredView {
    StoredView {
        output_folder: preferences.output_folder,
        copy_to_clipboard: preferences.copy_to_clipboard,
        save_to_disk: preferences.save_to_disk,
        default_mode: preferences.default_mode,
        naming_template: preferences.naming_template,
        shortcuts: preferences.shortcuts,
        open_editor_after_capture: Some(preferences.open_editor_after_capture),
        hide_editor_during_capture: Some(preferences.hide_editor_during_capture),
        show_notifications: Some(preferences.show_notifications),
    }
}

/// The settings that a stored record stands for. A switch that the record
/// lacks is off, but for the notifications, which are on.
pub open spec fn restored(stored: StoredView) -> PreferencesView {
    PreferencesView {
        output_folder: stored.output_folder,
        copy_to_clipboard: stored.copy_to_clipboard,
        save_to_disk: stored.save_to_disk,
        default_mode: stored.default_mode,
        naming_template: stored.naming_template,
        shortcuts: stored.shortcuts,
        open_editor_after_capture: match stored.open_editor_after_capture {
            Some(on) => on,
            None => false,
        },
        hide_editor_during_capture: match stored.hide_editor_during_capture {
            Some(on) => on,
            None => false,
        },
        show_notifications: match stored.show_notifications {
            Some(on) => on,
            None => true,
        },
    }
}

/// The settings as their file holds them. The three switches at the end came
/// later than the others: a file written before them lacks them.
#[derive(Debug, PartialEq, Eq)]
pub struct StoredPreferences {
    pub output_folder: String,
    pub copy_to_clipboard: bool,
    pub save_to_disk: bool,
    pub default_mode: CaptureMode,
    pub naming_template: String,
    pub shortcuts: ShortcutConfig,
    pub open_editor_after_capture: Option<bool>,
    pub hide_editor_during_capture: Option<bool>,
    pub show_notifications: Option<bool>,
}

impl View for StoredPreferences {
    type V = StoredView;

    open spec fn view(&self) -> StoredView {
        StoredView {
            output_folder: self.output_folder@,
            copy_to_clipboard: self.copy_to_clipboard,
            save_to_disk: self.save_to_disk,
            default_mode: self.default_mode,
            naming_template: self.naming_template@,
            shortcuts: self.shortcuts@,
            open_editor_after_capture: self.open_editor_after_capture,
            hide_editor_during_capture: self.hide_editor_during_capture,
            show_notifications: self.show_notifications,
        }
    }
}

impl StoredPreferences {
    /// The record that `preferences` are stored as.
    pub fn from_preferences(preferences: &CapturePreferences) -> (stored: Self)
        ensures
            stored@ == stored_form(preferences@),
    {
        StoredPreferences {
            output_folder: preferences.output_folder.clone(),
            copy_to_clipboard: preferences.copy_to_clipboard,
            save_to_disk: preferences.save_to_disk,
            default_mode: preferences.default_mode,
            naming_template: preferences.naming_template.clone(),
            shortcuts: preferences.shortcuts.clone(),
            open_editor_after_capture: Some(preferences.open_editor_after_capture),
            hide_editor_during_capture: Some(preferences.hide_editor_during_capture),
            show_notifications: Some(preferences.show_notifications),
        }
    }

    /// The settings that the record stands for.
    pub fn into_preferences(self) -> (preferences: CapturePreferences)
        ensures
            preferences@ == restored(self@),
    {
        CapturePreferences {
            output_folder: self.output_folder,
            copy_to_clipboard: self.copy_to_clipboard,
            save_to_disk: self.save_to_disk,
            default_mode: self.default_mode,
            naming_template: self.naming_template,
            shortcuts: self.shortcuts,
            open_editor_after_capture: match self.open_editor_after_capture {
                Some(on) => on,
                None => false,
            },
            hide_editor_during_capture: match self.hide_editor_during_capture {
                Some(on) => on,
                None => false,
            },
            show_notifications: match self.show_notifications {
                Some(on) => on,
                None => crate::types::default_true(),
            },
        }
    }
}

/// Settings that are stored and read back are the settings that were stored,
/// field for field.
pub proof fn lemma_stored_preferences_round_trip(preferences: PreferencesView)
    ensures
        restored(stored_form(preferences)) == preferences,
{
}

/// A record without the later switches stands for settings in which the
/// editor is neither opened after a capture nor hidden during one, and
/// notifications are shown; the fields that it has are kept.
pub proof fn lemma_missing_switches_default(stored: StoredView)
    requires
        stored.open_editor_after_capture is None,
        stored.hide_editor_during_capture is None,
        stored.show_notifications is None,
    ensures
        !restored(stored).open_editor_after_capture,
        !restored(stored).hide_editor_during_capture,
        restored(stored).show_notifications,
        restored(stored).output_folder == stored.output_folder,
        restored(stored).copy_to_clipboard == stored.copy_to_clipboard,
        restored(stored).save_to_disk == stored.save_to_disk,
        restored(stored).default_mode == stored.default_mode,
        restored(stored).naming_template == stored.naming_template,
        restored(stored).shortcuts == stored.shortcuts,
{
}

/// What a `PreferencesStore` holds: the settings, and whether their file is
/// to be rewritten.
pub struct PreferencesStoreView {
    pub preferences: PreferencesView,
    pub save_due: bool,
}

/// The settings of one installation. Every operation that changes them says,
/// by `save_due`, that the settings file is to be rewritten.
pub struct PreferencesStore {
    preferences: CapturePreferences,
    save_due: bool,
}

impl View for PreferencesStore {
    type V = PreferencesStoreView;

    closed spec fn view(&self) -> PreferencesStoreView {
        PreferencesStoreView { preferences: self.preferences@, save_due: self.save_due }
    }
}

/// `dirs::picture_dir`, as text: the user's folder of pictures, where the
/// platform and its configuration name one.
#[verifier::external_body]
fn picture_dir() -> (folder: Option<String>) {
    dirs::picture_dir().map(|folder| folder.to_string_lossy().into_owned())
}

/// `dirs::home_dir`, as text: the user's home folder, where the platform and
/// its configuration name one.
#[verifier::external_body]
fn home_dir() -> (folder: Option<String>) {
    dirs::home_dir().map(|folder| folder.to_string_lossy().into_owned())
}

/// The path that `std::path::Path::join` makes of `base` and `child` on the
/// platform that the library is built for.
pub uninterp spec fn joined_path(base: Seq<char>, child: Seq<char>) -> Seq<char>;

/// `std::path::Path::join`, as text. What it gives is a function of the two
/// paths: it reads neither the disk nor the environment.
#[verifier::external_body]
pub(crate) fn join_path(base: &str, child: &str) -> (joined: String)
    ensures
        joined@ == joined_path(base@, child@),
{
    std::path::Path::new(base).join(child).to_string_lossy().into_owned()
}

/// The default folder for captures where the platform names `pictures` as the
/// user's folder of pictures and `home` as the user's home: a folder of its
/// own among the pictures, else in the home, else relative to the working
/// directory.
pub open spec fn default_folder(pictures: Option<Seq<char>>, home: Option<Seq<char>>) -> Seq<char> {
    match pictures {
        Some(place) => joined_path(place, CAPTURES_FOLDER@),
        None => match home {
            Some(place) => joined_path(place, CAPTURES_FOLDER@),
            None => "./captures"@,
        },
    }
}

/// The default folder for captures where the platform names `pictures` as the
/// user's folder of pictures and `home` as the user's home.
pub fn default_folder_in(pictures: Option<String>, home: Option<String>) -> (folder: String)
    ensures
        folder@ == default_folder(pictures.deep_view(), home.deep_view()),
{
    match pictures {
        Some(place) => join_path(place.as_str(), CAPTURES_FOLDER),
        None => match home {
            Some(place) => join_path(place.as_str(), CAPTURES_FOLDER),
            None => "./captures".to_string(),
        },
    }
}

/// The default folder for captures: a folder of its own among the user's
/// pictures, else in the user's home, else relative to the working directory.
pub fn get_default_output_folder() -> (folder: String)
    ensures
        exists|pictures: Option<Seq<char>>, home: Option<Seq<char>>|
            folder@ == #[trigger] default_folder(pictures, home),
{
    match picture_dir() {
        Some(pictures) => default_folder_in(Some(pictures), None),
        None => default_folder_in(None, home_dir()),
    }
}

impl PreferencesStore {
    /// The settings that were read from their file, or, where there was no
    /// file or the file could not be understood, those of a fresh installation
    /// whose captures go to `default_folder`. Either way the settings file is
    /// to be written.
    pub fn with_default_folder(loaded: Option<CapturePreferences>, default_folder: String) -> (store:
        Self)
        ensures
            store@.preferences == match loaded {
                Some(preferences) => preferences@,
                None => initial_in(default_folder@),
            },
            store@.save_due,
    {
        let preferences = match loaded {
            Some(preferences) => preferences,
            None => {
                let mut preferences = CapturePreferences::default();
                preferences.output_folder = default_folder;
                preferences
            },
        };
        PreferencesStore { preferences, save_due: true }
    }

    /// The settings that were read from their file, or, where there was no
    /// file or the file could not be understood, those of a fresh installation
    /// whose captures go to the default folder of the platform.
    pub fn new(loaded: Option<CapturePreferences>) -> (store: Self)
        ensures
            match loaded {
                Some(preferences) => store@.preferences == preferences@,
                None => exists|pictures: Option<Seq<char>>, home: Option<Seq<char>>|
                    store@.preferences == initial_in(#[trigger] default_folder(pictures, home)),
            },
            store@.save_due,
    {
        match loaded {
            Some(preferences) => PreferencesStore { preferences, save_due: true },
            None => PreferencesStore::with_default_folder(None, get_default_output_folder()),
        }
    }

    /// Tells whether the last operation asks for the settings file to be rewritten.
    pub fn save_due(&self) -> (due: bool)
        ensures
            due == self@.save_due,
    {
        self.save_due
    }

    /// A copy of the settings.
    pub fn get(&self) -> (preferences: CapturePreferences)
        ensures
            preferences@ == self@.preferences,
    {
        self.preferences.clone()
    }

    /// Replaces the settings as a whole; the settings file is to be rewritten.
    pub fn set(&mut self, preferences: CapturePreferences)
        ensures
            final(self)@.preferences == preferences@,
            final(self)@.save_due,
    {
        self.preferences = preferences;
        self.save_due = true;
    }

    /// The folder that captures go to: the one that the settings name, or
    /// `default_folder` where they name none.
    pub fn output_folder_or(&self, default_folder: String) -> (folder: String)
        ensures
            folder@ == if self@.preferences.output_folder.len() == 0 {
                default_folder@
            } else {
                self@.preferences.output_folder
            },
    {
        if self.preferences.output_folder.as_str().is_empty() {
            default_folder
        } else {
            self.preferences.output_folder.clone()
        }
    }

    /// The folder that captures go to: the one that the settings name, or the
    /// default folder of the platform where they name none.
    pub fn get_output_folder(&self) -> (folder: String)
        ensures
            self@.preferences.output_folder.len() > 0 ==> folder@ == self@.preferences.output_folder,
            self@.preferences.output_folder.len() == 0 ==> exists|
                pictures: Option<Seq<char>>,
                home: Option<Seq<char>>,
            | folder@ == #[trigger] default_folder(pictures, home),
    {
        if self.preferences.output_folder.as_str().is_empty() {
            get_default_output_folder()
        } else {
            self.preferences.output_folder.clone()
        }
    }
}

} // verus!
