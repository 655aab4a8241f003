//! The entry points beside the window: what the tray menu offers, what each of
//! its entries sets off, and what a global shortcut sets off.

use crate::text::{chars_of, matches_at, starts_with, string_of};
use crate::types::{clone_text, CaptureSource, SourceView};
use vstd::prelude::*;

verus! {

/// The signals that the user interface listens for.
#[derive(Debug, Clone, Copy, PartialEq, Eq, Structural)]
pub enum UiSignal {
    HistoryRefresh,
    ShowCapture,
    ShowScreenPicker,
    ShowWindowPicker,
    StartRegionSelect,
    OpenSettings,
}

impl UiSignal {
    /// The name under which the signal is sent.
    pub open spec fn label(self) -> Seq<char> {
        match self {
            UiSignal::HistoryRefresh => "history:refresh"@,
            UiSignal::ShowCapture => "show-capture"@,
            UiSignal::ShowScreenPicker => "show-screen-picker"@,
            UiSignal::ShowWindowPicker => "show-window-picker"@,
            UiSignal::StartRegionSelect => "start-region-select"@,
            UiSignal::OpenSettings => "open-settings"@,
        }
    }

    /// The name under which the signal is sent.
    pub fn name(self) -> (name: &'static str)
        ensures
            name@ == self.label(),
    {
        match self {
            UiSignal::HistoryRefresh => "history:refresh",
            UiSignal::ShowCapture => "show-capture",
            UiSignal::ShowScreenPicker => "show-screen-picker",
            UiSignal::ShowWindowPicker => "show-window-picker",
            UiSignal::StartRegionSelect => "start-region-select",
            UiSignal::OpenSettings => "open-settings",
        }
    }
}

/// What `TrayAction` holds, with texts as character sequences.
pub enum TrayActionView {
    CaptureDisplay(Seq<char>),
    ShowScreenPicker,
    StartRegionSelect,
    ShowWindowPicker,
    OpenEditor,
    OpenSettings,
    Quit,
    Ignore,
}

/// What an entry of the tray menu sets off.
#[derive(Debug, PartialEq, Eq)]
pub enum TrayAction {
    /// Capture the display with this id, in the background.
    CaptureDisplay(String),
    /// Bring the main window to the front and let the user pick a screen.
    ShowScreenPicker,
    /// Let the user draw a region; the capture follows when that is done.
    StartRegionSelect,
    /// Bring the main window to the front and let the user pick a window.
    ShowWindowPicker,
    /// Bring the main window to the front.
    OpenEditor,
    /// Bring the main window to the front and open the settings.
    OpenSettings,
    /// End the application.
    Quit,
    /// Nothing: the entry is not one of the menu.
    Ignore,
}

impl View for TrayAction {
    type V = TrayActionView;

    open spec fn view(&self) -> TrayActionView {
        match self {
            TrayAction::CaptureDisplay(id) => TrayActionView::CaptureDisplay(id@),
            TrayAction::ShowScreenPicker => TrayActionView::ShowScreenPicker,
            TrayAction::StartRegionSelect => TrayActionView::StartRegionSelect,
            TrayAction::ShowWindowPicker => TrayActionView::ShowWindowPicker,
            TrayAction::OpenEditor => TrayActionView::OpenEditor,
            TrayAction::OpenSettings => TrayActionView::OpenSettings,
            TrayAction::Quit => TrayActionView::Quit,
            TrayAction::Ignore => TrayActionView::Ignore,
        }
    }
}

impl Clone for TrayAction {
    fn clone(&self) -> (copy: Self)
        ensures
            copy == *self,
    {
        match self {
            TrayAction::CaptureDisplay(id) => TrayAction::CaptureDisplay(id.clone()),
            TrayAction::ShowScreenPicker => TrayAction::ShowScreenPicker,
            TrayAction::StartRegionSelect => TrayAction::StartRegionSelect,
            TrayAction::ShowWindowPicker => TrayAction::ShowWindowPicker,
            TrayAction::OpenEditor => TrayAction::OpenEditor,
            TrayAction::OpenSettings => TrayAction::OpenSettings,
            TrayAction::Quit => TrayAction::Quit,
            TrayAction::Ignore => TrayAction::Ignore,
        }
    }
}

/// The beginning of the ids of the entries that capture one monitor.
pub open spec fn monitor_prefix() -> Seq<char> {
    "capture_monitor_"@
}

/// What the entry with the id `event_id` sets off.
pub open spec fn tray_action(event_id: Seq<char>) -> TrayActionView {
    if starts_with(event_id, monitor_prefix()) {
        TrayActionView::CaptureDisplay(event_id.skip(monitor_prefix().len() as int))
    } else if event_id == "capture_fullscreen"@ {
        TrayActionView::ShowScreenPicker
    } else if event_id == "capture_region"@ {
        TrayActionView::StartRegionSelect
    } else if event_id == "capture_window"@ {
        TrayActionView::ShowWindowPicker
    } else if event_id == "open_editor"@ {
        TrayActionView::OpenEditor
    } else if event_id == "settings"@ {
        TrayActionView::OpenSettings
    } else if event_id == "quit"@ {
        TrayActionView::Quit
    } else {
        TrayActionView::Ignore
    }
}

impl TrayActionView {
    /// `true` for the actions that bring the main window to the front.
    pub open spec fn raises_window(self) -> bool {
        self is ShowScreenPicker || self is ShowWindowPicker || self is OpenEditor
            || self is OpenSettings
    }

    /// The signal that the action sends to the user interface, if it sends one.
    pub open spec fn signal(self) -> Option<UiSignal> {
        match self {
            TrayActionView::ShowScreenPicker => Some(UiSignal::ShowScreenPicker),
            TrayActionView::StartRegionSelect => Some(UiSignal::StartRegionSelect),
            TrayActionView::ShowWindowPicker => Some(UiSignal::ShowWindowPicker),
            TrayActionView::OpenSettings => Some(UiSignal::OpenSettings),
            _ => None,
        }
    }
}

impl TrayAction {
    /// Tells whether the action brings the main window to the front.
    pub fn shows_main_window(&self) -> (raises: bool)
        ensures
            raises == self@.raises_window(),
    {
        match self {
            TrayAction::ShowScreenPicker => true,
            TrayAction::ShowWindowPicker => true,
            TrayAction::OpenEditor => true,
            TrayAction::OpenSettings => true,
            _ => false,
        }
    }

    /// The signal that the action sends to the user interface, if it sends one.
    pub fn signal(&self) -> (signal: Option<UiSignal>)
        ensures
            signal == self@.signal(),
    {
        match self {
            TrayAction::ShowScreenPicker => Some(UiSignal::ShowScreenPicker),
            TrayAction::StartRegionSelect => Some(UiSignal::StartRegionSelect),
            TrayAction::ShowWindowPicker => Some(UiSignal::ShowWindowPicker),
            TrayAction::OpenSettings => Some(UiSignal::OpenSettings),
            _ => None,
        }
    }
}

/// Tells what the entry of the tray menu with the id `event_id` sets off.
pub fn handle_tray_event(event_id: &str) -> (action: TrayAction)
    ensures
        action@ == tray_action(event_id@),
{
    let id = chars_of(event_id);
    let prefix = chars_of("capture_monitor_");
    if matches_at(&id, &prefix, 0) {
        let mut monitor: Vec<char> = Vec::new();
        let mut i: usize = prefix.len();
        while i < id.len()
            invariant
                prefix.len() <= i <= id.len(),
                monitor@ == id@.subrange(prefix.len() as int, i as int),
            decreases id.len() - i,
        {
            monitor.push(id[i]);
            i += 1;
        }
        assert(monitor@ == id@.skip(prefix.len() as int));
        TrayAction::CaptureDisplay(string_of(&monitor))
    } else if *event_id == *"capture_fullscreen" {
        TrayAction::ShowScreenPicker
    } else if *event_id == *"capture_region" {
        TrayAction::StartRegionSelect
    } else if *event_id == *"capture_window" {
        TrayAction::ShowWindowPicker
    } else if *event_id == *"open_editor" {
        TrayAction::OpenEditor
    } else if *event_id == *"settings" {
        TrayAction::OpenSettings
    } else if *event_id == *"quit" {
        TrayAction::Quit
    } else {
        TrayAction::Ignore
    }
}

/// What `MenuItem` holds, with texts as character sequences.
pub struct MenuItemView {
    pub id: Seq<char>,
    pub label: Seq<char>,
    pub accelerator: Option<Seq<char>>,
}

/// One entry of a menu that can be chosen.
#[derive(Debug, PartialEq, Eq)]
pub struct MenuItem {
    pub id: String,
    pub label: String,
    pub accelerator: Option<String>,
}

impl View for MenuItem {
    type V = MenuItemView;

    open spec fn view(&self) -> MenuItemView {
        MenuItemView {
            id: self.id@,
            label: self.label@,
            accelerator: self.accelerator.deep_view(),
        }
    }
}

impl Clone for MenuItem {
    fn clone(&self) -> (copy: Self)
        ensures
            copy == *self,
    {
        MenuItem {
            id: self.id.clone(),
            label: self.label.clone(),
            accelerator: clone_text(&self.accelerator),
        }
    }
}

/// The items that `items` stand for.
pub open spec fn items_of(items: Seq<MenuItem>) -> Seq<MenuItemView> {
    items.map_values(|item: MenuItem| item@)
}

/// What `MenuEntry` holds, with texts as character sequences.
pub enum MenuEntryView {
    Submenu(MenuItemView, Seq<MenuItemView>),
    Item(MenuItemView),
    Separator,
}

/// One line of the tray menu.
#[derive(Debug, PartialEq, Eq)]
pub enum MenuEntry {
    Submenu(MenuItem, Vec<MenuItem>),
    Item(MenuItem),
    Separator,
}

impl View for MenuEntry {
    type V = MenuEntryView;

    open spec fn view(&self) -> MenuEntryView {
        match self {
            MenuEntry::Submenu(head, items) => MenuEntryView::Submenu(head@, items_of(items@)),
            MenuEntry::Item(item) => MenuEntryView::Item(item@),
            MenuEntry::Separator => MenuEntryView::Separator,
        }
    }
}

impl Clone for MenuEntry {
    fn clone(&self) -> (copy: Self)
        ensures
            copy@ == self@,
    {
        match self {
            MenuEntry::Submenu(head, items) => {
                let mut copies: Vec<MenuItem> = Vec::new();
                let mut i: usize = 0;
                while i < items.len()
                    invariant
                        i <= items.len(),
                        copies@ == items@.take(i as int),
                    decreases items.len() - i,
                {
                    copies.push(items[i].clone());
                    i += 1;
                }
                assert(copies@ == items@);
                MenuEntry::Submenu(head.clone(), copies)
            },
            MenuEntry::Item(item) => MenuEntry::Item(item.clone()),
            MenuEntry::Separator => MenuEntry::Separator,
        }
    }
}

/// The entries that `entries` stand for.
pub open spec fn entries_of(entries: Seq<MenuEntry>) -> Seq<MenuEntryView> {
    entries.map_values(|entry: MenuEntry| entry@)
}

/// The entry that captures the monitor offered as `source`.
pub open spec fn monitor_item(source: SourceView) -> MenuItemView {
    MenuItemView { id: monitor_prefix() + source.id, label: source.name, accelerator: None }
}

/// An entry without a list below it.
pub open spec fn plain_item(id: Seq<char>, label: Seq<char>, accelerator: Option<Seq<char>>) -> MenuEntryView {
    MenuEntryView::Item(MenuItemView { id, label, accelerator })
}

/// The tray menu for the monitors offered as `sources`: the monitors under
/// one entry, then the captures of a region and of a window, the editor and
/// the settings, and the way out.
pub open spec fn tray_layout(sources: Seq<SourceView>) -> Seq<MenuEntryView> {
    seq![
        MenuEntryView::Submenu(
            MenuItemView {
                id: "capture_fullscreen"@,
                label: "Capture Full Screen"@,
                accelerator: None,
            },
            sources.map_values(|source: SourceView| monitor_item(source)),
        ),
        plain_item("capture_region"@, "Capture Region"@, Some("CommandOrControl+Shift+2"@)),
        plain_item("capture_window"@, "Capture Window"@, Some("CommandOrControl+Shift+3"@)),
        MenuEntryView::Separator,
        plain_item("open_editor"@, "Open Editor"@, None),
        plain_item("settings"@, "Settings..."@, None),
        MenuEntryView::Separator,
        plain_item("quit"@, "Quit Grab"@, Some("CommandOrControl+Q"@)),
    ]
}

/// The text that the tray icon shows under the pointer.
pub const TRAY_TOOLTIP: &'static str = "Grab - Screen Capture";

fn item(id: &str, label: &str, accelerator: Option<&str>) -> (entry: MenuEntry)
    ensures
        entry@ == plain_item(
            id@,
            label@,
            match accelerator {
                Some(keys) => Some(keys@),
                None => None,
            },
        ),
{
    MenuEntry::Item(
        MenuItem {
            id: id.to_string(),
            label: label.to_string(),
            accelerator: match accelerator {
                Some(keys) => Some(keys.to_string()),
                None => None,
            },
        },
    )
}

/// The tray menu for the monitors offered as `sources`.
pub fn setup_tray(sources: &Vec<CaptureSource>) -> (menu: Vec<MenuEntry>)
    ensures
        entries_of(menu@) == tray_layout(crate::capture::sources_of(sources@)),
{
    let ghost offered = crate::capture::sources_of(sources@);
    let mut monitors: Vec<MenuItem> = Vec::new();
    let mut i: usize = 0;
    while i < sources.len()
        invariant
            i <= sources.len(),
            offered == crate::capture::sources_of(sources@),
            items_of(monitors@) == offered.take(i as int).map_values(
                |source: SourceView| monitor_item(source),
            ),
        decreases sources.len() - i,
    {
        let ghost before = items_of(monitors@);
        let id = "capture_monitor_".to_string().concat(sources[i].id.as_str());
        monitors.push(MenuItem { id, label: sources[i].name.clone(), accelerator: None });
        assert(items_of(monitors@) == before.push(monitor_item(offered[i as int])));
        assert(offered.take(i + 1) == offered.take(i as int).push(offered[i as int]));
        i += 1;
    }
    assert(offered.take(i as int) == offered);
    let mut menu: Vec<MenuEntry> = Vec::new();
    menu.push(
        MenuEntry::Submenu(
            MenuItem {
                id: "capture_fullscreen".to_string(),
                label: "Capture Full Screen".to_string(),
                accelerator: None,
            },
            monitors,
        ),
    );
    menu.push(item("capture_region", "Capture Region", Some("CommandOrControl+Shift+2")));
    menu.push(item("capture_window", "Capture Window", Some("CommandOrControl+Shift+3")));
    menu.push(MenuEntry::Separator);
    menu.push(item("open_editor", "Open Editor", None));
    menu.push(item("settings", "Settings...", None));
    menu.push(MenuEntry::Separator);
    menu.push(item("quit", "Quit Grab", Some("CommandOrControl+Q")));
    menu
}

/// Choosing the entry of a monitor in the tray menu captures that monitor:
/// the entry made for a source sets off the capture of the display with the
/// id of the source.
pub proof fn lemma_monitor_entry_captures_its_display(source: SourceView)
    ensures
        tray_action(monitor_item(source).id) == TrayActionView::CaptureDisplay(source.id),
{
    let id = monitor_item(source).id;
    assert(id.subrange(0, monitor_prefix().len() as int) == monitor_prefix());
    assert(id.skip(monitor_prefix().len() as int) == source.id);
}

/// What a global shortcut sets off.
#[derive(Debug, Clone, Copy, PartialEq, Eq, Structural)]
pub enum ShortcutAction {
    /// Capture the full screen, in the background.
    CaptureFullScreen,
    /// Show the overlay on which the user draws a region; the capture follows
    /// when that is done.
    ShowRegionOverlay,
    /// Let the user pick a window.
    ShowWindowPicker,
}

/// What a key event sets off: nothing unless a key went down; else what the
/// first of the three shortcuts that the keys are sets off.
pub open spec fn shortcut_action(
    pressed: bool,
    is_full_screen: bool,
    is_region: bool,
    is_window: bool,
) -> Option<ShortcutAction> {
    if !pressed {
        None
    } else if is_full_screen {
        Some(ShortcutAction::CaptureFullScreen)
    } else if is_region {
        Some(ShortcutAction::ShowRegionOverlay)
    } else if is_window {
        Some(ShortcutAction::ShowWindowPicker)
    } else {
        None
    }
}

/// Tells what a key event sets off, from whether a key went down and which
/// of the three shortcuts the keys are.
pub fn on_shortcut(pressed: bool, is_full_screen: bool, is_region: bool, is_window: bool) -> (action:
    Option<ShortcutAction>)
    ensures
        action == shortcut_action(pressed, is_full_screen, is_region, is_window),
{
    if !pressed {
        None
    } else if is_full_screen {
        Some(ShortcutAction::CaptureFullScreen)
    } else if is_region {
        Some(ShortcutAction::ShowRegionOverlay)
    } else if is_window {
        Some(ShortcutAction::ShowWindowPicker)
    } else {
        None
    }
}

} // verus!
