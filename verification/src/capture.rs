//! Capture sources, the arithmetic of regions, and the names of capture files.

use crate::clock::{date_pattern, formatted_instant, now, rfc3339_instant, time_pattern, Instant};
use crate::error::{ErrorView, GrabError};
use crate::sequences::lemma_filter_next;
use crate::text::{
    append_chars, chars_of, contains, decimal, decimal_nat, decimal_of, is_stamp_char, is_stamp_text,
    lemma_decimal_is_stamp_text, lemma_foreign_character, lemma_replace_all_leaves_none,
    lemma_replace_all_makes_none, lemma_replace_all_without_occurrence, occurs_at, replace,
    replace_all, signed_decimal_of, string_of,
};
use crate::types::{
    clone_text, CaptureMetadata, CaptureMode, CaptureSource, MetadataView, RegionBounds,
    SourceView, UNIT_SCALE_BITS,
};
use vstd::prelude::*;

verus! {

/// What the capture backend tells of one monitor. A field is `None` where the
/// backend could not tell.
#[derive(Debug, Clone, Copy, PartialEq, Eq, Structural)]
pub struct MonitorInfo {
    pub id: Option<u32>,
    pub x: Option<i32>,
    pub y: Option<i32>,
    pub width: Option<u32>,
    pub height: Option<u32>,
    pub is_primary: Option<bool>,
    pub scale_factor_bits: Option<u64>,
}

/// What `WindowInfo` holds, with texts as character sequences.
pub struct WindowView {
    pub id: Option<u32>,
    pub title: Option<Seq<char>>,
    pub x: Option<i32>,
    pub y: Option<i32>,
    pub width: Option<u32>,
    pub height: Option<u32>,
}

/// What the capture backend tells of one window. A field is `None` where the
/// backend could not tell.
#[derive(Debug, PartialEq, Eq)]
pub struct WindowInfo {
    pub id: Option<u32>,
    pub title: Option<String>,
    pub x: Option<i32>,
    pub y: Option<i32>,
    pub width: Option<u32>,
    pub height: Option<u32>,
}

impl View for WindowInfo {
    type V = WindowView;

    open spec fn view(&self) -> WindowView {
        WindowView {
            id: self.id,
            title: self.title.deep_view(),
            x: self.x,
            y: self.y,
            width: self.width,
            height: self.height,
        }
    }
}

impl Clone for WindowInfo {
    fn clone(&self) -> (copy: Self)
        ensures
            copy == *self,
    {
        WindowInfo {
            id: self.id,
            title: clone_text(&self.title),
            x: self.x,
            y: self.y,
            width: self.width,
            height: self.height,
        }
    }
}

/// The windows that `windows` stand for.
pub open spec fn windows_of(windows: Seq<WindowInfo>) -> Seq<WindowView> {
    windows.map_values(|window: WindowInfo| window@)
}

/// The sources that `sources` stand for.
pub open spec fn sources_of(sources: Seq<CaptureSource>) -> Seq<SourceView> {
    sources.map_values(|source: CaptureSource| source@)
}

/// The text by which a source is asked for: its number, or nothing where the
/// backend could not tell it.
pub open spec fn id_text(id: Option<u32>) -> Seq<char> {
    match id {
        Some(number) => decimal_nat(number as nat),
        None => Seq::empty(),
    }
}

/// The number behind `value`, or zero.
pub open spec fn or_zero(value: Option<u32>) -> u32 {
    match value {
        Some(number) => number,
        None => 0,
    }
}

/// The coordinate behind `value`, or zero.
pub open spec fn coordinate_or_zero(value: Option<i32>) -> i32 {
    match value {
        Some(number) => number,
        None => 0,
    }
}

impl MonitorInfo {
    /// `true` for the monitor that the backend calls the primary one.
    pub open spec fn primary(self) -> bool {
        self.is_primary == Some(true)
    }

    /// The name under which the monitor at position `index` is offered.
    pub open spec fn display_name(self, index: nat) -> Seq<char> {
        "Display "@ + decimal_nat(index + 1) + ": "@ + decimal_nat(or_zero(self.width) as nat) + "x"@
            + decimal_nat(or_zero(self.height) as nat) + if self.primary() {
            " (Primary)"@
        } else {
            Seq::empty()
        }
    }

    /// The source that offers the monitor at position `index`.
    pub open spec fn source(self, index: nat) -> SourceView {
        SourceView {
            id: id_text(self.id),
            name: self.display_name(index),
            thumbnail: None,
            display_id: Some(id_text(self.id)),
            app_icon: None,
        }
    }

    /// The area that the monitor covers.
    pub open spec fn bounds(self) -> RegionBounds {
        RegionBounds {
            x: coordinate_or_zero(self.x),
            y: coordinate_or_zero(self.y),
            width: or_zero(self.width),
            height: or_zero(self.height),
        }
    }

    /// What is recorded with a capture of the whole monitor taken at `at`,
    /// asked for as `mode` says.
    pub open spec fn metadata(self, mode: CaptureMode, at: Instant) -> MetadataView {
        MetadataView {
            mode,
            display_id: match self.id {
                Some(number) => Some(decimal_nat(number as nat)),
                None => None,
            },
            window_id: None,
            bounds: self.bounds(),
            timestamp: rfc3339_instant(at.secs, at.nanos),
            scale_factor_bits: match self.scale_factor_bits {
                Some(bits) => bits,
                None => UNIT_SCALE_BITS,
            },
            file_name: None,
        }
    }
}

impl WindowView {
    /// `true` for a window that is worth offering: it has an extent and a title.
    pub open spec fn capturable(self) -> bool {
        &&& or_zero(self.width) > 0
        &&& or_zero(self.height) > 0
        &&& self.title matches Some(title) && title.len() > 0
    }

    /// The title of the window, or nothing where the backend could not tell it.
    pub open spec fn title_text(self) -> Seq<char> {
        match self.title {
            Some(title) => title,
            None => Seq::empty(),
        }
    }

    /// The source that offers the window.
    pub open spec fn source(self) -> SourceView {
        SourceView {
            id: id_text(self.id),
            name: self.title_text(),
            thumbnail: None,
            display_id: None,
            app_icon: None,
        }
    }

    /// What is recorded with a capture of the window taken at `at`. A window
    /// has no scale factor of its own: the factor recorded is one.
    pub open spec fn metadata(self, at: Instant) -> MetadataView {
        MetadataView {
            mode: CaptureMode::Window,
            display_id: None,
            window_id: match self.id {
                Some(number) => Some(decimal_nat(number as nat)),
                None => None,
            },
            bounds: RegionBounds {
                x: coordinate_or_zero(self.x),
                y: coordinate_or_zero(self.y),
                width: or_zero(self.width),
                height: or_zero(self.height),
            },
            timestamp: rfc3339_instant(at.secs, at.nanos),
            scale_factor_bits: UNIT_SCALE_BITS,
            file_name: None,
        }
    }
}

fn number_text(value: u32) -> (text: String)
    ensures
        text@ == decimal_nat(value as nat),
{
    string_of(&decimal_of(value as u64))
}

fn id_string(id: Option<u32>) -> (text: String)
    ensures
        text@ == id_text(id),
{
    match id {
        Some(number) => number_text(number),
        None => String::new(),
    }
}

fn unwrap_or_zero(value: Option<u32>) -> (number: u32)
    ensures
        number == or_zero(value),
{
    match value {
        Some(number) => number,
        None => 0,
    }
}

fn unwrap_coordinate(value: Option<i32>) -> (number: i32)
    ensures
        number == coordinate_or_zero(value),
{
    match value {
        Some(number) => number,
        None => 0,
    }
}

/// `true` when `index` is the place of the monitor that a capture of the full
/// screen takes: the first primary one, else the first one.
pub open spec fn is_full_screen_choice(monitors: Seq<MonitorInfo>, index: int) -> bool {
    &&& 0 <= index < monitors.len()
    &&& monitors[index].primary() || (index == 0 && forall|j: int|
        0 <= j < monitors.len() ==> !(#[trigger] monitors[j]).primary())
    &&& forall|j: int| 0 <= j < index ==> !(#[trigger] monitors[j]).primary()
}

/// `true` when `index` is the place of the first monitor asked for by `display_id`.
pub open spec fn is_display_choice(monitors: Seq<MonitorInfo>, display_id: Seq<char>, index: int) -> bool {
    &&& 0 <= index < monitors.len()
    &&& id_text(monitors[index].id) == display_id
    &&& forall|j: int| 0 <= j < index ==> id_text((#[trigger] monitors[j]).id) != display_id
}

/// `true` when no monitor is asked for by `display_id`.
pub open spec fn no_display(monitors: Seq<MonitorInfo>, display_id: Seq<char>) -> bool {
    forall|j: int| 0 <= j < monitors.len() ==> id_text((#[trigger] monitors[j]).id) != display_id
}

/// `true` when `index` is the place of the first window asked for by `window_id`.
pub open spec fn is_window_choice(windows: Seq<WindowInfo>, window_id: Seq<char>, index: int) -> bool {
    &&& 0 <= index < windows.len()
    &&& id_text(windows[index].id) == window_id
    &&& forall|j: int| 0 <= j < index ==> id_text((#[trigger] windows[j]).id) != window_id
}

/// `true` when no window is asked for by `window_id`.
pub open spec fn no_window(windows: Seq<WindowInfo>, window_id: Seq<char>) -> bool {
    forall|j: int| 0 <= j < windows.len() ==> id_text((#[trigger] windows[j]).id) != window_id
}

/// The place of the monitor that a capture of the full screen takes: the
/// first primary one, else the first one; `None` where there is no monitor.
pub fn primary_monitor(monitors: &Vec<MonitorInfo>) -> (choice: Option<usize>)
    ensures
        match choice {
            Some(index) => is_full_screen_choice(monitors@, index as int),
            None => monitors.len() == 0,
        },
{
    let mut i: usize = 0;
    while i < monitors.len()
        invariant
            i <= monitors.len(),
            forall|j: int| 0 <= j < i ==> !(#[trigger] monitors[j]).primary(),
        decreases monitors.len() - i,
    {
        match monitors[i].is_primary {
            Some(true) => {
                return Some(i);
            },
            _ => {},
        }
        i += 1;
    }
    if monitors.len() > 0 {
        Some(0)
    } else {
        None
    }
}

/// The place of the first monitor that is asked for by `display_id`.
pub fn find_display(monitors: &Vec<MonitorInfo>, display_id: &str) -> (choice: Option<usize>)
    ensures
        match choice {
            Some(index) => is_display_choice(monitors@, display_id@, index as int),
            None => no_display(monitors@, display_id@),
        },
{
    let mut i: usize = 0;
    while i < monitors.len()
        invariant
            i <= monitors.len(),
            forall|j: int| 0 <= j < i ==> id_text((#[trigger] monitors[j]).id) != display_id@,
        decreases monitors.len() - i,
    {
        let id = id_string(monitors[i].id);
        if *id.as_str() == *display_id {
            return Some(i);
        }
        i += 1;
    }
    None
}

/// The place of the first window that is asked for by `window_id`.
pub fn find_window(windows: &Vec<WindowInfo>, window_id: &str) -> (choice: Option<usize>)
    ensures
        match choice {
            Some(index) => is_window_choice(windows@, window_id@, index as int),
            None => no_window(windows@, window_id@),
        },
{
    let mut i: usize = 0;
    while i < windows.len()
        invariant
            i <= windows.len(),
            forall|j: int| 0 <= j < i ==> id_text((#[trigger] windows[j]).id) != window_id@,
        decreases windows.len() - i,
    {
        let id = id_string(windows[i].id);
        if *id.as_str() == *window_id {
            return Some(i);
        }
        i += 1;
    }
    None
}

/// What is recorded with a capture of the whole of `monitor` taken at `at`,
/// asked for as `mode` says.
pub fn capture_monitor(monitor: &MonitorInfo, mode: CaptureMode, at: Instant) -> (metadata:
    CaptureMetadata)
    requires
        at.representable(),
    ensures
        metadata@ == monitor.metadata(mode, at),
{
    CaptureMetadata {
        mode,
        display_id: match monitor.id {
            Some(number) => Some(number_text(number)),
            None => None,
        },
        window_id: None,
        bounds: RegionBounds {
            x: unwrap_coordinate(monitor.x),
            y: unwrap_coordinate(monitor.y),
            width: unwrap_or_zero(monitor.width),
            height: unwrap_or_zero(monitor.height),
        },
        timestamp: at.rfc3339_text(),
        scale_factor_bits: match monitor.scale_factor_bits {
            Some(bits) => bits,
            None => UNIT_SCALE_BITS,
        },
        file_name: None,
    }
}

/// What is recorded with a capture of `window` taken at `at`.
pub fn window_metadata_at(window: &WindowInfo, at: Instant) -> (metadata: CaptureMetadata)
    requires
        at.representable(),
    ensures
        metadata@ == window@.metadata(at),
{
    CaptureMetadata {
        mode: CaptureMode::Window,
        display_id: None,
        window_id: match window.id {
            Some(number) => Some(number_text(number)),
            None => None,
        },
        bounds: RegionBounds {
            x: unwrap_coordinate(window.x),
            y: unwrap_coordinate(window.y),
            width: unwrap_or_zero(window.width),
            height: unwrap_or_zero(window.height),
        },
        timestamp: at.rfc3339_text(),
        scale_factor_bits: UNIT_SCALE_BITS,
        file_name: None,
    }
}

/// A capture of the full screen at `at`: the place of the monitor to take, the
/// first primary one, else the first one, and what is recorded with the
/// capture. Where there is no monitor, no source is found.
pub fn capture_full_screen_at(monitors: &Vec<MonitorInfo>, at: Instant) -> (capture: Result<
    (usize, CaptureMetadata),
    GrabError,
>)
    requires
        at.representable(),
    ensures
        match capture {
            Ok((index, metadata)) => {
                &&& is_full_screen_choice(monitors@, index as int)
                &&& metadata@ == monitors[index as int].metadata(CaptureMode::FullScreen, at)
            },
            Err(error) => monitors.len() == 0 && error@ == ErrorView::SourceNotFound(
                "No monitors found"@,
            ),
        },
{
    match primary_monitor(monitors) {
        Some(index) => Ok((index, capture_monitor(&monitors[index], CaptureMode::FullScreen, at))),
        None => Err(GrabError::SourceNotFound("No monitors found".to_string())),
    }
}

/// A capture of the full screen taken now.
pub fn capture_full_screen(monitors: &Vec<MonitorInfo>) -> (capture: Result<
    (usize, CaptureMetadata),
    GrabError,
>)
    ensures
        match capture {
            Ok((index, metadata)) => {
                &&& is_full_screen_choice(monitors@, index as int)
                &&& exists|at: Instant| #[trigger]
                    at.representable() && metadata@ == monitors[index as int].metadata(
                        CaptureMode::FullScreen,
                        at,
                    )
            },
            Err(error) => monitors.len() == 0 && error@ == ErrorView::SourceNotFound(
                "No monitors found"@,
            ),
        },
{
    capture_full_screen_at(monitors, now())
}

/// A capture at `at` of the display asked for by `display_id`: the place of
/// the first such monitor, and what is recorded with the capture. Where
/// there is no such monitor, no source is found.
pub fn capture_display_at(monitors: &Vec<MonitorInfo>, display_id: &str, at: Instant) -> (capture:
    Result<(usize, CaptureMetadata), GrabError>)
    requires
        at.representable(),
    ensures
        match capture {
            Ok((index, metadata)) => {
                &&& is_display_choice(monitors@, display_id@, index as int)
                &&& metadata@ == monitors[index as int].metadata(CaptureMode::Display, at)
            },
            Err(error) => {
                &&& no_display(monitors@, display_id@)
                &&& error@ == ErrorView::SourceNotFound("Display "@ + display_id@ + " not found"@)
            },
        },
{
    match find_display(monitors, display_id) {
        Some(index) => Ok((index, capture_monitor(&monitors[index], CaptureMode::Display, at))),
        None => {
            let message = "Display ".to_string().concat(display_id).concat(" not found");
            Err(GrabError::SourceNotFound(message))
        },
    }
}

/// A capture taken now of the display asked for by `display_id`.
pub fn capture_display(monitors: &Vec<MonitorInfo>, display_id: &str) -> (capture: Result<
    (usize, CaptureMetadata),
    GrabError,
>)
    ensures
        match capture {
            Ok((index, metadata)) => {
                &&& is_display_choice(monitors@, display_id@, index as int)
                &&& exists|at: Instant| #[trigger]
                    at.representable() && metadata@ == monitors[index as int].metadata(
                        CaptureMode::Display,
                        at,
                    )
            },
            Err(error) => {
                &&& no_display(monitors@, display_id@)
                &&& error@ == ErrorView::SourceNotFound("Display "@ + display_id@ + " not found"@)
            },
        },
{
    capture_display_at(monitors, display_id, now())
}

/// A capture at `at` of the window asked for by `window_id`: the place of the
/// first such window, and what is recorded with the capture. Where there is
/// no such window, no source is found.
pub fn capture_window_at(windows: &Vec<WindowInfo>, window_id: &str, at: Instant) -> (capture:
    Result<(usize, CaptureMetadata), GrabError>)
    requires
        at.representable(),
    ensures
        match capture {
            Ok((index, metadata)) => {
                &&& is_window_choice(windows@, window_id@, index as int)
                &&& metadata@ == windows[index as int]@.metadata(at)
            },
            Err(error) => {
                &&& no_window(windows@, window_id@)
                &&& error@ == ErrorView::SourceNotFound("Window "@ + window_id@ + " not found"@)
            },
        },
{
    match find_window(windows, window_id) {
        Some(index) => Ok((index, window_metadata_at(&windows[index], at))),
        None => {
            let message = "Window ".to_string().concat(window_id).concat(" not found");
            Err(GrabError::SourceNotFound(message))
        },
    }
}

/// A capture taken now of the window asked for by `window_id`.
pub fn capture_window(windows: &Vec<WindowInfo>, window_id: &str) -> (capture: Result<
    (usize, CaptureMetadata),
    GrabError,
>)
    ensures
        match capture {
            Ok((index, metadata)) => {
                &&& is_window_choice(windows@, window_id@, index as int)
                &&& exists|at: Instant| #[trigger]
                    at.representable() && metadata@ == windows[index as int]@.metadata(at)
            },
            Err(error) => {
                &&& no_window(windows@, window_id@)
                &&& error@ == ErrorView::SourceNotFound("Window "@ + window_id@ + " not found"@)
            },
        },
{
    capture_window_at(windows, window_id, now())
}

/// The monitors as capture sources, in their order, each under a name that
/// tells its place in the list, its extent and whether it is the primary one.
pub fn get_screen_sources(monitors: &Vec<MonitorInfo>) -> (sources: Vec<CaptureSource>)
    ensures
        sources.len() == monitors.len(),
        forall|i: int| 0 <= i < monitors.len() ==> (#[trigger] sources[i])@ == monitors[i].source(i as nat),
{
    let mut sources: Vec<CaptureSource> = Vec::new();
    let mut i: usize = 0;
    while i < monitors.len()
        invariant
            i <= monitors.len(),
            sources.len() == i,
            forall|j: int| 0 <= j < i ==> (#[trigger] sources[j])@ == monitors[j].source(j as nat),
        decreases monitors.len() - i,
    {
        let monitor = &monitors[i];
        let mut name = chars_of("Display ");
        append_chars(&mut name, &decimal_of(i as u64 + 1));
        append_chars(&mut name, &chars_of(": "));
        append_chars(&mut name, &decimal_of(unwrap_or_zero(monitor.width) as u64));
        append_chars(&mut name, &chars_of("x"));
        append_chars(&mut name, &decimal_of(unwrap_or_zero(monitor.height) as u64));
        match monitor.is_primary {
            Some(true) => {
                append_chars(&mut name, &chars_of(" (Primary)"));
            },
            _ => {
                assert(name@ + Seq::<char>::empty() == name@);
            },
        }
        sources.push(
            CaptureSource {
                id: id_string(monitor.id),
                name: string_of(&name),
                thumbnail: None,
                display_id: Some(id_string(monitor.id)),
                app_icon: None,
            },
        );
        i += 1;
    }
    sources
}

/// The windows that are worth offering as capture sources, in their order:
/// those with an extent and a title.
pub fn get_window_sources(windows: &Vec<WindowInfo>) -> (sources: Vec<CaptureSource>)
    ensures
        sources_of(sources@) == windows_of(windows@).filter(
            |window: WindowView| window.capturable(),
        ).map_values(|window: WindowView| window.source()),
{
    let ghost keep = |window: WindowView| window.capturable();
    let ghost offer = |window: WindowView| window.source();
    let ghost views = windows_of(windows@);
    let mut sources: Vec<CaptureSource> = Vec::new();
    let mut i: usize = 0;
    while i < windows.len()
        invariant
            i <= windows.len(),
            views == windows_of(windows@),
            keep == |window: WindowView| window.capturable(),
            offer == |window: WindowView| window.source(),
            sources_of(sources@) == views.take(i as int).filter(keep).map_values(offer),
        decreases windows.len() - i,
    {
        proof {
            lemma_filter_next(views, keep, i as int);
        }
        let window = &windows[i];
        let titled = match &window.title {
            Some(title) => !title.as_str().is_empty(),
            None => false,
        };
        if unwrap_or_zero(window.width) > 0 && unwrap_or_zero(window.height) > 0 && titled {
            let name = match &window.title {
                Some(title) => title.clone(),
                None => String::new(),
            };
            let ghost before = sources_of(sources@);
            sources.push(
                CaptureSource {
                    id: id_string(window.id),
                    name,
                    thumbnail: None,
                    display_id: None,
                    app_icon: None,
                },
            );
            assert(sources_of(sources@) == before.push(views[i as int].source()));
            assert(views.take(i as int).filter(keep).push(views[i as int]).map_values(offer)
                == views.take(i as int).filter(keep).map_values(offer).push(offer(views[i as int])));
        }
        i += 1;
    }
    assert(views.take(i as int) == views);
    sources
}

/// `template` with `{date}`, `{time}`, `{mode}` and `{timestamp}` replaced, in
/// this order, by the four texts given. Every other character stays as it is.
pub open spec fn expand_template(
    template: Seq<char>,
    date: Seq<char>,
    time: Seq<char>,
    mode: Seq<char>,
    timestamp: Seq<char>,
) -> Seq<char> {
    replace_all(
        replace_all(
            replace_all(replace_all(template, "{date}"@, date), "{time}"@, time),
            "{mode}"@,
            mode,
        ),
        "{timestamp}"@,
        timestamp,
    )
}

/// The file name that `template` gives for a capture of kind `mode` taken at `at`.
pub open spec fn filename_at(template: Seq<char>, mode: CaptureMode, at: Instant) -> Seq<char> {
    expand_template(
        template,
        formatted_instant(at.secs, at.nanos, date_pattern()),
        formatted_instant(at.secs, at.nanos, time_pattern()),
        mode.label(),
        decimal(at.secs as int),
    )
}

/// `true` for the four words that a naming template has replaced.
pub open spec fn is_token(word: Seq<char>) -> bool {
    word == "{date}"@ || word == "{time}"@ || word == "{mode}"@ || word == "{timestamp}"@
}

/// `true` when none of the four tokens occurs in `name`.
pub open spec fn free_of_tokens(name: Seq<char>) -> bool {
    forall|token: Seq<char>| is_token(token) ==> !contains(name, token)
}

proof fn lemma_token_shape(token: Seq<char>)
    requires
        is_token(token),
    ensures
        token.len() > 0,
        token.first() == '{',
        token.last() == '}',
        forall|i: int| 0 <= i < token.len() ==> !is_stamp_char(#[trigger] token[i]),
        !token.contains('f'),
        !token.contains('l'),
        !token.contains('w'),
        !token.contains('r'),
{
    reveal_strlit("{date}");
    reveal_strlit("{time}");
    reveal_strlit("{mode}");
    reveal_strlit("{timestamp}");
}

proof fn lemma_stamp_text_fits(token: Seq<char>, text: Seq<char>)
    requires
        is_token(token),
        is_stamp_text(text),
    ensures
        token.len() > 0,
        !text.contains(token.first()),
        !text.contains(token.last()),
        !contains(token, text),
{
    lemma_token_shape(token);
    if contains(token, text) {
        let at = choose|at: int| occurs_at(token, text, at);
        assert(token.subrange(at, at + text.len())[0] == text[0]);
        assert(is_stamp_char(token[at]));
    }
}

proof fn lemma_mode_label_fits(token: Seq<char>, mode: CaptureMode)
    requires
        is_token(token),
    ensures
        token.len() > 0,
        !mode.label().contains(token.first()),
        !mode.label().contains(token.last()),
        !contains(token, mode.label()),
{
    lemma_token_shape(token);
    reveal_strlit("fullscreen");
    reveal_strlit("display");
    reveal_strlit("window");
    reveal_strlit("region");
    match mode {
        CaptureMode::FullScreen => lemma_foreign_character(token, mode.label(), 0),
        CaptureMode::Display => lemma_foreign_character(token, mode.label(), 4),
        CaptureMode::Window => lemma_foreign_character(token, mode.label(), 0),
        CaptureMode::Region => lemma_foreign_character(token, mode.label(), 0),
    }
}

/// Every occurrence of the four tokens is replaced, and none is made: where a
/// date and a time of day are written with digits and signs, as they are, the
/// name that a template expands to holds none of the four tokens.
pub proof fn lemma_expansion_leaves_no_token(
    template: Seq<char>,
    date: Seq<char>,
    time: Seq<char>,
    mode: CaptureMode,
    seconds: int,
)
    requires
        is_stamp_text(date),
        is_stamp_text(time),
    ensures
        free_of_tokens(expand_template(template, date, time, mode.label(), decimal(seconds))),
{
    let date_token = "{date}"@;
    let time_token = "{time}"@;
    let mode_token = "{mode}"@;
    let stamp_token = "{timestamp}"@;
    let stamp = decimal(seconds);
    lemma_decimal_is_stamp_text(seconds);
    let dated = replace_all(template, date_token, date);
    let timed = replace_all(dated, time_token, time);
    let named = replace_all(timed, mode_token, mode.label());
    let stamped = replace_all(named, stamp_token, stamp);

    lemma_stamp_text_fits(date_token, date);
    lemma_replace_all_leaves_none(template, date_token, date);

    lemma_stamp_text_fits(time_token, time);
    lemma_stamp_text_fits(date_token, time);
    lemma_replace_all_leaves_none(dated, time_token, time);
    lemma_replace_all_makes_none(dated, time_token, time, date_token);

    lemma_mode_label_fits(mode_token, mode);
    lemma_mode_label_fits(date_token, mode);
    lemma_mode_label_fits(time_token, mode);
    lemma_replace_all_leaves_none(timed, mode_token, mode.label());
    lemma_replace_all_makes_none(timed, mode_token, mode.label(), date_token);
    lemma_replace_all_makes_none(timed, mode_token, mode.label(), time_token);

    lemma_stamp_text_fits(stamp_token, stamp);
    lemma_stamp_text_fits(date_token, stamp);
    lemma_stamp_text_fits(time_token, stamp);
    lemma_stamp_text_fits(mode_token, stamp);
    lemma_replace_all_leaves_none(named, stamp_token, stamp);
    lemma_replace_all_makes_none(named, stamp_token, stamp, date_token);
    lemma_replace_all_makes_none(named, stamp_token, stamp, time_token);
    lemma_replace_all_makes_none(named, stamp_token, stamp, mode_token);
}

/// A template in which none of the four tokens occurs is the name that it
/// expands to: what is not a token passes through unchanged.
pub proof fn lemma_template_without_tokens_is_unchanged(
    template: Seq<char>,
    date: Seq<char>,
    time: Seq<char>,
    mode: Seq<char>,
    timestamp: Seq<char>,
)
    requires
        free_of_tokens(template),
    ensures
        expand_template(template, date, time, mode, timestamp) == template,
{
    reveal_strlit("{date}");
    reveal_strlit("{time}");
    reveal_strlit("{mode}");
    reveal_strlit("{timestamp}");
    assert(is_token("{date}"@) && is_token("{time}"@) && is_token("{mode}"@) && is_token(
        "{timestamp}"@,
    ));
    lemma_replace_all_without_occurrence(template, "{date}"@, date);
    lemma_replace_all_without_occurrence(template, "{time}"@, time);
    lemma_replace_all_without_occurrence(template, "{mode}"@, mode);
    lemma_replace_all_without_occurrence(template, "{timestamp}"@, timestamp);
}

/// Fills a naming template from a date, a time of day, a capture mode and a
/// number of seconds since 1970.
pub fn fill_template(template: &str, date: &str, time: &str, mode: CaptureMode, seconds: i64) -> (name:
    String)
    ensures
        name@ == expand_template(template@, date@, time@, mode.label(), decimal(seconds as int)),
        is_stamp_text(date@) && is_stamp_text(time@) ==> free_of_tokens(name@),
{
    proof {
        reveal_strlit("{date}");
        reveal_strlit("{time}");
        reveal_strlit("{mode}");
        reveal_strlit("{timestamp}");
        if is_stamp_text(date@) && is_stamp_text(time@) {
            lemma_expansion_leaves_no_token(template@, date@, time@, mode, seconds as int);
        }
    }
    let dated = replace(&chars_of(template), &chars_of("{date}"), &chars_of(date));
    let timed = replace(&dated, &chars_of("{time}"), &chars_of(time));
    let named = replace(&timed, &chars_of("{mode}"), &chars_of(mode.name()));
    let stamped = replace(&named, &chars_of("{timestamp}"), &signed_decimal_of(seconds));
    string_of(&stamped)
}

/// The file name that `template` gives for a capture of kind `mode` taken at
/// `at`: every occurrence of a token is replaced, and what is no token stays.
pub fn generate_filename_at(template: &str, mode: CaptureMode, at: Instant) -> (name: String)
    requires
        at.representable(),
    ensures
        name@ == filename_at(template@, mode, at),
        free_of_tokens(name@),
        free_of_tokens(template@) ==> name@ == template@,
{
    let date = at.date_text();
    let time = at.time_text();
    proof {
        if free_of_tokens(template@) {
            lemma_template_without_tokens_is_unchanged(
                template@,
                date@,
                time@,
                mode.label(),
                decimal(at.secs as int),
            );
        }
    }
    fill_template(template, date.as_str(), time.as_str(), mode, at.secs)
}

/// The file name that `template` gives for a capture of kind `mode` taken now.
pub fn generate_filename(template: &str, mode: CaptureMode) -> (name: String)
    ensures
        exists|at: Instant| #[trigger] at.representable() && name@ == filename_at(template@, mode, at),
        free_of_tokens(name@),
        free_of_tokens(template@) ==> name@ == template@,
{
    let at = now();
    generate_filename_at(template, mode, at)
}

/// A picture: rows of pixels from top to bottom, each pixel four bytes, red,
/// green, blue and alpha.
#[derive(Debug, PartialEq, Eq)]
pub struct Bitmap {
    pub width: u32,
    pub height: u32,
    pub data: Vec<u8>,
}

impl Clone for Bitmap {
    fn clone(&self) -> (copy: Self)
        ensures
            copy.width == self.width,
            copy.height == self.height,
            copy.data@ == self.data@,
    {
        let data = self.data.clone();
        assert(data@ =~= self.data@);
        Bitmap { width: self.width, height: self.height, data }
    }
}

impl Bitmap {
    /// `true` when the bytes are exactly those of `width` times `height` pixels.
    pub open spec fn wf(&self) -> bool {
        self.data@.len() == self.width as int * self.height as int * 4
    }

    /// The byte of channel `channel` of the pixel in column `x` of row `y`.
    pub open spec fn sample(&self, x: int, y: int, channel: int) -> u8 {
        self.data@[(y * self.width as int + x) * 4 + channel]
    }

    /// `true` when `self` shows the `width` by `height` pixels of `source`
    /// whose upper left corner is at column `x` of row `y`.
    pub open spec fn is_crop_of(&self, source: &Bitmap, x: int, y: int, width: int, height: int) -> bool {
        &&& self.width == width
        &&& self.height == height
        &&& self.wf()
        &&& forall|i: int, j: int, channel: int|
            0 <= i < width && 0 <= j < height && 0 <= channel < 4 ==> #[trigger] self.sample(
                i,
                j,
                channel,
            ) == source.sample(x + i, y + j, channel)
    }

    /// The picture of the given extent that `data` holds, if `data` has the
    /// length of that extent.
    pub fn new(width: u32, height: u32, data: Vec<u8>) -> (bitmap: Option<Bitmap>)
        ensures
            match bitmap {
                Some(picture) => {
                    &&& data@.len() == width as int * height as int * 4
                    &&& picture.width == width
                    &&& picture.height == height
                    &&& picture.data == data
                    &&& picture.wf()
                },
                None => data@.len() != width as int * height as int * 4,
            },
    {
        assert(width as int * height as int <= 0xFFFF_FFFF * 0xFFFF_FFFF) by (nonlinear_arith)
            requires
                0 <= width <= 0xFFFF_FFFF,
                0 <= height <= 0xFFFF_FFFF,
        ;
        let pixels: u128 = width as u128 * height as u128;
        if data.len() as u128 == pixels * 4 {
            Some(Bitmap { width, height, data })
        } else {
            None
        }
    }

    /// Tells whether the bytes are exactly those of `width` times `height` pixels.
    pub fn is_valid(&self) -> (valid: bool)
        ensures
            valid == self.wf(),
    {
        assert(self.width as int * self.height as int <= 0xFFFF_FFFF * 0xFFFF_FFFF)
            by (nonlinear_arith)
            requires
                0 <= self.width <= 0xFFFF_FFFF,
                0 <= self.height <= 0xFFFF_FFFF,
        ;
        let pixels: u128 = self.width as u128 * self.height as u128;
        self.data.len() as u128 == pixels * 4
    }
}

/// The part of a source that a requested region covers.
#[derive(Debug, Clone, Copy, PartialEq, Eq, Structural)]
pub struct CropWindow {
    pub x: u32,
    pub y: u32,
    pub width: u32,
    pub height: u32,
}

/// A coordinate moved into the source: a negative one becomes zero.
pub open spec fn clamped_origin(coordinate: i32) -> int {
    if coordinate < 0 {
        0
    } else {
        coordinate as int
    }
}

/// The extent that can be had from `origin` on: the extent requested, or what
/// the source has left from there, whichever is less; never below zero.
pub open spec fn usable_extent(requested: u32, available: u32, origin: int) -> int {
    let left = if available >= origin {
        available - origin
    } else {
        0
    };
    if requested <= left {
        requested as int
    } else {
        left
    }
}

/// The part of a source of `source_width` by `source_height` pixels that
/// `region` covers, or `None` where it covers no pixel.
pub open spec fn clamp(region: RegionBounds, source_width: u32, source_height: u32) -> Option<
    CropWindow,
> {
    let x = clamped_origin(region.x);
    let y = clamped_origin(region.y);
    let width = usable_extent(region.width, source_width, x);
    let height = usable_extent(region.height, source_height, y);
    if width == 0 || height == 0 {
        None
    } else {
        Some(CropWindow { x: x as u32, y: y as u32, width: width as u32, height: height as u32 })
    }
}

/// The part of a source of `source_width` by `source_height` pixels that
/// `region` covers, or `None` where it covers no pixel.
pub fn clamp_region(region: &RegionBounds, source_width: u32, source_height: u32) -> (window:
    Option<CropWindow>)
    ensures
        window == clamp(*region, source_width, source_height),
        window matches Some(part) ==> {
            &&& part.x + part.width <= source_width
            &&& part.y + part.height <= source_height
            &&& 0 < part.width <= region.width
            &&& 0 < part.height <= region.height
        },
{
    let x: u32 = if region.x < 0 {
        0
    } else {
        region.x as u32
    };
    let y: u32 = if region.y < 0 {
        0
    } else {
        region.y as u32
    };
    let left_width: u32 = if source_width >= x {
        source_width - x
    } else {
        0
    };
    let left_height: u32 = if source_height >= y {
        source_height - y
    } else {
        0
    };
    let width: u32 = if region.width <= left_width {
        region.width
    } else {
        left_width
    };
    let height: u32 = if region.height <= left_height {
        region.height
    } else {
        left_height
    };
    if width == 0 || height == 0 {
        None
    } else {
        Some(CropWindow { x, y, width, height })
    }
}

/// The failures of the image codec.
#[verifier::external_type_specification]
#[verifier::external_body]
pub struct ExImageError(image::ImageError);

/// The sentence in which `image::ImageError` describes itself.
#[verifier::external_body]
pub(crate) fn image_error_text(error: &image::ImageError) -> (text: String) {
    error.to_string()
}

/// `image::imageops::crop_imm`, copied out with `SubImage::to_image`. The
/// buffer of an image holds its rows one after the other; where the window
/// lies within the source, as is asked here, the copy has the extent of the
/// window and holds the pixels of the source that the window covers.
#[verifier::external_body]
fn crop_pixels(source: &Bitmap, window: CropWindow) -> (cut: Bitmap)
    requires
        source.wf(),
        window.x + window.width <= source.width,
        window.y + window.height <= source.height,
    ensures
        cut.is_crop_of(source, window.x as int, window.y as int, window.width as int, window.height as int),
{
    let whole = image::RgbaImage::from_raw(source.width, source.height, source.data.clone()).unwrap();
    let part = image::imageops::crop_imm(&whole, window.x, window.y, window.width, window.height);
    let copy = part.to_image();
    Bitmap { width: copy.width(), height: copy.height(), data: copy.into_raw() }
}

/// Cuts the region out of a capture of a whole display and records it: the
/// mode becomes that of a region, and the bounds are the corner that was asked
/// for with the extent that was had. A region that covers no pixel of the
/// capture is an invalid request.
pub fn capture_region(region: &RegionBounds, full_image: &Bitmap, metadata: CaptureMetadata) -> (outcome:
    Result<(Bitmap, CaptureMetadata), GrabError>)
    requires
        full_image.wf(),
    ensures
        match outcome {
            Ok((cut, recorded)) => {
                &&& clamp(*region, full_image.width, full_image.height) matches Some(window)
                &&& cut.is_crop_of(
                    full_image,
                    window.x as int,
                    window.y as int,
                    window.width as int,
                    window.height as int,
                )
                &&& recorded@ == (MetadataView {
                    mode: CaptureMode::Region,
                    bounds: RegionBounds {
                        x: region.x,
                        y: region.y,
                        width: window.width,
                        height: window.height,
                    },
                    ..metadata@
                })
            },
            Err(error) => {
                &&& clamp(*region, full_image.width, full_image.height) is None
                &&& error@ == ErrorView::InvalidRequest("Invalid region dimensions"@)
            },
        },
{
    match clamp_region(region, full_image.width, full_image.height) {
        Some(window) => {
            let cut = crop_pixels(full_image, window);
            let mut recorded = metadata;
            recorded.mode = CaptureMode::Region;
            recorded.bounds = RegionBounds {
                x: region.x,
                y: region.y,
                width: window.width,
                height: window.height,
            };
            Ok((cut, recorded))
        },
        None => Err(GrabError::InvalidRequest("Invalid region dimensions".to_string())),
    }
}

/// The PNG file that `image::codecs::png::PngEncoder` writes for a picture.
pub uninterp spec fn png_encoding(width: u32, height: u32, data: Seq<u8>) -> Option<Seq<u8>>;

/// `PngEncoder::write_image` into memory, for pixels of four bytes, with fast
/// compression and adaptive filtering. The encoder asks for a buffer of the
/// length of the extent; what it writes is a function of the picture.
#[verifier::external_body]
fn encode_png(picture: &Bitmap) -> (file: Result<Vec<u8>, image::ImageError>)
    requires
        picture.wf(),
    ensures
        match file {
            Ok(bytes) => png_encoding(picture.width, picture.height, picture.data@) == Some(bytes@),
            Err(_) => png_encoding(picture.width, picture.height, picture.data@) is None,
        },
{
    let mut bytes: Vec<u8> = Vec::new();
    let encoder = image::codecs::png::PngEncoder::new_with_quality(
        &mut bytes,
        image::codecs::png::CompressionType::Fast,
        image::codecs::png::FilterType::Adaptive,
    );
    let written = image::ImageEncoder::write_image(
        encoder,
        &picture.data,
        picture.width,
        picture.height,
        image::ExtendedColorType::Rgba8,
    );
    written.map(|_| bytes)
}

/// The PNG file of `image`, for the caller to write where the capture goes.
/// No pixel is changed by the encoding. A picture that the codec refuses
/// fails with an image error.
pub fn save_image(image: &Bitmap) -> (file: Result<Vec<u8>, GrabError>)
    requires
        image.wf(),
    ensures
        match file {
            Ok(bytes) => png_encoding(image.width, image.height, image.data@) == Some(bytes@),
            Err(error) => png_encoding(image.width, image.height, image.data@) is None
                && error is Image,
        },
{
    match encode_png(image) {
        Ok(bytes) => Ok(bytes),
        Err(error) => Err(GrabError::Image(image_error_text(&error))),
    }
}

} // verus!
