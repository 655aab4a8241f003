//! The list of recent captures: newest first, never longer than its cap, and
//! brought up to date from the files of the output folder.

use crate::clock::{now, rfc3339_instant, suffix_at, suffix_of, Instant};
use crate::sequences::lemma_filter_next;
use crate::text::{
    ascii_lowered, chars_of, comes_before, decimal, is_ascii_text, lemma_precedes_is_asymmetric,
    lemma_precedes_is_transitive, lowercase, precedes, signed_decimal_of, string_of, zero_padded,
};
use crate::types::{clone_text, HistoryEntry, HistoryItem};
use vstd::prelude::*;

verus! {

/// The name of the file that holds the history.
pub const HISTORY_FILE: &'static str = "history.json";

/// The number of captures that the history remembers.
pub const MAX_HISTORY_ITEMS: usize = 50;

/// The entries that `items` stand for.
pub open spec fn entries_of(items: Seq<HistoryItem>) -> Seq<HistoryEntry> {
    items.map_values(|item: HistoryItem| item@)
}

/// The texts that `paths` stand for.
pub open spec fn texts_of(paths: Seq<String>) -> Seq<Seq<char>> {
    paths.map_values(|path: String| path@)
}

/// `true` when some entry of `items` points to `path`.
pub open spec fn has_path(items: Seq<HistoryEntry>, path: Seq<char>) -> bool {
    exists|i: int| 0 <= i < items.len() && #[trigger] items[i].file_path == path
}

/// The entries of `items` that do not point to `path`, in their order.
pub open spec fn without_path(items: Seq<HistoryEntry>, path: Seq<char>) -> Seq<HistoryEntry> {
    items.filter(|entry: HistoryEntry| entry.file_path != path)
}

/// The entries of `items` whose file is among `existing`, in their order.
pub open spec fn present_only(items: Seq<HistoryEntry>, existing: Seq<Seq<char>>) -> Seq<
    HistoryEntry,
> {
    items.filter(|entry: HistoryEntry| existing.contains(entry.file_path))
}

/// The first entries of `items`, as many as the history remembers.
pub open spec fn capped(items: Seq<HistoryEntry>) -> Seq<HistoryEntry> {
    if items.len() <= MAX_HISTORY_ITEMS {
        items
    } else {
        items.take(MAX_HISTORY_ITEMS as int)
    }
}

/// `true` when some entry of `items` has the id `id`.
pub open spec fn has_id(items: Seq<HistoryEntry>, id: Seq<char>) -> bool {
    exists|i: int| 0 <= i < items.len() && #[trigger] items[i].id == id
}

/// `true` when no two entries of `items` have the same id.
pub open spec fn ids_distinct(items: Seq<HistoryEntry>) -> bool {
    forall|i: int, j: int|
        0 <= i < j < items.len() ==> (#[trigger] items[i]).id != (#[trigger] items[j]).id
}

/// The length of the longest id among `items`.
pub open spec fn longest_id(items: Seq<HistoryEntry>) -> nat
    decreases items.len(),
{
    if items.len() == 0 {
        0
    } else {
        let before = longest_id(items.drop_last());
        if items.last().id.len() > before {
            items.last().id.len()
        } else {
            before
        }
    }
}

/// `count` zeros.
pub open spec fn zeros(count: nat) -> Seq<char> {
    Seq::new(count, |i: int| '0')
}

/// The beginning of an id: the milliseconds of `time` since 1970, and five
/// digits taken from the nanoseconds of the clock reading `drawn`.
pub open spec fn id_stem(time: Instant, drawn: Instant) -> Seq<char> {
    decimal(time.millis()) + suffix_of(drawn)
}

/// An id that begins with `stem` and that no entry of `items` has: `stem`
/// itself where none has it, else `stem` with zeros behind it, one more
/// character than the longest id among `items`.
pub open spec fn fresh_id(items: Seq<HistoryEntry>, stem: Seq<char>) -> Seq<char> {
    if has_id(items, stem) {
        stem + zeros((longest_id(items) + 1 - stem.len()) as nat)
    } else {
        stem
    }
}

/// The entry that records a capture written to `path` at `at` in a list that
/// holds `held`.
pub open spec fn captured_entry(path: Seq<char>, at: Instant, held: Seq<HistoryEntry>) -> HistoryEntry {
    HistoryEntry {
        id: fresh_id(held, id_stem(at, at)),
        file_path: path,
        timestamp: rfc3339_instant(at.secs, at.nanos),
        thumbnail: None,
    }
}

/// What a history starts from: what was read from its file, as far as the cap
/// goes, or nothing.
pub open spec fn loaded_history(loaded: Option<Seq<HistoryEntry>>) -> Seq<HistoryEntry> {
    match loaded {
        Some(items) => capped(items),
        None => Seq::empty(),
    }
}

/// `true` for the lower-case extensions of the image files that are listed.
pub open spec fn is_image_name(lower: Seq<char>) -> bool {
    lower == "png"@ || lower == "jpg"@ || lower == "jpeg"@
}

/// `true` for the extensions of image files, in whatever case they are written.
pub open spec fn is_image_extension(extension: Option<Seq<char>>) -> bool {
    match extension {
        Some(text) => is_image_name(lowercase(text)),
        None => false,
    }
}

/// What `ScannedFile` holds, with texts as character sequences.
pub struct ScannedFileView {
    pub path: Seq<char>,
    pub extension: Option<Seq<char>>,
    pub created: Option<Instant>,
    pub modified: Option<Instant>,
}

impl ScannedFileView {
    /// `true` when the calendar has a place for the times of the file.
    pub open spec fn well_timed(self) -> bool {
        &&& self.created matches Some(at) ==> at.representable()
        &&& self.modified matches Some(at) ==> at.representable()
    }

    /// The instant that the timestamp of the file's entry is written from:
    /// its creation, else its last change, else the instant of the scan.
    pub open spec fn stamp_time(self, scanned: Instant) -> Instant {
        match self.created {
            Some(at) => at,
            None => match self.modified {
                Some(at) => at,
                None => scanned,
            },
        }
    }

    /// The instant that the id of the file's entry is written from: its
    /// creation, else the instant of the scan.
    pub open spec fn id_time(self, scanned: Instant) -> Instant {
        match self.created {
            Some(at) => at,
            None => scanned,
        }
    }

    /// The entry that a scan at `scanned` makes for the file in a list that
    /// holds `held`.
    pub open spec fn entry(self, scanned: Instant, held: Seq<HistoryEntry>) -> HistoryEntry {
        let stamp = self.stamp_time(scanned);
        HistoryEntry {
            id: fresh_id(held, id_stem(self.id_time(scanned), scanned)),
            file_path: self.path,
            timestamp: rfc3339_instant(stamp.secs, stamp.nanos),
            thumbnail: None,
        }
    }
}

/// One entry of a directory: its path, the extension of its name, and the
/// times of its creation and of its last change, where the file system has them.
#[derive(Debug, PartialEq, Eq)]
pub struct ScannedFile {
    pub path: String,
    pub extension: Option<String>,
    pub created: Option<Instant>,
    pub modified: Option<Instant>,
}

impl View for ScannedFile {
    type V = ScannedFileView;

    open spec fn view(&self) -> ScannedFileView {
        ScannedFileView {
            path: self.path@,
            extension: self.extension.deep_view(),
            created: self.created,
            modified: self.modified,
        }
    }
}

impl Clone for ScannedFile {
    fn clone(&self) -> (copy: Self)
        ensures
            copy == *self,
    {
        ScannedFile {
            path: self.path.clone(),
            extension: clone_text(&self.extension),
            created: self.created,
            modified: self.modified,
        }
    }
}

/// The files that `files` stand for.
pub open spec fn files_of(files: Seq<ScannedFile>) -> Seq<ScannedFileView> {
    files.map_values(|file: ScannedFile| file@)
}

/// `true` when a scan adds `file` to `items`: it is an image, and no entry
/// points to it yet.
pub open spec fn accepts(items: Seq<HistoryEntry>, file: ScannedFileView) -> bool {
    is_image_extension(file.extension) && !has_path(items, file.path)
}

/// `items`, and behind them an entry for each of `files` that a scan adds, in
/// the order of `files`; the file at position `k` is scanned at `scanned[k]`.
pub open spec fn gathered(
    items: Seq<HistoryEntry>,
    files: Seq<ScannedFileView>,
    scanned: Seq<Instant>,
) -> Seq<HistoryEntry>
    recommends
        files.len() == scanned.len(),
    decreases files.len(),
{
    if files.len() == 0 {
        items
    } else {
        let before = gathered(items, files.drop_last(), scanned.drop_last());
        if accepts(before, files.last()) {
            before.push(files.last().entry(scanned.last(), before))
        } else {
            before
        }
    }
}

/// The place at which an entry stamped `timestamp` enters `sorted`: before the
/// first entry that is older than it, else at the end.
pub open spec fn slot_for(sorted: Seq<HistoryEntry>, timestamp: Seq<char>) -> int
    decreases sorted.len(),
{
    if sorted.len() == 0 {
        0
    } else if precedes(sorted[0].timestamp, timestamp) {
        0
    } else {
        1 + slot_for(sorted.skip(1), timestamp)
    }
}

/// `items` in the order of their timestamps, newest first; entries with the
/// same timestamp keep the order that they have in `items`.
pub open spec fn newest_first(items: Seq<HistoryEntry>) -> Seq<HistoryEntry>
    decreases items.len(),
{
    if items.len() == 0 {
        items
    } else {
        let sorted = newest_first(items.drop_last());
        sorted.insert(slot_for(sorted, items.last().timestamp), items.last())
    }
}

/// The list that a scan of `files` leaves.
pub open spec fn scan_outcome(
    items: Seq<HistoryEntry>,
    files: Seq<ScannedFileView>,
    scanned: Seq<Instant>,
) -> Seq<HistoryEntry> {
    capped(newest_first(gathered(items, files, scanned)))
}

/// The number of entries that a scan of `files` adds.
pub open spec fn scan_count(
    items: Seq<HistoryEntry>,
    files: Seq<ScannedFileView>,
    scanned: Seq<Instant>,
) -> int {
    gathered(items, files, scanned).len() - items.len()
}

/// What a `HistoryStore` holds: its entries, the newest capture in front, and
/// whether its file is to be rewritten.
pub struct HistoryView {
    pub items: Seq<HistoryEntry>,
    pub save_due: bool,
}

/// The recent captures of one installation: never more than the cap, under
/// ids that are given so that no two entries share one. Every operation that
/// changes the list says, by `save_due`, whether the history file is to be
/// rewritten.
pub struct HistoryStore {
    items: Vec<HistoryItem>,
    save_due: bool,
}

impl View for HistoryStore {
    type V = HistoryView;

    closed spec fn view(&self) -> HistoryView {
        HistoryView { items: entries_of(self.items@), save_due: self.save_due }
    }
}

impl HistoryStore {
    #[verifier::type_invariant]
    spec fn within_cap(&self) -> bool {
        self.items@.len() <= MAX_HISTORY_ITEMS
    }
}

/// No id among `items` is longer than the longest.
pub proof fn lemma_longest_id_bounds(items: Seq<HistoryEntry>)
    ensures
        forall|i: int| 0 <= i < items.len() ==> (#[trigger] items[i]).id.len() <= longest_id(items),
    decreases items.len(),
{
    if items.len() > 0 {
        lemma_longest_id_bounds(items.drop_last());
        assert forall|i: int| 0 <= i < items.len() implies (#[trigger] items[i]).id.len()
            <= longest_id(items) by {
            if i < items.len() - 1 {
                assert(items.drop_last()[i] == items[i]);
            }
        }
    }
}

/// A fresh id is new: no entry of the list has it.
pub proof fn lemma_fresh_id_is_new(items: Seq<HistoryEntry>, stem: Seq<char>)
    ensures
        !has_id(items, fresh_id(items, stem)),
{
    lemma_longest_id_bounds(items);
    if has_id(items, stem) {
        let held = choose|i: int| 0 <= i < items.len() && #[trigger] items[i].id == stem;
        assert(items[held].id.len() <= longest_id(items));
        assert(fresh_id(items, stem).len() == longest_id(items) + 1);
    }
}

/// An entry with an id that the list does not have, put in front of a list
/// in which no two entries have the same id, leaves no two with the same id;
/// nor does cutting the list at the cap.
pub proof fn lemma_new_id_in_front(items: Seq<HistoryEntry>, entry: HistoryEntry)
    requires
        ids_distinct(items),
        !has_id(items, entry.id),
    ensures
        ids_distinct(seq![entry] + items),
        ids_distinct(capped(seq![entry] + items)),
{
    let longer = seq![entry] + items;
    assert forall|i: int, j: int| 0 <= i < j < longer.len() implies (#[trigger] longer[i]).id != (
    #[trigger] longer[j]).id by {
        assert(longer[j] == items[j - 1]);
        if i > 0 {
            assert(longer[i] == items[i - 1]);
        }
    }
    let cut = capped(longer);
    assert forall|i: int, j: int| 0 <= i < j < cut.len() implies (#[trigger] cut[i]).id != (
    #[trigger] cut[j]).id by {
        assert(cut[i] == longer[i] && cut[j] == longer[j]);
    }
}

fn holds_id(items: &Vec<HistoryItem>, id: &str) -> (found: bool)
    ensures
        found == has_id(entries_of(items@), id@),
{
    let mut i: usize = 0;
    while i < items.len()
        invariant
            i <= items.len(),
            forall|j: int| 0 <= j < i ==> entries_of(items@)[j].id != id@,
        decreases items.len() - i,
    {
        if *items[i].id.as_str() == *id {
            assert(entries_of(items@)[i as int].id == id@);
            return true;
        }
        i += 1;
    }
    false
}

fn longest_id_of(items: &Vec<HistoryItem>) -> (longest: usize)
    ensures
        longest == longest_id(entries_of(items@)),
{
    let ghost entries = entries_of(items@);
    let mut longest: usize = 0;
    let mut i: usize = 0;
    while i < items.len()
        invariant
            i <= items.len(),
            entries == entries_of(items@),
            longest == longest_id(entries.take(i as int)),
        decreases items.len() - i,
    {
        assert(entries.take(i + 1).drop_last() == entries.take(i as int));
        assert(entries.take(i + 1).last() == items@[i as int]@);
        let length = items[i].id.as_str().unicode_len();
        if length > longest {
            longest = length;
        }
        i += 1;
    }
    assert(entries.take(i as int) == entries);
    longest
}

fn fresh_id_for(items: &Vec<HistoryItem>, stem: String) -> (id: String)
    ensures
        id@ == fresh_id(entries_of(items@), stem@),
        !has_id(entries_of(items@), id@),
{
    proof {
        lemma_fresh_id_is_new(entries_of(items@), stem@);
    }
    if !holds_id(items, stem.as_str()) {
        return stem;
    }
    let longest = longest_id_of(items);
    let mut id = chars_of(stem.as_str());
    proof {
        lemma_longest_id_bounds(entries_of(items@));
        let held = choose|i: int|
            0 <= i < entries_of(items@).len() && #[trigger] entries_of(items@)[i].id == stem@;
        assert(entries_of(items@)[held].id.len() <= longest);
        assert(stem@ + zeros(0) == stem@);
    }
    while id.len() <= longest
        invariant
            stem@.len() <= id.len() <= longest + 1,
            id@ == stem@ + zeros((id.len() - stem@.len()) as nat),
        decreases longest + 1 - id.len(),
    {
        id.push('0');
        assert(id@ == stem@ + zeros((id.len() - stem@.len()) as nat));
    }
    string_of(&id)
}

fn holds_path(items: &Vec<HistoryItem>, path: &str) -> (found: bool)
    ensures
        found == has_path(entries_of(items@), path@),
{
    let mut i: usize = 0;
    while i < items.len()
        invariant
            i <= items.len(),
            forall|j: int| 0 <= j < i ==> entries_of(items@)[j].file_path != path@,
        decreases items.len() - i,
    {
        if *items[i].file_path.as_str() == *path {
            assert(entries_of(items@)[i as int].file_path == path@);
            return true;
        }
        i += 1;
    }
    false
}

fn listed(paths: &Vec<String>, path: &str) -> (found: bool)
    ensures
        found == texts_of(paths@).contains(path@),
{
    let mut i: usize = 0;
    while i < paths.len()
        invariant
            i <= paths.len(),
            forall|j: int| 0 <= j < i ==> texts_of(paths@)[j] != path@,
        decreases paths.len() - i,
    {
        if *paths[i].as_str() == *path {
            assert(texts_of(paths@)[i as int] == path@);
            return true;
        }
        i += 1;
    }
    false
}

/// The extension of the name of the file at `path` as
/// `std::path::Path::extension` tells it on the platform that the library is
/// built for; `None` where the name has none.
pub uninterp spec fn extension_text(path: Seq<char>) -> Option<Seq<char>>;

/// `std::path::Path::extension` on `path`, as text. What it gives is a
/// function of the path: it reads neither the disk nor the environment.
#[verifier::external_body]
fn extension_of(path: &str) -> (extension: Option<String>)
    ensures
        extension.deep_view() == extension_text(path@),
{
    std::path::Path::new(path).extension().map(|name| name.to_string_lossy().into_owned())
}

/// Tells whether `lower`, an extension in lower case, is that of an image.
pub fn names_image(lower: &str) -> (yes: bool)
    ensures
        yes == is_image_name(lower@),
{
    *lower == *"png" || *lower == *"jpg" || *lower == *"jpeg"
}

/// Tells whether `extension` is that of an image, in whatever case it is written.
pub fn has_image_extension(extension: &Option<String>) -> (yes: bool)
    ensures
        yes == is_image_extension(extension.deep_view()),
        extension matches Some(text) ==> (is_ascii_text(text@) ==> yes == is_image_name(
            ascii_lowered(text@),
        )),
{
    match extension {
        Some(text) => {
            let lower = text.as_str().to_lowercase();
            names_image(lower.as_str())
        },
        None => false,
    }
}

impl ScannedFile {
    /// The entry of a directory at `path`, with the extension that its name has.
    pub fn new(path: String, created: Option<Instant>, modified: Option<Instant>) -> (file: Self)
        ensures
            file@ == (ScannedFileView {
                path: path@,
                extension: extension_text(path@),
                created,
                modified,
            }),
    {
        let extension = extension_of(path.as_str());
        ScannedFile { path, extension, created, modified }
    }

    /// `true` when the calendar has a place for the times of the file.
    pub fn is_well_timed(&self) -> (yes: bool)
        ensures
            yes == self@.well_timed(),
    {
        let created_fits = match self.created {
            Some(at) => at.is_representable(),
            None => true,
        };
        let modified_fits = match self.modified {
            Some(at) => at.is_representable(),
            None => true,
        };
        created_fits && modified_fits
    }

    fn to_item(&self, scanned: Instant, held: &Vec<HistoryItem>) -> (item: HistoryItem)
        requires
            self@.well_timed(),
            scanned.representable(),
        ensures
            item@ == self@.entry(scanned, entries_of(held@)),
            !has_id(entries_of(held@), item.id@),
    {
        let id_time = match self.created {
            Some(at) => at,
            None => scanned,
        };
        let stamp = match self.created {
            Some(at) => at,
            None => match self.modified {
                Some(at) => at,
                None => scanned,
            },
        };
        let stem = string_of(&signed_decimal_of(id_time.timestamp_millis())).concat(
            suffix_at(scanned).as_str(),
        );
        HistoryItem {
            id: fresh_id_for(held, stem),
            file_path: self.path.clone(),
            timestamp: stamp.rfc3339_text(),
            thumbnail: None,
        }
    }
}

fn slot_of(sorted: &Vec<HistoryItem>, timestamp: &str) -> (slot: usize)
    ensures
        slot == slot_for(entries_of(sorted@), timestamp@),
        slot <= sorted.len(),
{
    let ghost entries = entries_of(sorted@);
    let mut i: usize = 0;
    assert(entries.skip(0) == entries);
    while i < sorted.len()
        invariant
            i <= sorted.len(),
            entries == entries_of(sorted@),
            slot_for(entries, timestamp@) == i + slot_for(entries.skip(i as int), timestamp@),
        decreases sorted.len() - i,
    {
        assert(entries.skip(i as int)[0] == sorted@[i as int]@);
        assert(entries.skip(i as int).skip(1) == entries.skip(i + 1));
        if comes_before(sorted[i].timestamp.as_str(), timestamp) {
            return i;
        }
        i += 1;
    }
    i
}

fn sort_newest_first(items: &Vec<HistoryItem>) -> (sorted: Vec<HistoryItem>)
    ensures
        entries_of(sorted@) == newest_first(entries_of(items@)),
{
    let ghost entries = entries_of(items@);
    let mut sorted: Vec<HistoryItem> = Vec::new();
    let mut i: usize = 0;
    while i < items.len()
        invariant
            i <= items.len(),
            entries == entries_of(items@),
            entries_of(sorted@) == newest_first(entries.take(i as int)),
        decreases items.len() - i,
    {
        assert(entries.take(i + 1).drop_last() == entries.take(i as int));
        assert(entries.take(i + 1).last() == items@[i as int]@);
        let slot = slot_of(&sorted, items[i].timestamp.as_str());
        let ghost before = entries_of(sorted@);
        sorted.insert(slot, items[i].clone());
        assert(entries_of(sorted@) == before.insert(slot as int, items@[i as int]@));
        i += 1;
    }
    assert(entries.take(i as int) == entries);
    sorted
}

impl HistoryStore {
    /// The history that was read from its file, as far as the cap goes, or an
    /// empty one where there was no file or the file could not be understood.
    pub fn new(loaded: Option<Vec<HistoryItem>>) -> (store: Self)
        ensures
            store@.items == loaded_history(
                match loaded {
                    Some(items) => Some(entries_of(items@)),
                    None => None,
                },
            ),
            store@.items.len() <= MAX_HISTORY_ITEMS,
            !store@.save_due,
    {
        match loaded {
            Some(items) => {
                let mut kept = items;
                if kept.len() > MAX_HISTORY_ITEMS {
                    kept.truncate(MAX_HISTORY_ITEMS);
                }
                assert(entries_of(kept@) == capped(entries_of(items@)));
                HistoryStore { items: kept, save_due: false }
            },
            None => HistoryStore { items: Vec::new(), save_due: false },
        }
    }

    /// Tells whether the last operation asks for the history file to be rewritten.
    pub fn save_due(&self) -> (due: bool)
        ensures
            due == self@.save_due,
    {
        self.save_due
    }

    /// All entries, whether their files exist or not: what the history file holds.
    pub fn items(&self) -> (items: Vec<HistoryItem>)
        ensures
            entries_of(items@) == self@.items,
            items.len() <= MAX_HISTORY_ITEMS,
    {
        proof {
            use_type_invariant(self);
        }
        let mut items: Vec<HistoryItem> = Vec::new();
        let mut i: usize = 0;
        while i < self.items.len()
            invariant
                i <= self.items.len(),
                items@ == self.items@.take(i as int),
            decreases self.items.len() - i,
        {
            items.push(self.items[i].clone());
            i += 1;
        }
        assert(items@ == self.items@);
        items
    }

    /// Tells whether some entry points to `path`.
    pub fn contains_path(&self, path: &str) -> (found: bool)
        ensures
            found == has_path(self@.items, path@),
    {
        holds_path(&self.items, path)
    }

    /// Records a capture written to `file_path` at `at` as the newest entry,
    /// whether or not the path is in the list already, under an id that no
    /// entry of the list has, and drops what then lies beyond the cap.
    pub fn add_at(&mut self, file_path: String, at: Instant)
        requires
            at.representable(),
        ensures
            final(self)@.items == capped(
                seq![captured_entry(file_path@, at, old(self)@.items)] + old(self)@.items,
            ),
            !has_id(old(self)@.items, final(self)@.items[0].id),
            forall|i: int|
                0 < i < final(self)@.items.len() ==> (#[trigger] final(self)@.items[i]).id
                    != final(self)@.items[0].id,
            ids_distinct(old(self)@.items) ==> ids_distinct(final(self)@.items),
            0 < final(self)@.items.len() <= MAX_HISTORY_ITEMS,
            final(self)@.save_due,
    {
        let stem = string_of(&signed_decimal_of(at.timestamp_millis())).concat(
            suffix_at(at).as_str(),
        );
        let item = HistoryItem {
            id: fresh_id_for(&self.items, stem),
            file_path,
            timestamp: at.rfc3339_text(),
            thumbnail: None,
        };
        let ghost held = entries_of(self.items@);
        let ghost entry = item@;
        let mut items: Vec<HistoryItem> = Vec::new();
        std::mem::swap(&mut items, &mut self.items);
        items.insert(0, item);
        if items.len() > MAX_HISTORY_ITEMS {
            items.truncate(MAX_HISTORY_ITEMS);
        }
        assert(entries_of(items@) == capped(seq![entry] + held));
        proof {
            if ids_distinct(held) {
                lemma_new_id_in_front(held, entry);
            }
            let left = entries_of(items@);
            assert forall|i: int| 0 < i < left.len() implies (#[trigger] left[i]).id != left[0].id by {
                assert(left[i] == held[i - 1]);
            }
        }
        self.items = items;
        self.save_due = true;
    }

    /// Records a capture written to `file_path` just now as the newest entry,
    /// under an id that no entry of the list has.
    pub fn add(&mut self, file_path: String)
        ensures
            exists|at: Instant| #[trigger]
                at.representable() && final(self)@.items == capped(
                    seq![captured_entry(file_path@, at, old(self)@.items)] + old(self)@.items,
                ),
            !has_id(old(self)@.items, final(self)@.items[0].id),
            forall|i: int|
                0 < i < final(self)@.items.len() ==> (#[trigger] final(self)@.items[i]).id
                    != final(self)@.items[0].id,
            ids_distinct(old(self)@.items) ==> ids_distinct(final(self)@.items),
            0 < final(self)@.items.len() <= MAX_HISTORY_ITEMS,
            final(self)@.save_due,
    {
        let at = now();
        self.add_at(file_path, at);
    }

    /// The entries whose file is among `existing`, newest first. The list
    /// itself keeps the others.
    pub fn get_all(&self, existing: &Vec<String>) -> (present: Vec<HistoryItem>)
        ensures
            entries_of(present@) == present_only(self@.items, texts_of(existing@)),
            forall|i: int|
                0 <= i < present.len() ==> texts_of(existing@).contains((#[trigger] present[i]).file_path@),
            present.len() <= self@.items.len(),
    {
        let ghost keep = |entry: HistoryEntry| texts_of(existing@).contains(entry.file_path);
        let mut present: Vec<HistoryItem> = Vec::new();
        let mut i: usize = 0;
        while i < self.items.len()
            invariant
                i <= self.items.len(),
                keep == |entry: HistoryEntry| texts_of(existing@).contains(entry.file_path),
                entries_of(present@) == entries_of(self.items@).take(i as int).filter(keep),
                forall|j: int|
                    0 <= j < present.len() ==> texts_of(existing@).contains(
                        (#[trigger] present[j]).file_path@,
                    ),
                present.len() <= i,
            decreases self.items.len() - i,
        {
            proof {
                lemma_filter_next(entries_of(self.items@), keep, i as int);
            }
            if listed(existing, self.items[i].file_path.as_str()) {
                present.push(self.items[i].clone());
                assert(entries_of(present@) == entries_of(self.items@).take(i as int).filter(
                    keep,
                ).push(self.items@[i as int]@));
            }
            i += 1;
        }
        assert(entries_of(self.items@).take(i as int) == entries_of(self.items@));
        present
    }

    /// The newest entry whose file is among `existing`.
    pub fn get_latest(&self, existing: &Vec<String>) -> (latest: Option<HistoryItem>)
        ensures
            match latest {
                Some(item) => {
                    let present = present_only(self@.items, texts_of(existing@));
                    present.len() > 0 && item@ == present[0]
                },
                None => present_only(self@.items, texts_of(existing@)).len() == 0,
            },
    {
        let present = self.get_all(existing);
        if present.len() > 0 {
            assert(entries_of(present@)[0] == present@[0]@);
            Some(present[0].clone())
        } else {
            assert(entries_of(present@).len() == 0);
            None
        }
    }

    /// Removes every entry that points to `file_path`, and tells whether there
    /// was one. Only then is the history file to be rewritten.
    pub fn remove(&mut self, file_path: &str) -> (removed: bool)
        ensures
            final(self)@.items == without_path(old(self)@.items, file_path@),
            removed == has_path(old(self)@.items, file_path@),
            final(self)@.save_due == removed,
            !removed ==> final(self)@.items == old(self)@.items,
            final(self)@.items.len() <= old(self)@.items.len() <= MAX_HISTORY_ITEMS,
            ids_distinct(old(self)@.items) ==> ids_distinct(final(self)@.items),
    {
        proof {
            use_type_invariant(&*self);
        }
        let ghost keep = |entry: HistoryEntry| entry.file_path != file_path@;
        let mut kept: Vec<HistoryItem> = Vec::new();
        let mut removed = false;
        let mut i: usize = 0;
        while i < self.items.len()
            invariant
                i <= self.items.len(),
                keep == |entry: HistoryEntry| entry.file_path != file_path@,
                entries_of(kept@) == entries_of(self.items@).take(i as int).filter(keep),
                removed == has_path(entries_of(self.items@).take(i as int), file_path@),
                !removed ==> kept@ == self.items@.take(i as int),
                kept.len() <= i,
                self.items.len() <= MAX_HISTORY_ITEMS,
                forall|k: int|
                    0 <= k < kept.len() ==> has_id(
                        entries_of(self.items@).take(i as int),
                        (#[trigger] entries_of(kept@)[k]).id,
                    ),
                ids_distinct(entries_of(self.items@)) ==> ids_distinct(entries_of(kept@)),
            decreases self.items.len() - i,
        {
            proof {
                lemma_filter_next(entries_of(self.items@), keep, i as int);
            }
            let ghost before = entries_of(self.items@).take(i as int);
            let ghost after = entries_of(self.items@).take(i + 1);
            if *self.items[i].file_path.as_str() == *file_path {
                assert(after[i as int].file_path == file_path@);
                removed = true;
                assert forall|k: int| 0 <= k < kept.len() implies has_id(
                    after,
                    (#[trigger] entries_of(kept@)[k]).id,
                ) by {
                    let j = choose|j: int|
                        0 <= j < before.len() && #[trigger] before[j].id == entries_of(kept@)[k].id;
                    assert(after[j].id == entries_of(kept@)[k].id);
                }
            } else {
                let ghost held = entries_of(kept@);
                kept.push(self.items[i].clone());
                assert(entries_of(kept@) == before.filter(keep).push(self.items@[i as int]@));
                proof {
                    let all = entries_of(self.items@);
                    let longer = entries_of(kept@);
                    if ids_distinct(all) {
                        assert forall|a: int, b: int| 0 <= a < b < longer.len() implies (
                        #[trigger] longer[a]).id != (#[trigger] longer[b]).id by {
                            assert(longer[a] == held[a]);
                            if b < held.len() {
                                assert(longer[b] == held[b]);
                            } else {
                                let j = choose|j: int|
                                    0 <= j < before.len() && #[trigger] before[j].id == held[a].id;
                                assert(all[j].id != all[i as int].id);
                            }
                        }
                    }
                    assert forall|k: int| 0 <= k < kept.len() implies has_id(
                        after,
                        (#[trigger] longer[k]).id,
                    ) by {
                        if k < held.len() {
                            assert(longer[k] == held[k]);
                            let j = choose|j: int|
                                0 <= j < before.len() && #[trigger] before[j].id == held[k].id;
                            assert(after[j].id == held[k].id);
                        } else {
                            assert(after[i as int].id == longer[k].id);
                        }
                    }
                }
                assert(has_path(after, file_path@) == has_path(before, file_path@)) by {
                    if has_path(after, file_path@) {
                        let j = choose|j: int|
                            0 <= j < after.len() && #[trigger] after[j].file_path == file_path@;
                        assert(before[j].file_path == file_path@);
                    }
                    if has_path(before, file_path@) {
                        let j = choose|j: int|
                            0 <= j < before.len() && #[trigger] before[j].file_path == file_path@;
                        assert(after[j].file_path == file_path@);
                    }
                }
                assert(!removed ==> kept@ == self.items@.take(i + 1));
            }
            i += 1;
        }
        assert(entries_of(self.items@).take(i as int) == entries_of(self.items@));
        assert(self.items@.take(i as int) == self.items@);
        self.items = kept;
        self.save_due = removed;
        removed
    }
}

impl HistoryStore {
    /// Adds an entry for each image among `files` that the list does not
    /// point to yet, puts the list in order, newest first, and drops what then
    /// lies beyond the cap. The file at position `k` counts as scanned at
    /// `scanned[k]`. Returns the number of entries added; only if there is one
    /// is the history file to be rewritten.
    pub fn scan_directory_at(&mut self, files: &Vec<ScannedFile>, scanned: &Vec<Instant>) -> (added:
        usize)
        requires
            files.len() == scanned.len(),
            forall|k: int| 0 <= k < files.len() ==> (#[trigger] files[k])@.well_timed(),
            forall|k: int| 0 <= k < scanned.len() ==> (#[trigger] scanned[k]).representable(),
        ensures
            final(self)@.items == scan_outcome(old(self)@.items, files_of(files@), scanned@),
            added == scan_count(old(self)@.items, files_of(files@), scanned@),
            final(self)@.items.len() <= MAX_HISTORY_ITEMS,
            is_newest_first(final(self)@.items),
            ids_distinct(old(self)@.items) ==> ids_distinct(final(self)@.items),
            final(self)@.save_due == (added > 0),
    {
        let ghost start = entries_of(self.items@);
        let ghost views = files_of(files@);
        let mut items: Vec<HistoryItem> = Vec::new();
        std::mem::swap(&mut items, &mut self.items);
        let mut added: usize = 0;
        let mut i: usize = 0;
        while i < files.len()
            invariant
                i <= files.len(),
                files.len() == scanned.len(),
                views == files_of(files@),
                forall|k: int| 0 <= k < files.len() ==> (#[trigger] files[k])@.well_timed(),
                forall|k: int| 0 <= k < scanned.len() ==> (#[trigger] scanned[k]).representable(),
                entries_of(items@) == gathered(start, views.take(i as int), scanned@.take(i as int)),
                added <= i,
                added == items.len() - start.len(),
            decreases files.len() - i,
        {
            assert(views.take(i + 1).drop_last() == views.take(i as int));
            assert(scanned@.take(i + 1).drop_last() == scanned@.take(i as int));
            assert(views.take(i + 1).last() == files@[i as int]@);
            let file = &files[i];
            if has_image_extension(&file.extension) && !holds_path(&items, file.path.as_str()) {
                let ghost before = entries_of(items@);
                let item = file.to_item(scanned[i], &items);
                items.push(item);
                assert(entries_of(items@) == before.push(
                    files@[i as int]@.entry(scanned@[i as int], before),
                ));
                added += 1;
            }
            i += 1;
        }
        assert(views.take(i as int) == views);
        assert(scanned@.take(i as int) == scanned@);
        let mut sorted = sort_newest_first(&items);
        proof {
            lemma_newest_first_is_ordered(entries_of(items@));
        }
        let ghost ordered = entries_of(sorted@);
        if sorted.len() > MAX_HISTORY_ITEMS {
            sorted.truncate(MAX_HISTORY_ITEMS);
        }
        assert(entries_of(sorted@) == scan_outcome(start, views, scanned@));
        proof {
            if ids_distinct(start) {
                assert(views.len() == scanned@.len());
                lemma_scan_keeps_ids_distinct(start, views, scanned@);
            }
        }
        assert(is_newest_first(entries_of(sorted@))) by {
            let cut = entries_of(sorted@);
            assert forall|i: int, j: int| 0 <= i < j < cut.len() implies !precedes(
                (#[trigger] cut[i]).timestamp,
                (#[trigger] cut[j]).timestamp,
            ) by {
                assert(cut[i] == ordered[i] && cut[j] == ordered[j]);
            }
        }
        self.items = sorted;
        self.save_due = added > 0;
        added
    }

    /// Adds an entry for each image among `files` that the list does not
    /// point to yet, each scanned at the instant at which its turn comes.
    pub fn scan_directory(&mut self, files: &Vec<ScannedFile>) -> (added: usize)
        requires
            forall|k: int| 0 <= k < files.len() ==> (#[trigger] files[k])@.well_timed(),
        ensures
            exists|scanned: Seq<Instant>|
                {
                    &&& scanned.len() == files.len()
                    &&& forall|k: int| 0 <= k < scanned.len() ==> (#[trigger] scanned[k]).representable()
                    &&& final(self)@.items == #[trigger] scan_outcome(
                        old(self)@.items,
                        files_of(files@),
                        scanned,
                    )
                    &&& added == scan_count(old(self)@.items, files_of(files@), scanned)
                },
            final(self)@.items.len() <= MAX_HISTORY_ITEMS,
            is_newest_first(final(self)@.items),
            ids_distinct(old(self)@.items) ==> ids_distinct(final(self)@.items),
            final(self)@.save_due == (added > 0),
    {
        let mut scanned: Vec<Instant> = Vec::new();
        let mut i: usize = 0;
        while i < files.len()
            invariant
                i <= files.len(),
                scanned.len() == i,
                forall|k: int| 0 <= k < scanned.len() ==> (#[trigger] scanned[k]).representable(),
            decreases files.len() - i,
        {
            scanned.push(now());
            i += 1;
        }
        self.scan_directory_at(files, &scanned)
    }
}

/// Five decimal digits that differ from call to call: they are taken from the
/// nanoseconds of the system clock.
pub fn rand_suffix() -> (suffix: String)
    ensures
        exists|n: nat| n < 100_000 && suffix@ == #[trigger] zero_padded(n, 5),
{
    let at = now();
    let suffix = suffix_at(at);
    assert(suffix@ == zero_padded((at.nanos % 100_000) as nat, 5));
    suffix
}

/// A change of the history.
pub enum HistoryChange {
    /// A capture written to `path` at `at` is recorded.
    Add { path: Seq<char>, at: Instant },
    /// The entries that point to `path` are removed.
    Remove { path: Seq<char> },
    /// The files of a directory are scanned, the file at position `k` at `scanned[k]`.
    Scan { files: Seq<ScannedFileView>, scanned: Seq<Instant> },
}

/// The list that `change` makes of `items`.
pub open spec fn after_change(items: Seq<HistoryEntry>, change: HistoryChange) -> Seq<HistoryEntry> {
    match change {
        HistoryChange::Add { path, at } => capped(seq![captured_entry(path, at, items)] + items),
        HistoryChange::Remove { path } => without_path(items, path),
        HistoryChange::Scan { files, scanned } => scan_outcome(items, files, scanned),
    }
}

/// The list that `changes`, made one after the other, make of `items`.
pub open spec fn after_changes(items: Seq<HistoryEntry>, changes: Seq<HistoryChange>) -> Seq<
    HistoryEntry,
>
    decreases changes.len(),
{
    if changes.len() == 0 {
        items
    } else {
        after_change(after_changes(items, changes.drop_last()), changes.last())
    }
}

/// Whatever the history file held, and however many captures are recorded,
/// entries removed and directories scanned, the history never holds more
/// entries than its cap.
pub proof fn lemma_history_never_exceeds_cap(
    loaded: Option<Seq<HistoryEntry>>,
    changes: Seq<HistoryChange>,
)
    ensures
        after_changes(loaded_history(loaded), changes).len() <= MAX_HISTORY_ITEMS,
    decreases changes.len(),
{
    if changes.len() > 0 {
        let before = after_changes(loaded_history(loaded), changes.drop_last());
        lemma_history_never_exceeds_cap(loaded, changes.drop_last());
        match changes.last() {
            HistoryChange::Remove { path } => {
                before.lemma_filter_len(|entry: HistoryEntry| entry.file_path != path);
            },
            _ => {},
        }
    }
}

/// Putting a list in order keeps the ids that it has, and leaves no two
/// entries with the same id where there were none.
pub proof fn lemma_newest_first_keeps_ids(items: Seq<HistoryEntry>)
    ensures
        forall|id: Seq<char>| has_id(newest_first(items), id) == has_id(items, id),
        ids_distinct(items) ==> ids_distinct(newest_first(items)),
    decreases items.len(),
{
    if items.len() > 0 {
        let rest = items.drop_last();
        let last = items.last();
        lemma_newest_first_keeps_ids(rest);
        let sorted = newest_first(rest);
        lemma_slot_in_range(sorted, last.timestamp);
        let slot = slot_for(sorted, last.timestamp);
        let result = sorted.insert(slot, last);
        assert forall|id: Seq<char>| has_id(result, id) == has_id(items, id) by {
            if has_id(result, id) {
                let i = choose|i: int| 0 <= i < result.len() && #[trigger] result[i].id == id;
                if i == slot {
                    assert(items[items.len() - 1].id == id);
                } else {
                    let j = if i < slot {
                        i
                    } else {
                        i - 1
                    };
                    assert(sorted[j].id == id);
                    assert(has_id(sorted, id));
                    assert(has_id(rest, id));
                    let k = choose|k: int| 0 <= k < rest.len() && #[trigger] rest[k].id == id;
                    assert(items[k].id == id);
                }
            }
            if has_id(items, id) {
                let i = choose|i: int| 0 <= i < items.len() && #[trigger] items[i].id == id;
                if i == items.len() - 1 {
                    assert(result[slot].id == id);
                } else {
                    assert(rest[i].id == id);
                    assert(has_id(rest, id));
                    assert(has_id(sorted, id));
                    let k = choose|k: int| 0 <= k < sorted.len() && #[trigger] sorted[k].id == id;
                    if k < slot {
                        assert(result[k].id == id);
                    } else {
                        assert(result[k + 1].id == id);
                    }
                }
            }
        }
        if ids_distinct(items) {
            assert(ids_distinct(rest)) by {
                assert forall|i: int, j: int| 0 <= i < j < rest.len() implies (#[trigger] rest[i]).id
                    != (#[trigger] rest[j]).id by {
                    assert(rest[i] == items[i] && rest[j] == items[j]);
                }
            }
            assert(!has_id(rest, last.id)) by {
                if has_id(rest, last.id) {
                    let k = choose|k: int| 0 <= k < rest.len() && #[trigger] rest[k].id == last.id;
                    assert(items[k].id == items[items.len() - 1].id);
                }
            }
            assert(!has_id(sorted, last.id));
            assert forall|i: int, j: int| 0 <= i < j < result.len() implies (#[trigger] result[i]).id
                != (#[trigger] result[j]).id by {
                let before = if i < slot {
                    i
                } else {
                    i - 1
                };
                let behind = if j < slot {
                    j
                } else {
                    j - 1
                };
                if i == slot {
                    assert(result[j] == sorted[behind]);
                } else if j == slot {
                    assert(result[i] == sorted[before]);
                } else {
                    assert(result[i] == sorted[before]);
                    assert(result[j] == sorted[behind]);
                }
            }
        }
    }
}

/// A scan gives each entry that it adds an id that no entry before it has:
/// where no two entries of the list had the same id, none have after the scan.
pub proof fn lemma_scan_keeps_ids_distinct(
    items: Seq<HistoryEntry>,
    files: Seq<ScannedFileView>,
    scanned: Seq<Instant>,
)
    requires
        files.len() == scanned.len(),
        ids_distinct(items),
    ensures
        ids_distinct(gathered(items, files, scanned)),
        ids_distinct(scan_outcome(items, files, scanned)),
    decreases files.len(),
{
    let all = gathered(items, files, scanned);
    if files.len() > 0 {
        let before = gathered(items, files.drop_last(), scanned.drop_last());
        lemma_scan_keeps_ids_distinct(items, files.drop_last(), scanned.drop_last());
        if accepts(before, files.last()) {
            let entry = files.last().entry(scanned.last(), before);
            lemma_fresh_id_is_new(before, id_stem(files.last().id_time(scanned.last()), scanned.last()));
            assert forall|i: int, j: int| 0 <= i < j < all.len() implies (#[trigger] all[i]).id != (
            #[trigger] all[j]).id by {
                assert(all[i] == before[i]);
                if j < before.len() {
                    assert(all[j] == before[j]);
                }
            }
        }
    }
    lemma_newest_first_keeps_ids(all);
    let ordered = newest_first(all);
    let cut = capped(ordered);
    assert forall|i: int, j: int| 0 <= i < j < cut.len() implies (#[trigger] cut[i]).id != (
    #[trigger] cut[j]).id by {
        assert(cut[i] == ordered[i] && cut[j] == ordered[j]);
    }
}

/// Putting a list in order keeps its length and the paths that it points to.
pub proof fn lemma_newest_first_keeps_paths(items: Seq<HistoryEntry>)
    ensures
        newest_first(items).len() == items.len(),
        forall|path: Seq<char>| has_path(newest_first(items), path) == has_path(items, path),
    decreases items.len(),
{
    if items.len() > 0 {
        let rest = items.drop_last();
        let last = items.last();
        lemma_newest_first_keeps_paths(rest);
        let sorted = newest_first(rest);
        lemma_slot_in_range(sorted, last.timestamp);
        let slot = slot_for(sorted, last.timestamp);
        let result = sorted.insert(slot, last);
        assert forall|path: Seq<char>| has_path(result, path) == has_path(items, path) by {
            if has_path(result, path) {
                let i = choose|i: int| 0 <= i < result.len() && #[trigger] result[i].file_path == path;
                if i == slot {
                    assert(items[items.len() - 1].file_path == path);
                } else {
                    let j = if i < slot {
                        i
                    } else {
                        i - 1
                    };
                    assert(sorted[j].file_path == path);
                    assert(has_path(sorted, path));
                    assert(has_path(rest, path));
                    let k = choose|k: int| 0 <= k < rest.len() && #[trigger] rest[k].file_path == path;
                    assert(items[k].file_path == path);
                }
            }
            if has_path(items, path) {
                let i = choose|i: int| 0 <= i < items.len() && #[trigger] items[i].file_path == path;
                if i == items.len() - 1 {
                    assert(result[slot].file_path == path);
                } else {
                    assert(rest[i].file_path == path);
                    assert(has_path(rest, path));
                    assert(has_path(sorted, path));
                    let k = choose|k: int| 0 <= k < sorted.len() && #[trigger] sorted[k].file_path == path;
                    if k < slot {
                        assert(result[k].file_path == path);
                    } else {
                        assert(result[k + 1].file_path == path);
                    }
                }
            }
        }
    }
}

/// The slot of a timestamp lies in the list or at its end; no entry before
/// the slot is older than the timestamp, and the entry at the slot is.
pub proof fn lemma_slot_in_range(sorted: Seq<HistoryEntry>, timestamp: Seq<char>)
    ensures
        0 <= slot_for(sorted, timestamp) <= sorted.len(),
        forall|i: int|
            0 <= i < slot_for(sorted, timestamp) ==> !precedes((#[trigger] sorted[i]).timestamp, timestamp),
        slot_for(sorted, timestamp) < sorted.len() ==> precedes(
            sorted[slot_for(sorted, timestamp)].timestamp,
            timestamp,
        ),
    decreases sorted.len(),
{
    if sorted.len() > 0 && !precedes(sorted[0].timestamp, timestamp) {
        let rest = sorted.skip(1);
        lemma_slot_in_range(rest, timestamp);
        assert forall|i: int| 0 <= i < slot_for(sorted, timestamp) implies !precedes(
            (#[trigger] sorted[i]).timestamp,
            timestamp,
        ) by {
            if i > 0 {
                assert(rest[i - 1] == sorted[i]);
            }
        }
        if slot_for(sorted, timestamp) < sorted.len() {
            assert(rest[slot_for(rest, timestamp)] == sorted[slot_for(sorted, timestamp)]);
        }
    }
}

/// `true` when no entry of `items` is older than an entry behind it.
pub open spec fn is_newest_first(items: Seq<HistoryEntry>) -> bool {
    forall|i: int, j: int|
        0 <= i < j < items.len() ==> !precedes(
            (#[trigger] items[i]).timestamp,
            (#[trigger] items[j]).timestamp,
        )
}

/// A list put in order is in order: no entry is older than an entry behind it.
pub proof fn lemma_newest_first_is_ordered(items: Seq<HistoryEntry>)
    ensures
        is_newest_first(newest_first(items)),
    decreases items.len(),
{
    if items.len() > 0 {
        let last = items.last();
        let sorted = newest_first(items.drop_last());
        lemma_newest_first_is_ordered(items.drop_last());
        lemma_slot_in_range(sorted, last.timestamp);
        let slot = slot_for(sorted, last.timestamp);
        let result = sorted.insert(slot, last);
        assert forall|i: int, j: int| 0 <= i < j < result.len() implies !precedes(
            (#[trigger] result[i]).timestamp,
            (#[trigger] result[j]).timestamp,
        ) by {
            if j == slot {
                assert(result[i] == sorted[i]);
            } else if i == slot {
                assert(result[j] == sorted[j - 1]);
                if precedes(last.timestamp, sorted[j - 1].timestamp) {
                    if j - 1 == slot {
                        lemma_precedes_is_asymmetric(last.timestamp, sorted[slot].timestamp);
                    } else {
                        lemma_precedes_is_transitive(
                            sorted[slot].timestamp,
                            last.timestamp,
                            sorted[j - 1].timestamp,
                        );
                    }
                }
            } else {
                let before = if i < slot {
                    i
                } else {
                    i - 1
                };
                let behind = if j < slot {
                    j
                } else {
                    j - 1
                };
                assert(result[i] == sorted[before]);
                assert(result[j] == sorted[behind]);
            }
        }
    }
}

/// Putting a list in order rearranges it: every entry stays, as often as it
/// was there.
pub proof fn lemma_newest_first_rearranges(items: Seq<HistoryEntry>)
    ensures
        newest_first(items).to_multiset() == items.to_multiset(),
    decreases items.len(),
{
    if items.len() > 0 {
        let sorted = newest_first(items.drop_last());
        lemma_newest_first_rearranges(items.drop_last());
        lemma_slot_in_range(sorted, items.last().timestamp);
        vstd::seq_lib::to_multiset_insert(
            sorted,
            slot_for(sorted, items.last().timestamp),
            items.last(),
        );
        vstd::seq_lib::to_multiset_build(items.drop_last(), items.last());
        assert(items.drop_last().push(items.last()) == items);
    }
}

/// A list that is in order stays as it is when it is put in order.
pub proof fn lemma_ordered_list_stays(items: Seq<HistoryEntry>)
    requires
        is_newest_first(items),
    ensures
        newest_first(items) == items,
    decreases items.len(),
{
    if items.len() > 0 {
        let rest = items.drop_last();
        let last = items.last();
        assert(is_newest_first(rest)) by {
            assert forall|i: int, j: int| 0 <= i < j < rest.len() implies !precedes(
                (#[trigger] rest[i]).timestamp,
                (#[trigger] rest[j]).timestamp,
            ) by {
                assert(rest[i] == items[i] && rest[j] == items[j]);
            }
        }
        lemma_ordered_list_stays(rest);
        lemma_slot_in_range(rest, last.timestamp);
        let slot = slot_for(rest, last.timestamp);
        if slot < rest.len() {
            assert(rest[slot] == items[slot]);
            assert(!precedes(items[slot].timestamp, items[items.len() - 1].timestamp));
        }
        assert(rest.insert(rest.len() as int, last) == items);
    }
}

/// A scan keeps what the list held, in its order, and behind it the list
/// points to every image among the files.
pub proof fn lemma_gathered_points_to_images(
    items: Seq<HistoryEntry>,
    files: Seq<ScannedFileView>,
    scanned: Seq<Instant>,
)
    requires
        files.len() == scanned.len(),
    ensures
        gathered(items, files, scanned).len() >= items.len(),
        gathered(items, files, scanned).take(items.len() as int) == items,
        forall|k: int|
            0 <= k < files.len() && is_image_extension((#[trigger] files[k]).extension) ==> has_path(
                gathered(items, files, scanned),
                files[k].path,
            ),
    decreases files.len(),
{
    if files.len() > 0 {
        let before = gathered(items, files.drop_last(), scanned.drop_last());
        lemma_gathered_points_to_images(items, files.drop_last(), scanned.drop_last());
        let all = gathered(items, files, scanned);
        assert(all.take(items.len() as int) == before.take(items.len() as int));
        assert forall|k: int|
            0 <= k < files.len() && is_image_extension((#[trigger] files[k]).extension) implies has_path(
            all,
            files[k].path,
        ) by {
            if k < files.len() - 1 {
                assert(files.drop_last()[k] == files[k]);
                assert(has_path(before, files[k].path));
                let i = choose|i: int| 0 <= i < before.len() && #[trigger] before[i].file_path == files[k].path;
                assert(all[i].file_path == files[k].path);
            } else {
                if accepts(before, files.last()) {
                    assert(all[all.len() - 1].file_path == files[k].path);
                } else {
                    assert(has_path(before, files[k].path));
                }
            }
        }
    } else {
        assert(items.take(items.len() as int) == items);
    }
}

/// A list that points to every image among `files` gains nothing from a scan
/// of them, at whatever instants they are scanned.
pub proof fn lemma_scan_of_known_files_adds_nothing(
    items: Seq<HistoryEntry>,
    files: Seq<ScannedFileView>,
    scanned: Seq<Instant>,
)
    requires
        files.len() == scanned.len(),
        forall|k: int|
            0 <= k < files.len() && is_image_extension((#[trigger] files[k]).extension) ==> has_path(
                items,
                files[k].path,
            ),
    ensures
        gathered(items, files, scanned) == items,
        scan_count(items, files, scanned) == 0,
    decreases files.len(),
{
    if files.len() > 0 {
        assert forall|k: int|
            0 <= k < files.drop_last().len() && is_image_extension(
                (#[trigger] files.drop_last()[k]).extension,
            ) implies has_path(items, files.drop_last()[k].path) by {
            assert(files.drop_last()[k] == files[k]);
        }
        lemma_scan_of_known_files_adds_nothing(items, files.drop_last(), scanned.drop_last());
        assert(files.last() == files[files.len() - 1]);
    }
}

/// A second scan of the same files adds nothing, at whatever instants the
/// files are scanned, where the first scan left the list pointing to every
/// image among them. A first scan that had to drop one of them at the cap is
/// not followed by such a second one: the dropped file is found again.
pub proof fn lemma_second_scan_adds_nothing(
    items: Seq<HistoryEntry>,
    files: Seq<ScannedFileView>,
    first: Seq<Instant>,
    second: Seq<Instant>,
)
    requires
        files.len() == first.len(),
        files.len() == second.len(),
        forall|k: int|
            0 <= k < files.len() && is_image_extension((#[trigger] files[k]).extension) ==> has_path(
                scan_outcome(items, files, first),
                files[k].path,
            ),
    ensures
        scan_count(scan_outcome(items, files, first), files, second) == 0,
{
    lemma_scan_of_known_files_adds_nothing(scan_outcome(items, files, first), files, second);
}

/// A second scan of the same files leaves the list as the first scan left
/// it, where the first scan left the list pointing to every image among them.
pub proof fn lemma_second_scan_changes_nothing(
    items: Seq<HistoryEntry>,
    files: Seq<ScannedFileView>,
    first: Seq<Instant>,
    second: Seq<Instant>,
)
    requires
        files.len() == first.len(),
        files.len() == second.len(),
        forall|k: int|
            0 <= k < files.len() && is_image_extension((#[trigger] files[k]).extension) ==> has_path(
                scan_outcome(items, files, first),
                files[k].path,
            ),
    ensures
        scan_outcome(scan_outcome(items, files, first), files, second) == scan_outcome(
            items,
            files,
            first,
        ),
{
    let all = newest_first(gathered(items, files, first));
    let left = scan_outcome(items, files, first);
    lemma_scan_of_known_files_adds_nothing(left, files, second);
    lemma_newest_first_is_ordered(gathered(items, files, first));
    assert(is_newest_first(left)) by {
        assert forall|i: int, j: int| 0 <= i < j < left.len() implies !precedes(
            (#[trigger] left[i]).timestamp,
            (#[trigger] left[j]).timestamp,
        ) by {
            assert(left[i] == all[i] && left[j] == all[j]);
        }
    }
    lemma_ordered_list_stays(left);
}

/// What a scan adds points to a file that no entry before it points to:
/// behind the entries that the list held, no two entries share a path, and
/// none shares its path with an entry that the list held.
pub proof fn lemma_scan_adds_each_path_once(
    items: Seq<HistoryEntry>,
    files: Seq<ScannedFileView>,
    scanned: Seq<Instant>,
)
    requires
        files.len() == scanned.len(),
    ensures
        forall|i: int, j: int|
            0 <= i < j < gathered(items, files, scanned).len() && items.len() <= j ==> (#[trigger] gathered(
                items,
                files,
                scanned,
            )[i]).file_path != (#[trigger] gathered(items, files, scanned)[j]).file_path,
    decreases files.len(),
{
    if files.len() > 0 {
        let before = gathered(items, files.drop_last(), scanned.drop_last());
        let all = gathered(items, files, scanned);
        lemma_scan_adds_each_path_once(items, files.drop_last(), scanned.drop_last());
        lemma_gathered_points_to_images(items, files.drop_last(), scanned.drop_last());
        assert forall|i: int, j: int|
            0 <= i < j < all.len() && items.len() <= j implies (#[trigger] all[i]).file_path != (
            #[trigger] all[j]).file_path by {
            if j < before.len() {
                assert(all[i] == before[i] && all[j] == before[j]);
            } else {
                assert(all[i] == before[i]);
                assert(all[j].file_path == files.last().path);
                if all[i].file_path == all[j].file_path {
                    assert(before[i].file_path == files.last().path);
                    assert(has_path(before, files.last().path));
                }
            }
        }
    }
}

/// A second scan of the same files adds nothing whenever the first scan left
/// the list within its cap.
pub proof fn lemma_second_scan_within_cap_adds_nothing(
    items: Seq<HistoryEntry>,
    files: Seq<ScannedFileView>,
    first: Seq<Instant>,
    second: Seq<Instant>,
)
    requires
        files.len() == first.len(),
        files.len() == second.len(),
        items.len() + scan_count(items, files, first) <= MAX_HISTORY_ITEMS,
    ensures
        scan_count(scan_outcome(items, files, first), files, second) == 0,
{
    let all = gathered(items, files, first);
    lemma_gathered_points_to_images(items, files, first);
    lemma_newest_first_keeps_paths(all);
    assert(scan_outcome(items, files, first) == newest_first(all));
    lemma_second_scan_adds_nothing(items, files, first, second);
}

/// The number of entries that a scan adds does not depend on the instants at
/// which the files are scanned.
pub proof fn lemma_scan_count_is_the_same_at_any_instant(
    items: Seq<HistoryEntry>,
    files: Seq<ScannedFileView>,
    first: Seq<Instant>,
    second: Seq<Instant>,
)
    requires
        files.len() == first.len(),
        files.len() == second.len(),
    ensures
        scan_count(items, files, first) == scan_count(items, files, second),
        forall|path: Seq<char>|
            has_path(gathered(items, files, first), path) == has_path(
                gathered(items, files, second),
                path,
            ),
    decreases files.len(),
{
    if files.len() > 0 {
        lemma_scan_count_is_the_same_at_any_instant(
            items,
            files.drop_last(),
            first.drop_last(),
            second.drop_last(),
        );
        let a = gathered(items, files.drop_last(), first.drop_last());
        let b = gathered(items, files.drop_last(), second.drop_last());
        let a_all = gathered(items, files, first);
        let b_all = gathered(items, files, second);
        assert(accepts(a, files.last()) == accepts(b, files.last()));
        assert forall|path: Seq<char>| has_path(a_all, path) == has_path(b_all, path) by {
            lemma_push_path(a, files.last().entry(first.last(), a), path);
            lemma_push_path(b, files.last().entry(second.last(), b), path);
        }
    }
}

proof fn lemma_push_path(items: Seq<HistoryEntry>, entry: HistoryEntry, path: Seq<char>)
    ensures
        has_path(items.push(entry), path) == (has_path(items, path) || entry.file_path == path),
{
    let longer = items.push(entry);
    if has_path(longer, path) {
        let i = choose|i: int| 0 <= i < longer.len() && #[trigger] longer[i].file_path == path;
        if i < items.len() {
            assert(items[i].file_path == path);
        }
    }
    if has_path(items, path) {
        let i = choose|i: int| 0 <= i < items.len() && #[trigger] items[i].file_path == path;
        assert(longer[i].file_path == path);
    }
    if entry.file_path == path {
        assert(longer[items.len() as int].file_path == path);
    }
}

} // verus!
