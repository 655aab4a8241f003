//! What is done with a capture once it is taken: the steps that save it, copy
//! it, announce it and show it, in their order, and what becomes of each
//! failure on the way.

use crate::capture::{filename_at, generate_filename, image_error_text, Bitmap};
use crate::clock::Instant;
use crate::error::{ErrorView, GrabError};
use crate::preferences::{join_path, joined_path};
use crate::text::{chars_of, matches_at, starts_with, string_of};
use crate::types::{
    clone_text, CaptureMetadata, CapturePreferences, CaptureResult, MetadataView, PreferencesView,
    ResultView,
};
use vstd::prelude::*;

verus! {

/// The step of the pipeline whose outcome is awaited.
#[derive(Debug, Clone, Copy, PartialEq, Eq, Structural)]
pub enum Stage {
    Folder,
    Image,
    History,
    Clipboard,
    Notification,
    Refresh,
}

/// What `Action` holds, with texts as character sequences.
pub enum ActionView {
    CreateFolder(Seq<char>),
    WriteImage(Seq<char>),
    RecordCapture(Seq<char>),
    CopyToClipboard,
    Notify { title: Seq<char>, body: Seq<char> },
    Refresh { open_editor: bool, show_capture: Option<Seq<char>> },
}

/// What the pipeline asks the application to do next.
#[derive(Debug, PartialEq, Eq)]
pub enum Action {
    /// Create the folder, and the folders above it, unless they exist.
    CreateFolder(String),
    /// Encode the picture and write it to the path, over what is there.
    WriteImage(String),
    /// Add the path to the history as its newest capture, and save the history.
    RecordCapture(String),
    /// Put the picture on the clipboard.
    CopyToClipboard,
    /// Show a notification.
    Notify { title: String, body: String },
    /// Tell the user interface to read the history anew; with `open_editor`,
    /// bring its main window to the front, and there show the capture at
    /// `show_capture`, if there is one.
    Refresh { open_editor: bool, show_capture: Option<String> },
}

impl View for Action {
    type V = ActionView;

    open spec fn view(&self) -> ActionView {
        match self {
            Action::CreateFolder(folder) => ActionView::CreateFolder(folder@),
            Action::WriteImage(path) => ActionView::WriteImage(path@),
            Action::RecordCapture(path) => ActionView::RecordCapture(path@),
            Action::CopyToClipboard => ActionView::CopyToClipboard,
            Action::Notify { title, body } => ActionView::Notify { title: title@, body: body@ },
            Action::Refresh { open_editor, show_capture } => ActionView::Refresh {
                open_editor: *open_editor,
                show_capture: show_capture.deep_view(),
            },
        }
    }
}

/// How the action that was asked for ended.
#[derive(Debug, PartialEq, Eq)]
pub enum Report {
    Done,
    Failed(GrabError),
}

/// What `Pipeline` holds, with texts as character sequences.
pub struct PipelineView {
    pub stage: Stage,
    pub save_to_disk: bool,
    pub copy_to_clipboard: bool,
    pub show_notifications: bool,
    pub open_editor: bool,
    pub output_folder: Seq<char>,
    pub file_name: Seq<char>,
    pub target: Seq<char>,
    pub shown_name: Seq<char>,
    pub metadata: MetadataView,
    pub file_path: Option<Seq<char>>,
    pub copied: bool,
}

/// What `Step` holds, with texts as character sequences.
pub enum StepView {
    Ask(PipelineView, ActionView),
    Done(ResultView),
    Failed(ErrorView),
}

impl PipelineView {
    /// The pipeline of a capture recorded as `metadata`, under the settings
    /// `preferences`: if it is saved, then under the name `file_name`, at the
    /// path `target`, whose last part is `shown_name`.
    pub open spec fn planned(
        metadata: MetadataView,
        preferences: PreferencesView,
        file_name: Seq<char>,
        target: Seq<char>,
        shown_name: Seq<char>,
    ) -> PipelineView {
        PipelineView {
            stage: Stage::Folder,
            save_to_disk: preferences.save_to_disk,
            copy_to_clipboard: preferences.copy_to_clipboard,
            show_notifications: preferences.show_notifications,
            open_editor: preferences.open_editor_after_capture,
            output_folder: preferences.output_folder,
            file_name,
            target,
            shown_name,
            metadata,
            file_path: None,
            copied: false,
        }
    }

    /// What the notification says: where the capture was saved, that it was
    /// copied, both, or nothing.
    pub open spec fn announcement(self) -> Seq<char> {
        if self.file_path is Some {
            if self.copied {
                "Saved to "@ + self.shown_name + " and clipboard"@
            } else {
                "Saved to "@ + self.shown_name
            }
        } else if self.copied {
            "Copied to clipboard"@
        } else {
            Seq::empty()
        }
    }

    /// What the capture came to.
    pub open spec fn result(self) -> ResultView {
        ResultView {
            file_path: self.file_path,
            metadata: self.metadata,
            copied_to_clipboard: self.copied,
        }
    }

    /// The first step: the output folder is made ready if the capture is to be
    /// saved; else the pipeline goes on to the clipboard.
    pub open spec fn first(self) -> StepView {
        if self.save_to_disk {
            StepView::Ask(
                PipelineView { stage: Stage::Folder, ..self },
                ActionView::CreateFolder(self.output_folder),
            )
        } else {
            self.to_clipboard()
        }
    }

    /// The capture is copied if the settings say so; else the pipeline goes on
    /// to the notification.
    pub open spec fn to_clipboard(self) -> StepView {
        if self.copy_to_clipboard {
            StepView::Ask(
                PipelineView { stage: Stage::Clipboard, ..self },
                ActionView::CopyToClipboard,
            )
        } else {
            self.to_notification()
        }
    }

    /// The capture is announced if the settings say so; else the pipeline goes
    /// on to refresh the user interface.
    pub open spec fn to_notification(self) -> StepView {
        if self.show_notifications {
            StepView::Ask(
                PipelineView { stage: Stage::Notification, ..self },
                ActionView::Notify { title: "Capture Complete"@, body: self.announcement() },
            )
        } else {
            self.to_refresh()
        }
    }

    /// The user interface is told to read the history anew, whatever the
    /// settings; the saved capture is shown only where the editor is to be opened.
    pub open spec fn to_refresh(self) -> StepView {
        StepView::Ask(
            PipelineView { stage: Stage::Refresh, ..self },
            ActionView::Refresh {
                open_editor: self.open_editor,
                show_capture: if self.open_editor {
                    self.file_path
                } else {
                    None
                },
            },
        )
    }

    /// The step that follows the success of the action that was awaited.
    pub open spec fn after_success(self) -> StepView {
        match self.stage {
            Stage::Folder => StepView::Ask(
                PipelineView { stage: Stage::Image, ..self },
                ActionView::WriteImage(self.target),
            ),
            Stage::Image => StepView::Ask(
                PipelineView {
                    stage: Stage::History,
                    file_path: Some(self.target),
                    metadata: MetadataView { file_name: Some(self.file_name), ..self.metadata },
                    ..self
                },
                ActionView::RecordCapture(self.target),
            ),
            Stage::History => self.to_clipboard(),
            Stage::Clipboard => (PipelineView { copied: true, ..self }).to_notification(),
            Stage::Notification => self.to_refresh(),
            Stage::Refresh => StepView::Done(self.result()),
        }
    }

    /// The step that follows the failure `error` of the action that was
    /// awaited. A failure while the capture is saved ends the pipeline with
    /// that failure; a failure of the clipboard ends it with a clipboard
    /// failure of the same description; a notification or a refresh that fails
    /// counts as done.
    pub open spec fn after_failure(self, error: ErrorView) -> StepView {
        match self.stage {
            Stage::Folder => StepView::Failed(error),
            Stage::Image => StepView::Failed(error),
            Stage::History => StepView::Failed(error),
            Stage::Clipboard => StepView::Failed(ErrorView::ClipboardFailed(error.detail())),
            Stage::Notification => self.to_refresh(),
            Stage::Refresh => StepView::Done(self.result()),
        }
    }
}

/// What a step comes to when the action that it asks for succeeds, and the
/// next, and so on, for at most `steps` actions.
pub open spec fn when_all_succeed(step: StepView, steps: nat) -> StepView
    decreases steps,
{
    match step {
        StepView::Ask(pipeline, _) => if steps == 0 {
            step
        } else {
            when_all_succeed(pipeline.after_success(), (steps - 1) as nat)
        },
        _ => step,
    }
}

/// Where every action succeeds, a capture is through after six actions at
/// most. Its result names the file exactly if the capture was to be saved, and
/// then the metadata name it too; it tells of a copy exactly if the capture
/// was to be copied.
pub proof fn lemma_result_of_a_successful_pipeline(
    metadata: MetadataView,
    preferences: PreferencesView,
    file_name: Seq<char>,
    target: Seq<char>,
    shown_name: Seq<char>,
)
    ensures
        when_all_succeed(
            PipelineView::planned(metadata, preferences, file_name, target, shown_name).first(),
            6,
        ) == StepView::Done(
            ResultView {
                file_path: if preferences.save_to_disk {
                    Some(target)
                } else {
                    None
                },
                metadata: if preferences.save_to_disk {
                    MetadataView { file_name: Some(file_name), ..metadata }
                } else {
                    metadata
                },
                copied_to_clipboard: preferences.copy_to_clipboard,
            },
        ),
{
    reveal_with_fuel(when_all_succeed, 8);
}

/// One capture on its way through saving, copying, announcing and showing.
#[derive(Debug, PartialEq, Eq)]
pub struct Pipeline {
    stage: Stage,
    save_to_disk: bool,
    copy_to_clipboard: bool,
    show_notifications: bool,
    open_editor: bool,
    output_folder: String,
    file_name: String,
    target: String,
    shown_name: String,
    metadata: CaptureMetadata,
    file_path: Option<String>,
    copied: bool,
}

impl View for Pipeline {
    type V = PipelineView;

    closed spec fn view(&self) -> PipelineView {
        PipelineView {
            stage: self.stage,
            save_to_disk: self.save_to_disk,
            copy_to_clipboard: self.copy_to_clipboard,
            show_notifications: self.show_notifications,
            open_editor: self.open_editor,
            output_folder: self.output_folder@,
            file_name: self.file_name@,
            target: self.target@,
            shown_name: self.shown_name@,
            metadata: self.metadata@,
            file_path: self.file_path.deep_view(),
            copied: self.copied,
        }
    }
}

/// Where a pipeline stands: it asks for an action, or it has ended, with the
/// result of the capture or with a failure.
#[derive(Debug, PartialEq, Eq)]
pub enum Step {
    Ask(Pipeline, Action),
    Done(CaptureResult),
    Failed(GrabError),
}

impl View for Step {
    type V = StepView;

    open spec fn view(&self) -> StepView {
        match self {
            Step::Ask(pipeline, action) => StepView::Ask(pipeline@, action@),
            Step::Done(result) => StepView::Done(result@),
            Step::Failed(error) => StepView::Failed(error@),
        }
    }
}

/// The last part of `path` as `std::path::Path::file_name` tells it on the
/// platform that the library is built for; nothing where the path has none.
pub uninterp spec fn last_part(path: Seq<char>) -> Seq<char>;

/// `std::path::Path::file_name` on `path`, as text, or nothing where the path
/// has no such part. What it gives is a function of the path: it reads
/// neither the disk nor the environment.
#[verifier::external_body]
fn file_name_of(path: &str) -> (name: String)
    ensures
        name@ == last_part(path@),
{
    std::path::Path::new(path).file_name().map(|name| name.to_string_lossy().into_owned()).unwrap_or_default()
}

/// The path of the file that a capture named `file_name` is saved to in
/// `folder`: the name gets the extension of a PNG file.
pub open spec fn target_path(folder: Seq<char>, file_name: Seq<char>) -> Seq<char> {
    joined_path(folder, file_name + ".png"@)
}

/// The pipeline of a capture recorded as `metadata`, under the settings
/// `preferences`, that is saved, if it is, under the name `file_name`.
pub open spec fn pipeline_for(
    metadata: MetadataView,
    preferences: PreferencesView,
    file_name: Seq<char>,
) -> PipelineView {
    PipelineView::planned(
        metadata,
        preferences,
        file_name,
        target_path(preferences.output_folder, file_name),
        last_part(target_path(preferences.output_folder, file_name)),
    )
}

impl Pipeline {
    fn first(self) -> (step: Step)
        ensures
            step@ == self@.first(),
    {
        if self.save_to_disk {
            let folder = self.output_folder.clone();
            let mut next = self;
            next.stage = Stage::Folder;
            Step::Ask(next, Action::CreateFolder(folder))
        } else {
            self.to_clipboard()
        }
    }

    fn to_clipboard(self) -> (step: Step)
        ensures
            step@ == self@.to_clipboard(),
    {
        if self.copy_to_clipboard {
            let mut next = self;
            next.stage = Stage::Clipboard;
            Step::Ask(next, Action::CopyToClipboard)
        } else {
            self.to_notification()
        }
    }

    fn announcement(&self) -> (body: String)
        ensures
            body@ == self@.announcement(),
    {
        match &self.file_path {
            Some(_) => {
                let saved = "Saved to ".to_string().concat(self.shown_name.as_str());
                if self.copied {
                    saved.concat(" and clipboard")
                } else {
                    saved
                }
            },
            None => {
                if self.copied {
                    "Copied to clipboard".to_string()
                } else {
                    String::new()
                }
            },
        }
    }

    fn to_notification(self) -> (step: Step)
        ensures
            step@ == self@.to_notification(),
    {
        if self.show_notifications {
            let body = self.announcement();
            let mut next = self;
            next.stage = Stage::Notification;
            Step::Ask(next, Action::Notify { title: "Capture Complete".to_string(), body })
        } else {
            self.to_refresh()
        }
    }

    fn to_refresh(self) -> (step: Step)
        ensures
            step@ == self@.to_refresh(),
    {
        let show_capture = if self.open_editor {
            clone_text(&self.file_path)
        } else {
            None
        };
        let open_editor = self.open_editor;
        let mut next = self;
        next.stage = Stage::Refresh;
        Step::Ask(next, Action::Refresh { open_editor, show_capture })
    }

    fn finish(self) -> (step: Step)
        ensures
            step@ == StepView::Done(self@.result()),
    {
        Step::Done(
            CaptureResult {
                file_path: self.file_path,
                metadata: self.metadata,
                copied_to_clipboard: self.copied,
            },
        )
    }

    /// The step of the pipeline whose outcome is awaited.
    pub fn stage(&self) -> (stage: Stage)
        ensures
            stage == self@.stage,
    {
        self.stage
    }

    /// Takes the pipeline one step on, from the outcome of the action that it
    /// asked for.
    pub fn resume(self, report: Report) -> (step: Step)
        ensures
            step@ == match report {
                Report::Done => self@.after_success(),
                Report::Failed(error) => self@.after_failure(error@),
            },
    {
        match report {
            Report::Done => match self.stage {
                Stage::Folder => {
                    let path = self.target.clone();
                    let mut next = self;
                    next.stage = Stage::Image;
                    Step::Ask(next, Action::WriteImage(path))
                },
                Stage::Image => {
                    let path = self.target.clone();
                    let mut next = self;
                    next.stage = Stage::History;
                    next.file_path = Some(next.target.clone());
                    next.metadata.file_name = Some(next.file_name.clone());
                    Step::Ask(next, Action::RecordCapture(path))
                },
                Stage::History => self.to_clipboard(),
                Stage::Clipboard => {
                    let mut next = self;
                    next.copied = true;
                    next.to_notification()
                },
                Stage::Notification => self.to_refresh(),
                Stage::Refresh => self.finish(),
            },
            Report::Failed(error) => match self.stage {
                Stage::Folder => Step::Failed(error),
                Stage::Image => Step::Failed(error),
                Stage::History => Step::Failed(error),
                Stage::Clipboard => Step::Failed(GrabError::ClipboardFailed(error.detail())),
                Stage::Notification => self.to_refresh(),
                Stage::Refresh => self.finish(),
            },
        }
    }
}

/// Starts the pipeline of a capture recorded as `metadata`, under the
/// settings `preferences`: if it is saved, then under the name `file_name`, at
/// the path `target`, whose last part is `shown_name`.
pub fn process_capture_as(
    metadata: CaptureMetadata,
    preferences: &CapturePreferences,
    file_name: String,
    target: String,
    shown_name: String,
) -> (step: Step)
    ensures
        step@ == PipelineView::planned(
            metadata@,
            preferences@,
            file_name@,
            target@,
            shown_name@,
        ).first(),
{
    let pipeline = Pipeline {
        stage: Stage::Folder,
        save_to_disk: preferences.save_to_disk,
        copy_to_clipboard: preferences.copy_to_clipboard,
        show_notifications: preferences.show_notifications,
        open_editor: preferences.open_editor_after_capture,
        output_folder: preferences.output_folder.clone(),
        file_name,
        target,
        shown_name,
        metadata,
        file_path: None,
        copied: false,
    };
    pipeline.first()
}

/// Starts the pipeline of a capture recorded as `metadata`, under the
/// settings `preferences`. If the capture is to be saved, its file is named
/// from the naming template, the mode of the capture and the present instant,
/// with the extension of a PNG file, and lies in the output folder.
pub fn save_and_process_capture(metadata: CaptureMetadata, preferences: &CapturePreferences) -> (step:
    Step)
    ensures
        preferences.save_to_disk ==> exists|at: Instant|
            #![trigger filename_at(preferences.naming_template@, metadata.mode, at)]
            at.representable() && step@ == pipeline_for(
                metadata@,
                preferences@,
                filename_at(preferences.naming_template@, metadata.mode, at),
            ).first(),
        !preferences.save_to_disk ==> step@ == PipelineView::planned(
            metadata@,
            preferences@,
            Seq::empty(),
            Seq::empty(),
            Seq::empty(),
        ).first(),
{
    if preferences.save_to_disk {
        let file_name = generate_filename(preferences.naming_template.as_str(), metadata.mode);
        let file = file_name.clone().concat(".png");
        let target = join_path(preferences.output_folder.as_str(), file.as_str());
        let shown_name = file_name_of(target.as_str());
        process_capture_as(metadata, preferences, file_name, target, shown_name)
    } else {
        process_capture_as(metadata, preferences, String::new(), String::new(), String::new())
    }
}

/// The position of the first comma of `text` at or behind `from`, or the
/// length of `text` where there is none.
pub open spec fn comma_from(text: Seq<char>, from: int) -> int
    decreases text.len() - from,
{
    if from < 0 || from >= text.len() {
        text.len() as int
    } else if text[from] == ',' {
        from
    } else {
        comma_from(text, from + 1)
    }
}

/// What stands between the first comma of `data` and the second, or the end:
/// the place of the encoded bytes in a data URL. `None` without a comma.
pub open spec fn payload_of(data: Seq<char>) -> Option<Seq<char>> {
    let first = comma_from(data, 0);
    if first >= data.len() {
        None
    } else {
        Some(data.subrange(first + 1, comma_from(data, first + 1)))
    }
}

proof fn lemma_next_comma(text: Seq<char>, from: int, to: int)
    requires
        0 <= from <= to <= text.len(),
        forall|i: int| from <= i < to ==> text[i] != ',',
        to < text.len() ==> text[to] == ',',
    ensures
        comma_from(text, from) == to,
    decreases to - from,
{
    if from < to {
        lemma_next_comma(text, from + 1, to);
    }
}

/// In a text made of a head, a comma and a payload, neither of which holds a
/// comma, the payload is what stands behind the comma; what may follow behind
/// a second comma does not count.
pub proof fn lemma_payload_stands_behind_the_first_comma(
    head: Seq<char>,
    payload: Seq<char>,
    rest: Seq<char>,
)
    requires
        !head.contains(','),
        !payload.contains(','),
    ensures
        payload_of(head + seq![','] + payload) == Some(payload),
        payload_of(head + seq![','] + payload + seq![','] + rest) == Some(payload),
        payload_of(head) is None,
{
    let short = head + seq![','] + payload;
    let long = head + seq![','] + payload + seq![','] + rest;
    let first = head.len() as int;
    let second = first + 1 + payload.len();
    assert forall|i: int| 0 <= i < first implies short[i] != ',' && long[i] != ',' && head[i]
        != ',' by {
        assert(head.contains(head[i]));
    }
    assert forall|i: int| first + 1 <= i < second implies short[i] != ',' && long[i] != ',' by {
        assert(payload.contains(payload[i - first - 1]));
        assert(short[i] == payload[i - first - 1]);
        assert(long[i] == payload[i - first - 1]);
    }
    lemma_next_comma(head, 0, first);
    lemma_next_comma(short, 0, first);
    lemma_next_comma(short, first + 1, second);
    lemma_next_comma(long, 0, first);
    lemma_next_comma(long, first + 1, second);
    assert(short.subrange(first + 1, second) == payload);
    assert(long.subrange(first + 1, second) == payload);
}

/// What a text that stands for an image is: the path of a file, a data URL
/// with its encoded bytes, or a data URL without any.
pub enum InputView {
    Path(Seq<char>),
    Encoded(Seq<char>),
    Malformed,
}

/// What `data` is: a data URL where it begins with `data:`, else a path.
pub open spec fn input_kind(data: Seq<char>) -> InputView {
    if starts_with(data, "data:"@) {
        match payload_of(data) {
            Some(payload) => InputView::Encoded(payload),
            None => InputView::Malformed,
        }
    } else {
        InputView::Path(data)
    }
}

/// A text that stands for an image, told apart.
#[derive(Debug, PartialEq, Eq)]
pub enum ImageInput {
    /// The path of a file that holds the image.
    Path(String),
    /// The bytes of the image in base64, taken from a data URL.
    Encoded(String),
    /// A data URL that has no place for the bytes.
    Malformed,
}

impl View for ImageInput {
    type V = InputView;

    open spec fn view(&self) -> InputView {
        match self {
            ImageInput::Path(path) => InputView::Path(path@),
            ImageInput::Encoded(payload) => InputView::Encoded(payload@),
            ImageInput::Malformed => InputView::Malformed,
        }
    }
}

impl Clone for ImageInput {
    fn clone(&self) -> (copy: Self)
        ensures
            copy == *self,
    {
        match self {
            ImageInput::Path(path) => ImageInput::Path(path.clone()),
            ImageInput::Encoded(payload) => ImageInput::Encoded(payload.clone()),
            ImageInput::Malformed => ImageInput::Malformed,
        }
    }
}

fn find_comma(text: &Vec<char>, from: usize) -> (at: usize)
    requires
        from <= text.len(),
    ensures
        at == comma_from(text@, from as int),
        from <= at <= text.len(),
{
    let mut i: usize = from;
    while i < text.len()
        invariant
            from <= i <= text.len(),
            comma_from(text@, from as int) == comma_from(text@, i as int),
        decreases text.len() - i,
    {
        if text[i] == ',' {
            return i;
        }
        i += 1;
    }
    i
}

/// Tells a data URL from a path, and takes the encoded bytes out of a data URL.
pub fn classify_input(data: &str) -> (input: ImageInput)
    ensures
        input@ == input_kind(data@),
{
    let text = chars_of(data);
    if matches_at(&text, &chars_of("data:"), 0) {
        let first = find_comma(&text, 0);
        if first >= text.len() {
            ImageInput::Malformed
        } else {
            let second = find_comma(&text, first + 1);
            let mut payload: Vec<char> = Vec::new();
            let mut i: usize = first + 1;
            while i < second
                invariant
                    first + 1 <= i <= second <= text.len(),
                    payload@ == text@.subrange(first + 1, i as int),
                decreases second - i,
            {
                payload.push(text[i]);
                i += 1;
            }
            ImageInput::Encoded(string_of(&payload))
        }
    } else {
        ImageInput::Path(data.to_string())
    }
}

/// What an image is asked for.
#[derive(Debug, Clone, Copy, PartialEq, Eq, Structural)]
pub enum Purpose {
    /// To be written to a file: saved or exported.
    File,
    /// To be put on the clipboard.
    Clipboard,
}

/// What `ImageData` holds, with texts and bytes as sequences.
pub enum DataView {
    File(Seq<char>),
    Bytes(Seq<u8>),
}

/// An image as it is handed in: in a file, or as the bytes of one.
#[derive(Debug, PartialEq, Eq)]
pub enum ImageData {
    File(String),
    Bytes(Vec<u8>),
}

impl View for ImageData {
    type V = DataView;

    open spec fn view(&self) -> DataView {
        match self {
            ImageData::File(path) => DataView::File(path@),
            ImageData::Bytes(bytes) => DataView::Bytes(bytes@),
        }
    }
}

impl Clone for ImageData {
    fn clone(&self) -> (copy: Self)
        ensures
            copy@ == self@,
    {
        match self {
            ImageData::File(path) => ImageData::File(path.clone()),
            ImageData::Bytes(bytes) => {
                let copy = bytes.clone();
                assert(copy@ =~= bytes@);
                ImageData::Bytes(copy)
            },
        }
    }
}

/// The bytes that `text` stands for in base64, with the standard alphabet and
/// padding, or `None` where it stands for none.
pub uninterp spec fn base64_decoding(text: Seq<char>) -> Option<Seq<u8>>;

/// The ways in which a text fails to be base64.
#[verifier::external_type_specification]
#[verifier::external_body]
pub struct ExDecodeError(base64::DecodeError);

/// `base64::Engine::decode` of the engine `STANDARD`: whether a text decodes,
/// and to which bytes, is a function of the text.
#[verifier::external_body]
fn decode_base64(text: &str) -> (bytes: Result<Vec<u8>, base64::DecodeError>)
    ensures
        match bytes {
            Ok(decoded) => base64_decoding(text@) == Some(decoded@),
            Err(_) => base64_decoding(text@) is None,
        },
{
    base64::Engine::decode(&base64::engine::general_purpose::STANDARD, text)
}

/// The sentence in which `base64::DecodeError` describes itself.
#[verifier::external_body]
fn decode_error_text(error: &base64::DecodeError) -> (text: String) {
    error.to_string()
}

/// The failure of an image handed in for `purpose`, described by `detail`.
pub open spec fn refusal(purpose: Purpose, detail: Seq<char>) -> ErrorView {
    match purpose {
        Purpose::File => ErrorView::ExportFailed(detail),
        Purpose::Clipboard => ErrorView::ClipboardFailed(detail),
    }
}

fn refuse(purpose: Purpose, detail: String) -> (error: GrabError)
    ensures
        error@ == refusal(purpose, detail@),
{
    match purpose {
        Purpose::File => GrabError::ExportFailed(detail),
        Purpose::Clipboard => GrabError::ClipboardFailed(detail),
    }
}

/// The image that an input stands for, once its encoded bytes, if it has
/// any, are decoded: `decoded` holds the bytes, or the description of what
/// is wrong with the encoding. A data URL without a place for bytes is an
/// invalid request; bytes that do not decode fail as the purpose has it.
pub fn resolve_input(input: ImageInput, decoded: Result<Vec<u8>, String>, purpose: Purpose) -> (data:
    Result<ImageData, GrabError>)
    ensures
        match input {
            ImageInput::Path(path) => data matches Ok(image) && image@ == DataView::File(path@),
            ImageInput::Malformed => data matches Err(error) && error@ == ErrorView::InvalidRequest(
                "Invalid data URL"@,
            ),
            ImageInput::Encoded(_) => match decoded {
                Ok(bytes) => data matches Ok(image) && image@ == DataView::Bytes(bytes@),
                Err(detail) => data matches Err(error) && error@ == refusal(purpose, detail@),
            },
        },
{
    match input {
        ImageInput::Path(path) => Ok(ImageData::File(path)),
        ImageInput::Malformed => Err(GrabError::InvalidRequest("Invalid data URL".to_string())),
        ImageInput::Encoded(_) => match decoded {
            Ok(bytes) => Ok(ImageData::Bytes(bytes)),
            Err(detail) => Err(refuse(purpose, detail)),
        },
    }
}

/// The image that `data` stands for: the file at the path that `data` is, or
/// the bytes that a data URL holds in base64.
pub fn read_image_data(data: &str, purpose: Purpose) -> (image: Result<ImageData, GrabError>)
    ensures
        match input_kind(data@) {
            InputView::Path(path) => image matches Ok(found) && found@ == DataView::File(path),
            InputView::Malformed => image matches Err(error) && error@ == ErrorView::InvalidRequest(
                "Invalid data URL"@,
            ),
            InputView::Encoded(payload) => match base64_decoding(payload) {
                Some(bytes) => image matches Ok(found) && found@ == DataView::Bytes(bytes),
                None => image matches Err(error) && exists|detail: Seq<char>|
                    error@ == #[trigger] refusal(purpose, detail),
            },
        },
{
    let input = classify_input(data);
    let decoded = match &input {
        ImageInput::Encoded(payload) => match decode_base64(payload.as_str()) {
            Ok(bytes) => Ok(bytes),
            Err(error) => Err(decode_error_text(&error)),
        },
        _ => Err(String::new()),
    };
    resolve_input(input, decoded, purpose)
}

/// The name that a saved image is offered under: the one given, else `capture.png`.
pub fn default_save_name(default_path: Option<String>) -> (name: String)
    ensures
        name@ == match default_path {
            Some(given) => given@,
            None => "capture.png"@,
        },
{
    match default_path {
        Some(given) => given,
        None => "capture.png".to_string(),
    }
}

/// The formats that a capture is exported in.
#[derive(Debug, Clone, Copy, PartialEq, Eq, Structural)]
pub enum ExportFormat {
    Jpeg,
    Png,
}

/// The format that `format` asks for: JPEG for `jpeg` and `jpg`, else PNG.
pub open spec fn format_named(format: Seq<char>) -> ExportFormat {
    if format == "jpeg"@ || format == "jpg"@ {
        ExportFormat::Jpeg
    } else {
        ExportFormat::Png
    }
}

impl ExportFormat {
    /// The extension of files in the format.
    pub open spec fn suffix(self) -> Seq<char> {
        match self {
            ExportFormat::Jpeg => "jpg"@,
            ExportFormat::Png => "png"@,
        }
    }

    /// The format that `format` asks for: JPEG for `jpeg` and `jpg`, else PNG.
    pub fn named(format: &str) -> (chosen: Self)
        ensures
            chosen == format_named(format@),
    {
        if *format == *"jpeg" || *format == *"jpg" {
            ExportFormat::Jpeg
        } else {
            ExportFormat::Png
        }
    }

    /// The extension of files in the format.
    pub fn extension(self) -> (suffix: &'static str)
        ensures
            suffix@ == self.suffix(),
    {
        match self {
            ExportFormat::Jpeg => "jpg",
            ExportFormat::Png => "png",
        }
    }

    /// The name that an exported capture is offered under.
    pub fn default_name(self) -> (name: String)
        ensures
            name@ == "capture."@ + self.suffix(),
    {
        "capture.".to_string().concat(self.extension())
    }
}

/// A decoded image of any kind of pixel.
#[verifier::external_type_specification]
#[verifier::external_body]
pub struct ExDynamicImage(image::DynamicImage);

/// The image that `image::load_from_memory` makes out of `bytes`, or `None`
/// where it makes out none.
pub uninterp spec fn loaded_image(bytes: Seq<u8>) -> Option<image::DynamicImage>;

/// The file that `image::DynamicImage::write_to` writes for `picture`, as a
/// JPEG file or else as a PNG file, or `None` where it writes none.
pub uninterp spec fn written_image(picture: image::DynamicImage, as_jpeg: bool) -> Option<Seq<u8>>;

/// The width, the height and the bytes of the copy that
/// `image::DynamicImage::to_rgba8` makes of `picture`.
pub uninterp spec fn rgba_copy(picture: image::DynamicImage) -> (u32, u32, Seq<u8>);

/// `true` when `copy` holds exactly the bytes of its extent, four to a pixel.
pub open spec fn fills_its_extent(copy: (u32, u32, Seq<u8>)) -> bool {
    copy.2.len() == copy.0 as int * copy.1 as int * 4
}

/// `image::load_from_memory`: the image that the bytes of a file hold, in a
/// format that the codec makes out from the bytes. Whether there is one, and
/// which, is a function of the bytes. The codec decodes into a buffer of
/// exactly the extent of the image, and a copy of other pixels is made in a
/// buffer of that extent too: the RGBA copy of a loaded image holds exactly
/// the bytes of its extent.
#[verifier::external_body]
fn load_image(bytes: &Vec<u8>) -> (loaded: Result<image::DynamicImage, image::ImageError>)
    ensures
        match loaded {
            Ok(picture) => loaded_image(bytes@) == Some(picture) && fills_its_extent(
                rgba_copy(picture),
            ),
            Err(_) => loaded_image(bytes@) is None,
        },
{
    image::load_from_memory(bytes)
}

/// `image::DynamicImage::write_to` into memory, in the format given. Whether
/// the image can be written so, and the file that is written, is a function
/// of the image and the format.
#[verifier::external_body]
fn write_image(picture: &image::DynamicImage, format: ExportFormat) -> (file: Result<
    Vec<u8>,
    image::ImageError,
>)
    ensures
        match file {
            Ok(bytes) => written_image(*picture, format == ExportFormat::Jpeg) == Some(bytes@),
            Err(_) => written_image(*picture, format == ExportFormat::Jpeg) is None,
        },
{
    let mut file = std::io::Cursor::new(Vec::new());
    let written = match format {
        ExportFormat::Jpeg => picture.write_to(&mut file, image::ImageFormat::Jpeg),
        ExportFormat::Png => picture.write_to(&mut file, image::ImageFormat::Png),
    };
    written.map(|_| file.into_inner())
}

/// `image::DynamicImage::to_rgba8`, with its extent and its bytes: they are a
/// function of the image.
#[verifier::external_body]
fn rgba_pixels(picture: &image::DynamicImage) -> (pixels: Bitmap)
    ensures
        (pixels.width, pixels.height, pixels.data@) == rgba_copy(*picture),
{
    let copy = picture.to_rgba8();
    Bitmap { width: copy.width(), height: copy.height(), data: copy.into_raw() }
}

/// What becomes of an image that the codec was asked for: the image, or, where
/// the codec failed with the description `detail`, the failure that the
/// purpose has for it.
pub fn image_outcome<T>(outcome: Result<T, String>, purpose: Purpose) -> (settled: Result<
    T,
    GrabError,
>)
    ensures
        match outcome {
            Ok(image) => settled == Ok::<T, GrabError>(image),
            Err(detail) => settled matches Err(error) && error@ == refusal(purpose, detail@),
        },
{
    match outcome {
        Ok(image) => Ok(image),
        Err(detail) => Err(refuse(purpose, detail)),
    }
}

/// The file that an export of `bytes` in the format `format` gives: the file
/// that the codec writes for the image that it makes out of `bytes`; `None`
/// where the bytes hold no image or the format has no place for the image.
pub open spec fn exported_file(bytes: Seq<u8>, format: ExportFormat) -> Option<Seq<u8>> {
    match loaded_image(bytes) {
        Some(picture) => written_image(picture, format == ExportFormat::Jpeg),
        None => None,
    }
}

/// The width, the height and the bytes, four to a pixel, of the image that
/// the codec makes out of `bytes`; `None` where the bytes hold no image.
pub open spec fn clipboard_pixels(bytes: Seq<u8>) -> Option<(u32, u32, Seq<u8>)> {
    match loaded_image(bytes) {
        Some(picture) => Some(rgba_copy(picture)),
        None => None,
    }
}

/// The file that holds the image of `bytes` in the format that `format` asks
/// for, for the caller to write where the user chose. Bytes that hold no
/// image, and an image that the format has no place for, fail the export.
pub fn export_capture(bytes: &Vec<u8>, format: &str) -> (file: Result<Vec<u8>, GrabError>)
    ensures
        match exported_file(bytes@, format_named(format@)) {
            Some(written) => file matches Ok(exported) && exported@ == written,
            None => file matches Err(error) && error is ExportFailed,
        },
{
    let written = match load_image(bytes) {
        Ok(picture) => match write_image(&picture, ExportFormat::named(format)) {
            Ok(file) => Ok(file),
            Err(error) => Err(image_error_text(&error)),
        },
        Err(error) => Err(image_error_text(&error)),
    };
    image_outcome(written, Purpose::File)
}

/// The pixels of the image of `bytes`, for the caller to put on the
/// clipboard. Bytes that hold no image fail as the clipboard does.
pub fn copy_to_clipboard(bytes: &Vec<u8>) -> (pixels: Result<Bitmap, GrabError>)
    ensures
        match clipboard_pixels(bytes@) {
            Some(copy) => pixels matches Ok(picture) && (
                picture.width,
                picture.height,
                picture.data@,
            ) == copy,
            None => pixels matches Err(error) && error is ClipboardFailed,
        },
        pixels matches Ok(picture) ==> picture.wf(),
{
    let copied = match load_image(bytes) {
        Ok(picture) => Ok(rgba_pixels(&picture)),
        Err(error) => Err(image_error_text(&error)),
    };
    image_outcome(copied, Purpose::Clipboard)
}

} // verus!
