//! Preview images of a clip, made once and then served from the project's
//! cache.
//!
//! An image is cached by the clip's id and the requested width. A request
//! first looks for the cached file and is served from it if it is there;
//! only otherwise the clip is looked up in the saved editor state and the
//! media tool is run. A clip without sound has no waveform: that is an
//! outcome of its own, not a failure.

use vstd::prelude::*;
use crate::projects::paths::{cache_file_name, joined, ProjectPaths};
use crate::text::prefixed;
use crate::video_editor::concat::{Task, TaskView};
use crate::video_editor::ffmpeg::{
    spawn_failure_message,
    tool_failure_message,
    tool_missing_message,
    verify_ffmpeg_available,
};
use crate::video_editor::job::{failure_detail, failure_text, is_failure, Event, EventView};
use crate::video_editor::sprite::{generate_sprite_image, sprite_args};
use crate::video_editor::types::{clip_position, find_clip, EditorState, TimelineClip};
use crate::video_editor::waveform::{
    generate_waveform_image,
    has_no_audio,
    reports_no_audio,
    waveform_args,
};

verus! {

/// Which preview image is asked for.
#[derive(Debug, Clone, Copy, PartialEq, Eq, Structural)]
pub enum ThumbnailKind {
    Waveform,
    Sprite,
}

/// Where a request stands.
#[derive(Debug, Clone, Copy, PartialEq, Eq, Structural)]
pub enum ThumbnailPhase {
    /// Nothing was done yet.
    Created,
    /// The cache directory is being made.
    MakingDir,
    /// The cached file is being looked for.
    Probing,
    /// The editor state is being read.
    Loading,
    /// The media tool is running.
    Rendering,
    /// The request has ended.
    Finished,
}

/// What the host reports of the step it was given last.
#[derive(Debug)]
pub enum ThumbnailEvent {
    /// How making the directory, or running the media tool, went.
    Reported(Event),
    /// Whether the file looked for is there.
    Found(bool),
    /// The editor state as saved, or `None` where none was saved.
    Loaded(Option<EditorState>),
}

/// A [`ThumbnailEvent`] as text; of the editor state only the clips count.
pub enum ThumbnailEventView {
    Reported(EventView),
    Found(bool),
    Loaded(Option<Seq<TimelineClip>>),
}

impl View for ThumbnailEvent {
    type V = ThumbnailEventView;

    open spec fn view(&self) -> ThumbnailEventView {
        match self {
            ThumbnailEvent::Reported(e) => ThumbnailEventView::Reported(e@),
            ThumbnailEvent::Found(found) => ThumbnailEventView::Found(*found),
            ThumbnailEvent::Loaded(Some(state)) => ThumbnailEventView::Loaded(Some(state.clips@)),
            ThumbnailEvent::Loaded(None) => ThumbnailEventView::Loaded(None),
        }
    }
}

/// How a request ends.
pub enum Outcome {
    /// The image is in this file.
    Image(Seq<char>),
    /// There is nothing to show: the clip has no sound.
    NoPreview,
    /// The request failed.
    Failed(Seq<char>),
}

/// The outcome that a result stands for.
pub open spec fn outcome_of(result: Result<Option<String>, String>) -> Outcome {
    match result {
        Ok(Some(path)) => Outcome::Image(path@),
        Ok(None) => Outcome::NoPreview,
        Err(e) => Outcome::Failed(e@),
    }
}

/// What the host is to do next.
#[derive(Debug, PartialEq, Eq)]
pub enum ThumbnailStep {
    /// Create the directory `path` and what is missing above it.
    CreateDir { path: String },
    /// Tell whether the file `path` is there.
    Probe { path: String },
    /// Read the saved editor state of the project.
    LoadState,
    /// Perform the task and report how it went.
    Perform(Task),
    /// Nothing is left to do: the path of the image, `None` where there is
    /// nothing to show, or the failure.
    Finish { result: Result<Option<String>, String> },
}

/// A [`ThumbnailStep`] as text.
pub enum ThumbnailStepView {
    CreateDir { path: Seq<char> },
    Probe { path: Seq<char> },
    LoadState,
    Perform(TaskView),
    Finish { outcome: Outcome },
}

impl View for ThumbnailStep {
    type V = ThumbnailStepView;

    open spec fn view(&self) -> ThumbnailStepView {
        match self {
            ThumbnailStep::CreateDir { path } => ThumbnailStepView::CreateDir { path: path@ },
            ThumbnailStep::Probe { path } => ThumbnailStepView::Probe { path: path@ },
            ThumbnailStep::LoadState => ThumbnailStepView::LoadState,
            ThumbnailStep::Perform(task) => ThumbnailStepView::Perform(task@),
            ThumbnailStep::Finish { result } => ThumbnailStepView::Finish {
                outcome: outcome_of(*result),
            },
        }
    }
}

/// The state of a request.
pub struct ThumbnailView {
    pub kind: ThumbnailKind,
    pub clip_id: Seq<char>,
    pub width: int,
    pub height: int,
    pub cache_dir: Seq<char>,
    pub cache_file: Seq<char>,
    pub phase: ThumbnailPhase,
    pub outcome: Option<Outcome>,
}

/// The directory in which the project at `root` caches images of `kind`.
pub open spec fn cache_dir_of(kind: ThumbnailKind, root: Seq<char>) -> Seq<char> {
    joined(
        joined(root, ".sixseven"@),
        if kind == ThumbnailKind::Waveform {
            "waveforms"@
        } else {
            "sprites"@
        },
    )
}

/// The file in which the image of `kind` of the clip `clip_id` at `width`
/// pixels is cached.
pub open spec fn cache_file_of(kind: ThumbnailKind, root: Seq<char>, clip_id: Seq<char>, width: int) -> Seq<
    char,
> {
    joined(cache_dir_of(kind, root), cache_file_name(clip_id, width as nat))
}

/// A request on which nothing was done yet.
pub open spec fn fresh_thumbnail(
    kind: ThumbnailKind,
    root: Seq<char>,
    clip_id: Seq<char>,
    width: int,
    height: int,
) -> ThumbnailView {
    ThumbnailView {
        kind,
        clip_id,
        width,
        height,
        cache_dir: cache_dir_of(kind, root),
        cache_file: cache_file_of(kind, root, clip_id, width),
        phase: ThumbnailPhase::Created,
        outcome: None,
    }
}

/// Name of the operation that renders an image of `kind`.
pub open spec fn render_op(kind: ThumbnailKind) -> Seq<char> {
    if kind == ThumbnailKind::Waveform {
        "generate waveform"@
    } else {
        "generate sprite"@
    }
}

/// The message for a cache directory that could not be made.
pub open spec fn dir_failure_text(kind: ThumbnailKind, detail: Seq<char>) -> Seq<char> {
    if kind == ThumbnailKind::Waveform {
        "Failed to create waveforms cache directory: "@ + detail
    } else {
        "Failed to create sprites cache directory: "@ + detail
    }
}

/// The message for an image that could not be rendered: that of a waveform
/// says that the clip may have no sound.
pub open spec fn render_failure_text(kind: ThumbnailKind, message: Seq<char>) -> Seq<char> {
    if kind == ThumbnailKind::Waveform {
        "Waveform generation failed (video may not have audio): "@ + message
    } else {
        message
    }
}

/// The message for a clip that the editor state does not hold.
pub open spec fn clip_missing_text(clip_id: Seq<char>) -> Seq<char> {
    "Clip "@ + clip_id + " not found"@
}

/// The task that renders the image for `s` from `clip`, or the failure where
/// the clip's trimmed interval is empty or runs backwards.
pub open spec fn render_task(s: ThumbnailView, clip: TimelineClip) -> Result<TaskView, Seq<char>> {
    if clip.trim_end <= clip.trim_start {
        Err(
            render_failure_text(
                s.kind,
                "Invalid duration: trim_end must be greater than trim_start"@,
            ),
        )
    } else {
        Ok(
            TaskView::Run {
                args: if s.kind == ThumbnailKind::Waveform {
                    waveform_args(
                        clip.video_path@,
                        clip.trim_start as int,
                        clip.trim_end as int,
                        s.cache_file,
                        s.width,
                        s.height,
                    )
                } else {
                    sprite_args(
                        clip.video_path@,
                        clip.trim_start as int,
                        clip.trim_end as int,
                        s.cache_file,
                        s.width,
                        s.height,
                    )
                },
                op: render_op(s.kind),
            },
        )
    }
}

/// The request ended with `outcome`.
pub open spec fn finished(s: ThumbnailView, outcome: Outcome) -> (ThumbnailView, ThumbnailStepView) {
    (
        ThumbnailView { phase: ThumbnailPhase::Finished, outcome: Some(outcome), ..s },
        ThumbnailStepView::Finish { outcome },
    )
}

/// Whether `event` reports a failure of the step before it.
pub open spec fn reports_failure(event: ThumbnailEventView) -> bool {
    event matches ThumbnailEventView::Reported(e) && is_failure(e)
}

/// What the media tool's failure means for the request: a waveform whose
/// clip has no sound is not there to be shown; every other failure is one.
pub open spec fn render_failure(kind: ThumbnailKind, event: EventView) -> Outcome {
    if kind == ThumbnailKind::Waveform && (event matches EventView::ToolFailed(stderr)
        && reports_no_audio(stderr)) {
        Outcome::NoPreview
    } else {
        Outcome::Failed(
            render_failure_text(
                kind,
                failure_text(
                    TaskView::Run { args: Seq::<Seq<char>>::empty(), op: render_op(kind) },
                    event,
                ),
            ),
        )
    }
}

/// The state after `event`, and the step the host is given.
///
/// The cache directory is made first. Then the cached file is looked for:
/// if it is there the request ends with it, and the media tool is not run.
/// Otherwise the editor state is read, the clip looked up in it, and the
/// image rendered into the cached file.
pub open spec fn thumbnail_step(s: ThumbnailView, event: ThumbnailEventView) -> (
    ThumbnailView,
    ThumbnailStepView,
) {
    match s.phase {
        ThumbnailPhase::Created => (
            ThumbnailView { phase: ThumbnailPhase::MakingDir, ..s },
            ThumbnailStepView::CreateDir { path: s.cache_dir },
        ),
        ThumbnailPhase::MakingDir => if reports_failure(event) {
            finished(
                s,
                Outcome::Failed(
                    dir_failure_text(s.kind, failure_detail(event->Reported_0)),
                ),
            )
        } else {
            (
                ThumbnailView { phase: ThumbnailPhase::Probing, ..s },
                ThumbnailStepView::Probe { path: s.cache_file },
            )
        },
        ThumbnailPhase::Probing => if event == ThumbnailEventView::Found(true) {
            finished(s, Outcome::Image(s.cache_file))
        } else {
            (ThumbnailView { phase: ThumbnailPhase::Loading, ..s }, ThumbnailStepView::LoadState)
        },
        ThumbnailPhase::Loading => match event {
            ThumbnailEventView::Loaded(Some(clips)) => match clip_position(clips, s.clip_id) {
                Some(i) => match render_task(s, clips[i]) {
                    Ok(task) => (
                        ThumbnailView { phase: ThumbnailPhase::Rendering, ..s },
                        ThumbnailStepView::Perform(task),
                    ),
                    Err(message) => finished(s, Outcome::Failed(message)),
                },
                None => finished(s, Outcome::Failed(clip_missing_text(s.clip_id))),
            },
            _ => if reports_failure(event) {
                finished(
                    s,
                    Outcome::Failed(
                        "Failed to load editor state: "@ + failure_detail(event->Reported_0),
                    ),
                )
            } else {
                finished(s, Outcome::Failed("Editor state not found"@))
            },
        },
        ThumbnailPhase::Rendering => if reports_failure(event) {
            finished(s, render_failure(s.kind, event->Reported_0))
        } else {
            finished(s, Outcome::Image(s.cache_file))
        },
        ThumbnailPhase::Finished => (
            s,
            ThumbnailStepView::Finish {
                outcome: match s.outcome {
                    Some(outcome) => outcome,
                    None => Outcome::NoPreview,
                },
            },
        ),
    }
}

/// A request for a preview image, being carried out.
pub struct ThumbnailJob {
    kind: ThumbnailKind,
    clip_id: String,
    width: u32,
    height: u32,
    cache_dir: String,
    cache_file: String,
    phase: ThumbnailPhase,
    result: Option<Result<Option<String>, String>>,
}

impl View for ThumbnailJob {
    type V = ThumbnailView;

    closed spec fn view(&self) -> ThumbnailView {
        ThumbnailView {
            kind: self.kind,
            clip_id: self.clip_id@,
            width: self.width as int,
            height: self.height as int,
            cache_dir: self.cache_dir@,
            cache_file: self.cache_file@,
            phase: self.phase,
            outcome: match self.result {
                Some(result) => Some(outcome_of(result)),
                None => None,
            },
        }
    }
}

/// A copy of `result`.
fn clone_result(result: &Result<Option<String>, String>) -> (copy: Result<Option<String>, String>)
    ensures
        outcome_of(copy) == outcome_of(*result),
{
    match result {
        Ok(Some(path)) => Ok(Some(path.clone())),
        Ok(None) => Ok(None),
        Err(e) => Err(e.clone()),
    }
}

/// Builds [`render_failure_text`].
fn build_render_failure_text(kind: ThumbnailKind, message: String) -> (text: String)
    ensures
        text@ == render_failure_text(kind, message@),
{
    match kind {
        ThumbnailKind::Waveform => prefixed(
            "Waveform generation failed (video may not have audio): ",
            message.as_str(),
        ),
        ThumbnailKind::Sprite => message,
    }
}

impl ThumbnailJob {
    #[verifier::type_invariant]
    spec fn ended_with_result(self) -> bool {
        self.phase == ThumbnailPhase::Finished ==> self.result is Some
    }

    /// A request for the image of `kind` of the clip `clip_id`, `width`
    /// pixels wide and `height` high, in the project `project`. What stands
    /// in the way is reported in this order: a media tool that cannot be
    /// used, then a project that could not be found, whose error is handed
    /// on.
    pub fn new(
        kind: ThumbnailKind,
        host_available: bool,
        tool_found: bool,
        project: Result<ProjectPaths, String>,
        clip_id: &str,
        width: u32,
        height: u32,
    ) -> (r: Result<ThumbnailJob, String>)
        ensures
            !host_available ==> r is Err && r->Err_0@ == "AppHandle not available"@,
            host_available && !tool_found ==> r is Err && r->Err_0@
                == "FFmpeg sidecar not found. Please ensure it's bundled with the app."@,
            host_available && tool_found && project is Err ==> r is Err && r->Err_0
                == project->Err_0,
            host_available && tool_found && project is Ok ==> r is Ok && r->Ok_0@
                == fresh_thumbnail(kind, project->Ok_0@, clip_id@, width as int, height as int),
    {
        match verify_ffmpeg_available(host_available, tool_found) {
            Err(e) => {
                return Err(e);
            },
            Ok(_) => {},
        }
        let paths = match project {
            Ok(paths) => paths,
            Err(e) => {
                return Err(e);
            },
        };
        let (cache_dir, cache_file) = match kind {
            ThumbnailKind::Waveform => (paths.waveforms_dir(), paths.waveform_file(clip_id, width)),
            ThumbnailKind::Sprite => (paths.sprites_dir(), paths.sprite_file(clip_id, width)),
        };
        Ok(
            ThumbnailJob {
                kind,
                clip_id: String::from_str(clip_id),
                width,
                height,
                cache_dir,
                cache_file,
                phase: ThumbnailPhase::Created,
                result: None,
            },
        )
    }

    /// The file in which the image is cached.
    pub fn cache_file(&self) -> (path: &str)
        ensures
            path@ == self@.cache_file,
    {
        self.cache_file.as_str()
    }

    /// Ends the request with `result`.
    fn finish(&mut self, result: Result<Option<String>, String>) -> (step: ThumbnailStep)
        ensures
            (final(self)@, step@) == finished(old(self)@, outcome_of(result)),
    {
        let copy = clone_result(&result);
        self.result = Some(copy);
        self.phase = ThumbnailPhase::Finished;
        ThumbnailStep::Finish { result }
    }

    /// The task that renders the image from `clip`: see [`render_task`].
    fn build_render_task(&self, clip: &TimelineClip) -> (r: Result<Task, String>)
        ensures
            match render_task(self@, *clip) {
                Ok(task) => r is Ok && r->Ok_0@ == task,
                Err(message) => r is Err && r->Err_0@ == message,
            },
    {
        let rendered = match self.kind {
            ThumbnailKind::Waveform => generate_waveform_image(
                clip.video_path.as_str(),
                clip.trim_start,
                clip.trim_end,
                self.cache_file.as_str(),
                self.width,
                self.height,
            ),
            ThumbnailKind::Sprite => generate_sprite_image(
                clip.video_path.as_str(),
                clip.trim_start,
                clip.trim_end,
                self.cache_file.as_str(),
                self.width,
                self.height,
            ),
        };
        match rendered {
            Ok(task) => Ok(task),
            Err(message) => Err(build_render_failure_text(self.kind, message)),
        }
    }

    /// What the failure `event` of the media tool means: see
    /// [`render_failure`].
    fn build_render_failure(&self, event: &Event, detail: &str) -> (result: Result<
        Option<String>,
        String,
    >)
        requires
            is_failure(event@),
            detail@ == failure_detail(event@),
        ensures
            outcome_of(result) == render_failure(self@.kind, event@),
    {
        let op = match self.kind {
            ThumbnailKind::Waveform => "generate waveform",
            ThumbnailKind::Sprite => "generate sprite",
        };
        match event {
            Event::ToolFailed(_) => {
                if self.kind == ThumbnailKind::Waveform && has_no_audio(detail) {
                    Ok(None)
                } else {
                    Err(build_render_failure_text(self.kind, tool_failure_message(op, detail)))
                }
            },
            Event::ToolMissing(_) => Err(
                build_render_failure_text(self.kind, tool_missing_message(detail)),
            ),
            _ => Err(build_render_failure_text(self.kind, spawn_failure_message(op, detail))),
        }
    }

    /// Takes what the host reports of the last step and gives the next one:
    /// see [`thumbnail_step`].
    pub fn step(&mut self, event: &ThumbnailEvent) -> (step: ThumbnailStep)
        ensures
            (final(self)@, step@) == thumbnail_step(old(self)@, event@),
    {
        proof {
            use_type_invariant(&*self);
        }
        let failed: Option<(&Event, &str)> = match event {
            ThumbnailEvent::Reported(e) => match e.failure() {
                Some(detail) => Some((e, detail)),
                None => None,
            },
            _ => None,
        };
        assert(failed is Some <==> reports_failure(event@));
        match self.phase {
            ThumbnailPhase::Created => {
                self.phase = ThumbnailPhase::MakingDir;
                ThumbnailStep::CreateDir { path: self.cache_dir.clone() }
            },
            ThumbnailPhase::MakingDir => match failed {
                Some((_, detail)) => {
                    let message = match self.kind {
                        ThumbnailKind::Waveform => prefixed(
                            "Failed to create waveforms cache directory: ",
                            detail,
                        ),
                        ThumbnailKind::Sprite => prefixed(
                            "Failed to create sprites cache directory: ",
                            detail,
                        ),
                    };
                    self.finish(Err(message))
                },
                None => {
                    self.phase = ThumbnailPhase::Probing;
                    ThumbnailStep::Probe { path: self.cache_file.clone() }
                },
            },
            ThumbnailPhase::Probing => {
                let hit = match event {
                    ThumbnailEvent::Found(found) => *found,
                    _ => false,
                };
                if hit {
                    let path = self.cache_file.clone();
                    self.finish(Ok(Some(path)))
                } else {
                    self.phase = ThumbnailPhase::Loading;
                    ThumbnailStep::LoadState
                }
            },
            ThumbnailPhase::Loading => match event {
                ThumbnailEvent::Loaded(Some(state)) => {
                    match find_clip(state.clips.as_slice(), self.clip_id.as_str()) {
                        Some(i) => match self.build_render_task(&state.clips[i]) {
                            Ok(task) => {
                                self.phase = ThumbnailPhase::Rendering;
                                ThumbnailStep::Perform(task)
                            },
                            Err(message) => self.finish(Err(message)),
                        },
                        None => {
                            let mut message = String::from_str("Clip ");
                            message.append(self.clip_id.as_str());
                            message.append(" not found");
                            self.finish(Err(message))
                        },
                    }
                },
                _ => match failed {
                    Some((_, detail)) => self.finish(
                        Err(prefixed("Failed to load editor state: ", detail)),
                    ),
                    None => self.finish(Err(String::from_str("Editor state not found"))),
                },
            },
            ThumbnailPhase::Rendering => match failed {
                Some((e, detail)) => {
                    let result = self.build_render_failure(e, detail);
                    self.finish(result)
                },
                None => {
                    let path = self.cache_file.clone();
                    self.finish(Ok(Some(path)))
                },
            },
            ThumbnailPhase::Finished => {
                let result = match &self.result {
                    Some(result) => clone_result(result),
                    None => Ok(None),
                };
                ThumbnailStep::Finish { result }
            },
        }
    }
}

/// A request for the waveform of a clip: see [`ThumbnailJob::new`].
pub fn generate_clip_waveform(
    host_available: bool,
    tool_found: bool,
    project: Result<ProjectPaths, String>,
    clip_id: &str,
    width: u32,
    height: u32,
) -> (r: Result<ThumbnailJob, String>)
    ensures
        !host_available ==> r is Err && r->Err_0@ == "AppHandle not available"@,
        host_available && !tool_found ==> r is Err && r->Err_0@
            == "FFmpeg sidecar not found. Please ensure it's bundled with the app."@,
        host_available && tool_found && project is Err ==> r is Err && r->Err_0 == project->Err_0,
        host_available && tool_found && project is Ok ==> r is Ok && r->Ok_0@ == fresh_thumbnail(
            ThumbnailKind::Waveform,
            project->Ok_0@,
            clip_id@,
            width as int,
            height as int,
        ),
{
    ThumbnailJob::new(
        ThumbnailKind::Waveform,
        host_available,
        tool_found,
        project,
        clip_id,
        width,
        height,
    )
}

/// A request for the sprite of a clip: see [`ThumbnailJob::new`].
pub fn generate_clip_sprite(
    host_available: bool,
    tool_found: bool,
    project: Result<ProjectPaths, String>,
    clip_id: &str,
    width: u32,
    height: u32,
) -> (r: Result<ThumbnailJob, String>)
    ensures
        !host_available ==> r is Err && r->Err_0@ == "AppHandle not available"@,
        host_available && !tool_found ==> r is Err && r->Err_0@
            == "FFmpeg sidecar not found. Please ensure it's bundled with the app."@,
        host_available && tool_found && project is Err ==> r is Err && r->Err_0 == project->Err_0,
        host_available && tool_found && project is Ok ==> r is Ok && r->Ok_0@ == fresh_thumbnail(
            ThumbnailKind::Sprite,
            project->Ok_0@,
            clip_id@,
            width as int,
            height as int,
        ),
{
    ThumbnailJob::new(
        ThumbnailKind::Sprite,
        host_available,
        tool_found,
        project,
        clip_id,
        width,
        height,
    )
}

/// A cached image is served as it is: a request that finds its file ends at
/// once with that file, and the media tool is not run, then or later. The
/// file depends on the project, the kind of image, the clip's id and the
/// width alone, so a second request for the same image looks for the very
/// file that the first one rendered into.
pub proof fn lemma_cached_image_is_served(
    s: ThumbnailView,
    root: Seq<char>,
    height: int,
    later: ThumbnailEventView,
)
    requires
        s == (ThumbnailView {
            phase: ThumbnailPhase::Probing,
            ..fresh_thumbnail(s.kind, root, s.clip_id, s.width, s.height)
        }),
    ensures
        thumbnail_step(s, ThumbnailEventView::Found(true)).1 == (ThumbnailStepView::Finish {
            outcome: Outcome::Image(s.cache_file),
        }),
        thumbnail_step(s, ThumbnailEventView::Found(true)).0.phase == ThumbnailPhase::Finished,
        !(thumbnail_step(thumbnail_step(s, ThumbnailEventView::Found(true)).0, later).1
            is Perform),
        fresh_thumbnail(s.kind, root, s.clip_id, s.width, height).cache_file == s.cache_file,
        forall|clip: TimelineClip| #[trigger]
            render_task(s, clip) matches Ok(TaskView::Run { args, .. }) ==> args.last()
                == s.cache_file,
{
}

/// A clip without sound has no waveform, and that is no failure: when the
/// media tool, asked for a waveform, reports that the audio stream is not
/// there, the request ends with nothing to show.
pub proof fn lemma_no_audio_is_no_preview(s: ThumbnailView, stderr: Seq<char>)
    requires
        s.kind == ThumbnailKind::Waveform,
        s.phase == ThumbnailPhase::Rendering,
        reports_no_audio(stderr),
    ensures
        thumbnail_step(s, ThumbnailEventView::Reported(EventView::ToolFailed(stderr))).1 == (
        ThumbnailStepView::Finish { outcome: Outcome::NoPreview }),
{
}

/// A request ends after at most five steps, and once ended it stays ended
/// with the same outcome.
pub proof fn lemma_thumbnail_ends(s: ThumbnailView, event: ThumbnailEventView)
    ensures
        phase_rank(thumbnail_step(s, event).0.phase) > phase_rank(s.phase) || (s.phase
            == ThumbnailPhase::Finished && thumbnail_step(s, event).0 == s),
        thumbnail_step(s, event).1 is Finish <==> thumbnail_step(s, event).0.phase
            == ThumbnailPhase::Finished,
{
}

/// The phases in the order in which a request passes through them.
pub open spec fn phase_rank(phase: ThumbnailPhase) -> int {
    match phase {
        ThumbnailPhase::Created => 0,
        ThumbnailPhase::MakingDir => 1,
        ThumbnailPhase::Probing => 2,
        ThumbnailPhase::Loading => 3,
        ThumbnailPhase::Rendering => 4,
        ThumbnailPhase::Finished => 5,
    }
}

} // verus!
