//! Joining clips into one file.
//!
//! Two ways lead there. Without transitions every clip is cut without
//! re-encoding and the cuts are joined by a manifest. With transitions every
//! clip is re-encoded to one profile, and a single run of the media tool
//! cross-fades them through the filter graph. Either way is laid out here as
//! a plan: the tasks in the order in which the host performs them, and the
//! files to remove afterwards.

use vstd::prelude::*;
use crate::projects::paths::{joined, ProjectPaths};
use crate::text::{push_text, seconds_text, texts};
use crate::video_editor::ffmpeg::{
    build_concat_args,
    build_encode_args,
    build_manifest,
    build_manifest_path,
    build_temp_clip_path,
    build_temp_clip_paths,
    build_transition_args,
    build_trim_args,
    concat_args,
    encode_args,
    manifest_path,
    manifest_text,
    temp_clip_path,
    temp_clip_paths,
    transition_args,
    trim_args,
    verify_ffmpeg_available,
};
use crate::video_editor::filters::{
    build_transition_filter,
    build_transition_filter_complex,
    transition_filter,
    transition_filter_complex,
};
use crate::video_editor::timeline::{check_timeline, timeline_fits};
use crate::video_editor::types::TimelineClip;

verus! {

/// One piece of work that the host performs.
#[derive(Debug, Clone, PartialEq, Eq)]
pub enum Task {
    /// Create the directory `path` and what is missing above it.
    CreateDir { path: String },
    /// Run the media tool with `args`; `op` names the operation in messages.
    Run { args: Vec<String>, op: String },
    /// Write `contents` to the file `path`.
    WriteFile { path: String, contents: String },
}

/// A [`Task`] as text.
pub enum TaskView {
    CreateDir { path: Seq<char> },
    Run { args: Seq<Seq<char>>, op: Seq<char> },
    WriteFile { path: Seq<char>, contents: Seq<char> },
}

impl View for Task {
    type V = TaskView;

    open spec fn view(&self) -> TaskView {
        match self {
            Task::CreateDir { path } => TaskView::CreateDir { path: path@ },
            Task::Run { args, op } => TaskView::Run { args: texts(args@), op: op@ },
            Task::WriteFile { path, contents } => TaskView::WriteFile {
                path: path@,
                contents: contents@,
            },
        }
    }
}

/// The views of a list of tasks.
pub open spec fn task_views(tasks: Seq<Task>) -> Seq<TaskView> {
    Seq::new(tasks.len(), |i: int| tasks[i]@)
}

/// What it takes to produce one output file.
#[derive(Debug, Clone, PartialEq, Eq)]
pub struct ConcatPlan {
    /// The file that the work produces.
    pub output: String,
    /// The work, in the order in which it is done. A task is started only
    /// when all before it have succeeded.
    pub tasks: Vec<Task>,
    /// Files to remove when the work has ended, however it ended.
    pub cleanup: Vec<String>,
    /// Files to remove as well when a task has failed.
    pub cleanup_on_failure: Vec<String>,
}

/// A [`ConcatPlan`] as text.
pub struct PlanView {
    pub output: Seq<char>,
    pub tasks: Seq<TaskView>,
    pub cleanup: Seq<Seq<char>>,
    pub cleanup_on_failure: Seq<Seq<char>>,
}

impl View for ConcatPlan {
    type V = PlanView;

    open spec fn view(&self) -> PlanView {
        PlanView {
            output: self.output@,
            tasks: task_views(self.tasks@),
            cleanup: texts(self.cleanup@),
            cleanup_on_failure: texts(self.cleanup_on_failure@),
        }
    }
}

/// Name of the operation that cuts the clip `id` without re-encoding.
pub open spec fn trim_op(id: Seq<char>) -> Seq<char> {
    "trim clip "@ + id
}

/// Name of the operation that re-encodes the clip `id`.
pub open spec fn prepare_op(id: Seq<char>) -> Seq<char> {
    "prepare clip "@ + id
}

/// The task that cuts `[start, end)` out of `input` into `output` without
/// re-encoding.
pub open spec fn trim_task(input: Seq<char>, start: int, end: int, output: Seq<char>) -> TaskView {
    TaskView::Run { args: trim_args(input, start, end, output), op: "trim video"@ }
}

/// The task of the fast way for clip `i`: its trimmed interval is copied to
/// the clip's intermediate file.
pub open spec fn fast_clip_task(clips: Seq<TimelineClip>, temp_dir: Seq<char>, i: int) -> TaskView {
    TaskView::Run {
        args: trim_args(
            clips[i].video_path@,
            clips[i].trim_start as int,
            clips[i].trim_end as int,
            temp_clip_path(temp_dir, i as nat),
        ),
        op: trim_op(clips[i].id@),
    }
}

/// The task of the way with transitions for clip `i`: its trimmed interval is
/// re-encoded to the clip's intermediate file.
pub open spec fn encode_clip_task(clips: Seq<TimelineClip>, temp_dir: Seq<char>, i: int) -> TaskView {
    TaskView::Run {
        args: encode_args(
            clips[i].video_path@,
            clips[i].trim_start as int,
            clips[i].trim_end as int,
            temp_clip_path(temp_dir, i as nat),
        ),
        op: prepare_op(clips[i].id@),
    }
}

/// The fast way: one cut for each clip in timeline order, then the manifest
/// that lists the cuts in that order, then the join. The cuts and the
/// manifest are removed afterwards.
pub open spec fn fast_plan(clips: Seq<TimelineClip>, output: Seq<char>, temp_dir: Seq<char>) -> PlanView {
    PlanView {
        output,
        tasks: Seq::new(clips.len(), |i: int| fast_clip_task(clips, temp_dir, i)).push(
            TaskView::WriteFile {
                path: manifest_path(temp_dir),
                contents: manifest_text(temp_clip_paths(temp_dir, clips.len())),
            },
        ).push(
            TaskView::Run {
                args: concat_args(manifest_path(temp_dir), output),
                op: "concatenate videos"@,
            },
        ),
        cleanup: temp_clip_paths(temp_dir, clips.len()).push(manifest_path(temp_dir)),
        cleanup_on_failure: Seq::<Seq<char>>::empty(),
    }
}

/// The way with transitions. A single clip is cut straight to the output,
/// without re-encoding and without a filter graph. Two clips or more are
/// re-encoded one by one in timeline order, then cross-faded in one run over
/// the graph of the clip list; the re-encoded files are removed afterwards.
pub open spec fn transition_plan(clips: Seq<TimelineClip>, output: Seq<char>, temp_dir: Seq<char>) -> PlanView {
    if clips.len() == 1 {
        PlanView {
            output,
            tasks: seq![
                trim_task(
                    clips[0].video_path@,
                    clips[0].trim_start as int,
                    clips[0].trim_end as int,
                    output,
                ),
            ],
            cleanup: Seq::<Seq<char>>::empty(),
            cleanup_on_failure: Seq::<Seq<char>>::empty(),
        }
    } else {
        PlanView {
            output,
            tasks: Seq::new(clips.len(), |i: int| encode_clip_task(clips, temp_dir, i)).push(
                TaskView::Run {
                    args: transition_args(
                        temp_clip_paths(temp_dir, clips.len()),
                        transition_filter(clips),
                        output,
                    ),
                    op: "concatenate with transitions"@,
                },
            ),
            cleanup: temp_clip_paths(temp_dir, clips.len()),
            cleanup_on_failure: Seq::<Seq<char>>::empty(),
        }
    }
}

/// Whether any clip asks for a transition.
pub open spec fn any_transition(clips: Seq<TimelineClip>) -> bool {
    exists|i: int| 0 <= i < clips.len() && (#[trigger] clips[i]).transition_type is Some
}

/// Appends `task` to `tasks`.
fn push_task(tasks: &mut Vec<Task>, task: Task)
    ensures
        task_views(final(tasks)@) == task_views(old(tasks)@).push(task@),
{
    tasks.push(task);
    assert(task_views(tasks@) =~= task_views(old(tasks)@).push(task@));
}

/// The operation name `prefix` followed by a clip's id.
fn clip_op(prefix: &str, id: &str) -> (op: String)
    ensures
        op@ == prefix@ + id@,
{
    let mut op = String::from_str(prefix);
    op.append(id);
    op
}

/// Cuts `[start, end)` out of `input` into `output` without re-encoding: the
/// task that does so.
pub fn trim_segment(input: &str, start: i64, end: i64, output: &str) -> (task: Task)
    ensures
        task@ == trim_task(input@, start as int, end as int, output@),
{
    Task::Run { args: build_trim_args(input, start, end, output), op: String::from_str("trim video") }
}

/// Lays out the fast way for `clips`: see [`fast_plan`]. An empty list is
/// refused.
pub fn concatenate_fast(clips: &[TimelineClip], output: &str, temp_dir: &str) -> (r: Result<
    ConcatPlan,
    String,
>)
    ensures
        clips@.len() == 0 ==> r is Err && r->Err_0@ == "No clips to concatenate"@,
        clips@.len() > 0 ==> r is Ok && r->Ok_0@ == fast_plan(clips@, output@, temp_dir@),
{
    if clips.len() == 0 {
        return Err(String::from_str("No clips to concatenate"));
    }
    let n = clips.len();
    let mut tasks: Vec<Task> = Vec::new();
    let mut i: usize = 0;
    assert(task_views(tasks@) =~= Seq::new(0, |k: int| fast_clip_task(clips@, temp_dir@, k)));
    while i < n
        invariant
            n == clips.len(),
            i <= n,
            task_views(tasks@) == Seq::new(i as nat, |k: int| fast_clip_task(clips@, temp_dir@, k)),
        decreases n - i,
    {
        let clip = &clips[i];
        let temp_file = build_temp_clip_path(temp_dir, i);
        let args = build_trim_args(
            clip.video_path.as_str(),
            clip.trim_start,
            clip.trim_end,
            temp_file.as_str(),
        );
        let task = Task::Run { args, op: clip_op("trim clip ", clip.id.as_str()) };
        assert(task@ == fast_clip_task(clips@, temp_dir@, i as int));
        push_task(&mut tasks, task);
        assert(task_views(tasks@) =~= Seq::new(
            (i + 1) as nat,
            |k: int| fast_clip_task(clips@, temp_dir@, k),
        ));
        i = i + 1;
    }
    let temp_files = build_temp_clip_paths(temp_dir, n);
    let list_file = build_manifest_path(temp_dir);
    push_task(
        &mut tasks,
        Task::WriteFile { path: list_file.clone(), contents: build_manifest(&temp_files) },
    );
    push_task(
        &mut tasks,
        Task::Run {
            args: build_concat_args(list_file.as_str(), output),
            op: String::from_str("concatenate videos"),
        },
    );
    let mut cleanup = temp_files;
    push_text(&mut cleanup, list_file);
    let plan = ConcatPlan {
        output: String::from_str(output),
        tasks,
        cleanup,
        cleanup_on_failure: Vec::new(),
    };
    assert(plan@.cleanup_on_failure =~= Seq::<Seq<char>>::empty());
    assert(plan@ == fast_plan(clips@, output@, temp_dir@));
    Ok(plan)
}

/// Lays out the way with transitions for `clips`: see [`transition_plan`].
/// An empty list is refused, and so is a list of two clips or more whose
/// timeline cannot be held in an `i64`. The filter graph is built here,
/// before any work is started.
pub fn concatenate_with_transitions(clips: &[TimelineClip], output: &str, temp_dir: &str) -> (r:
    Result<ConcatPlan, String>)
    ensures
        clips@.len() == 0 ==> r is Err && r->Err_0@ == "No clips to concatenate"@,
        clips@.len() >= 2 && !timeline_fits(clips@) ==> r is Err && r->Err_0@
            == "Clip times are out of range"@,
        clips@.len() == 1 || (clips@.len() >= 2 && timeline_fits(clips@)) ==> r is Ok && r->Ok_0@
            == transition_plan(clips@, output@, temp_dir@),
{
    if clips.len() == 0 {
        return Err(String::from_str("No clips to concatenate"));
    }
    if clips.len() == 1 {
        let clip = &clips[0];
        let mut tasks: Vec<Task> = Vec::new();
        push_task(
            &mut tasks,
            trim_segment(clip.video_path.as_str(), clip.trim_start, clip.trim_end, output),
        );
        let plan = ConcatPlan {
            output: String::from_str(output),
            tasks,
            cleanup: Vec::new(),
            cleanup_on_failure: Vec::new(),
        };
        assert(plan@.tasks =~= transition_plan(clips@, output@, temp_dir@).tasks);
        assert(plan@.cleanup =~= Seq::<Seq<char>>::empty());
        assert(plan@.cleanup_on_failure =~= Seq::<Seq<char>>::empty());
        return Ok(plan);
    }
    let filter_complex = match build_transition_filter(clips) {
        Ok(graph) => graph,
        Err(e) => {
            return Err(e);
        },
    };
    let n = clips.len();
    let mut tasks: Vec<Task> = Vec::new();
    let mut i: usize = 0;
    assert(task_views(tasks@) =~= Seq::new(0, |k: int| encode_clip_task(clips@, temp_dir@, k)));
    while i < n
        invariant
            n == clips.len(),
            i <= n,
            task_views(tasks@) == Seq::new(
                i as nat,
                |k: int| encode_clip_task(clips@, temp_dir@, k),
            ),
        decreases n - i,
    {
        let clip = &clips[i];
        let temp_file = build_temp_clip_path(temp_dir, i);
        let args = build_encode_args(
            clip.video_path.as_str(),
            clip.trim_start,
            clip.trim_end,
            temp_file.as_str(),
        );
        let task = Task::Run { args, op: clip_op("prepare clip ", clip.id.as_str()) };
        assert(task@ == encode_clip_task(clips@, temp_dir@, i as int));
        push_task(&mut tasks, task);
        assert(task_views(tasks@) =~= Seq::new(
            (i + 1) as nat,
            |k: int| encode_clip_task(clips@, temp_dir@, k),
        ));
        i = i + 1;
    }
    let temp_files = build_temp_clip_paths(temp_dir, n);
    push_task(
        &mut tasks,
        Task::Run {
            args: build_transition_args(&temp_files, filter_complex.as_str(), output),
            op: String::from_str("concatenate with transitions"),
        },
    );
    let plan = ConcatPlan {
        output: String::from_str(output),
        tasks,
        cleanup: temp_files,
        cleanup_on_failure: Vec::new(),
    };
    assert(plan@.cleanup_on_failure =~= Seq::<Seq<char>>::empty());
    assert(plan@ == transition_plan(clips@, output@, temp_dir@));
    Ok(plan)
}

/// The plan of a preview of the project at `root`: the directory for
/// intermediate files is made first, then the clips are joined into the
/// preview file, with transitions if any clip asks for one and the fast way
/// otherwise. A preview that failed is removed.
pub open spec fn preview_plan(clips: Seq<TimelineClip>, root: Seq<char>) -> PlanView {
    let temp_dir = joined(root, "temp"@);
    let output = joined(temp_dir, "preview.mp4"@);
    let inner = if any_transition(clips) {
        transition_plan(clips, output, temp_dir)
    } else {
        fast_plan(clips, output, temp_dir)
    };
    PlanView {
        output,
        tasks: seq![TaskView::CreateDir { path: temp_dir }] + inner.tasks,
        cleanup: inner.cleanup,
        cleanup_on_failure: seq![output],
    }
}

/// Decides [`any_transition`].
pub fn has_transitions(clips: &[TimelineClip]) -> (found: bool)
    ensures
        found == any_transition(clips@),
{
    let mut i: usize = 0;
    while i < clips.len()
        invariant
            i <= clips.len(),
            forall|k: int| 0 <= k < i ==> (#[trigger] clips@[k]).transition_type is None,
        decreases clips.len() - i,
    {
        if clips[i].transition_type.is_some() {
            return true;
        }
        i = i + 1;
    }
    false
}

/// Lays out the preview of `clips` for the project `project`: see
/// [`preview_plan`]. What stands in the way is reported in this order: a
/// media tool that cannot be used, an empty clip list, a project that could
/// not be found (its error is handed on), times that cannot be held.
pub fn create_preview_video(
    host_available: bool,
    tool_found: bool,
    clips: &[TimelineClip],
    project: Result<ProjectPaths, String>,
) -> (r: Result<ConcatPlan, String>)
    ensures
        !host_available ==> r is Err && r->Err_0@ == "AppHandle not available"@,
        host_available && !tool_found ==> r is Err && r->Err_0@
            == "FFmpeg sidecar not found. Please ensure it's bundled with the app."@,
        host_available && tool_found && clips@.len() == 0 ==> r is Err && r->Err_0@
            == "No clips to preview"@,
        host_available && tool_found && clips@.len() > 0 && project is Err ==> r is Err
            && r->Err_0 == project->Err_0,
        host_available && tool_found && clips@.len() > 0 && project is Ok && preview_refused(clips@)
            ==> r is Err && r->Err_0@ == "Clip times are out of range"@,
        host_available && tool_found && clips@.len() > 0 && project is Ok && !preview_refused(
            clips@,
        ) ==> r is Ok && r->Ok_0@ == preview_plan(clips@, project->Ok_0@),
{
    match verify_ffmpeg_available(host_available, tool_found) {
        Err(e) => {
            return Err(e);
        },
        Ok(_) => {},
    }
    if clips.len() == 0 {
        return Err(String::from_str("No clips to preview"));
    }
    let paths = match project {
        Ok(paths) => paths,
        Err(e) => {
            return Err(e);
        },
    };
    let temp_dir = paths.temp_dir();
    let output_path = paths.preview_file();
    let inner = if has_transitions(clips) {
        concatenate_with_transitions(clips, output_path.as_str(), temp_dir.as_str())
    } else {
        concatenate_fast(clips, output_path.as_str(), temp_dir.as_str())
    };
    let inner = match inner {
        Ok(plan) => plan,
        Err(e) => {
            return Err(e);
        },
    };
    let ConcatPlan { output, tasks: inner_tasks, cleanup, cleanup_on_failure: _ } = inner;
    let mut tasks: Vec<Task> = Vec::new();
    push_task(&mut tasks, Task::CreateDir { path: temp_dir });
    let ghost head = task_views(tasks@);
    let ghost tail = task_views(inner_tasks@);
    let mut rest = inner_tasks;
    tasks.append(&mut rest);
    assert(task_views(tasks@) =~= head + tail);
    let mut cleanup_on_failure: Vec<String> = Vec::new();
    push_text(&mut cleanup_on_failure, output_path);
    let plan = ConcatPlan { output, tasks, cleanup, cleanup_on_failure };
    assert(plan@.tasks =~= preview_plan(clips@, paths@).tasks);
    assert(plan@.cleanup_on_failure =~= preview_plan(clips@, paths@).cleanup_on_failure);
    Ok(plan)
}

/// Whether a preview of `clips` is refused for its times: it takes the way
/// with transitions, has two clips or more, and its timeline cannot be held
/// in an `i64`.
pub open spec fn preview_refused(clips: Seq<TimelineClip>) -> bool {
    any_transition(clips) && clips.len() >= 2 && !timeline_fits(clips)
}

/// A single clip on the way with transitions is a plain cut without
/// re-encoding, straight to the output: the one task is the one that
/// [`trim_segment`] gives, no filter graph is built, and nothing is left to
/// remove.
pub proof fn lemma_single_clip_is_plain_trim(
    clip: TimelineClip,
    output: Seq<char>,
    temp_dir: Seq<char>,
)
    ensures
        transition_plan(seq![clip], output, temp_dir).tasks == seq![
            trim_task(clip.video_path@, clip.trim_start as int, clip.trim_end as int, output),
        ],
        transition_plan(seq![clip], output, temp_dir).cleanup.len() == 0,
        transition_plan(seq![clip], output, temp_dir).cleanup_on_failure.len() == 0,
{
}

/// On the fast way, task `i` cuts clip `i` from its `trim_start` for
/// `trim_end - trim_start` into the file that line `i` of the manifest names,
/// so the join holds the clips in timeline order, each for its trimmed
/// length.
pub proof fn lemma_fast_plan_cuts_each_clip(
    clips: Seq<TimelineClip>,
    output: Seq<char>,
    temp_dir: Seq<char>,
    i: int,
)
    requires
        0 <= i < clips.len(),
    ensures
        fast_plan(clips, output, temp_dir).tasks.len() == clips.len() + 2,
        fast_plan(clips, output, temp_dir).tasks[i] matches TaskView::Run { args, .. } && {
            &&& args.len() == 10
            &&& args[1] == seconds_text(clips[i].trim_start as int)
            &&& args[3] == clips[i].video_path@
            &&& args[5] == seconds_text(clips[i].trim_end - clips[i].trim_start)
            &&& args[9] == temp_clip_paths(temp_dir, clips.len())[i]
        },
        fast_plan(clips, output, temp_dir).tasks[clips.len() as int] == (TaskView::WriteFile {
            path: manifest_path(temp_dir),
            contents: manifest_text(temp_clip_paths(temp_dir, clips.len())),
        }),
{
}

/// Name of the operation that re-encodes the clip `id` on the plain way.
pub open spec fn encode_op(id: Seq<char>) -> Seq<char> {
    "trim and encode clip "@ + id
}

/// The task of the plain way for clip `i`: its trimmed interval is
/// re-encoded to the clip's intermediate file.
pub open spec fn plain_clip_task(clips: Seq<TimelineClip>, temp_dir: Seq<char>, i: int) -> TaskView {
    TaskView::Run {
        args: encode_args(
            clips[i].video_path@,
            clips[i].trim_start as int,
            clips[i].trim_end as int,
            temp_clip_path(temp_dir, i as nat),
        ),
        op: encode_op(clips[i].id@),
    }
}

/// The plain way with transitions. It differs from [`transition_plan`] in
/// the graph alone: the pictures are cross-faded, but the audio tracks are
/// played one after the other as they are, so that the sound falls behind
/// the picture by the length of every cross-fade. A single clip is cut
/// straight to the output here too.
pub open spec fn plain_transition_plan(
    clips: Seq<TimelineClip>,
    output: Seq<char>,
    temp_dir: Seq<char>,
) -> PlanView {
    if clips.len() == 1 {
        PlanView {
            output,
            tasks: seq![
                trim_task(
                    clips[0].video_path@,
                    clips[0].trim_start as int,
                    clips[0].trim_end as int,
                    output,
                ),
            ],
            cleanup: Seq::<Seq<char>>::empty(),
            cleanup_on_failure: Seq::<Seq<char>>::empty(),
        }
    } else {
        PlanView {
            output,
            tasks: Seq::new(clips.len(), |i: int| plain_clip_task(clips, temp_dir, i)).push(
                TaskView::Run {
                    args: transition_args(
                        temp_clip_paths(temp_dir, clips.len()),
                        transition_filter_complex(clips),
                        output,
                    ),
                    op: "concatenate videos with transitions"@,
                },
            ),
            cleanup: temp_clip_paths(temp_dir, clips.len()),
            cleanup_on_failure: Seq::<Seq<char>>::empty(),
        }
    }
}

/// Lays out the plain way with transitions for `clips`: see
/// [`plain_transition_plan`]. An empty list is refused, and so is a list of
/// two clips or more whose timeline cannot be held in an `i64`.
pub fn concatenate_videos_with_transitions(clips: &[TimelineClip], output: &str, temp_dir: &str) -> (r:
    Result<ConcatPlan, String>)
    ensures
        clips@.len() == 0 ==> r is Err && r->Err_0@ == "No clips to concatenate"@,
        clips@.len() >= 2 && !timeline_fits(clips@) ==> r is Err && r->Err_0@
            == "Clip times are out of range"@,
        clips@.len() == 1 || (clips@.len() >= 2 && timeline_fits(clips@)) ==> r is Ok && r->Ok_0@
            == plain_transition_plan(clips@, output@, temp_dir@),
{
    if clips.len() == 0 {
        return Err(String::from_str("No clips to concatenate"));
    }
    if clips.len() == 1 {
        let clip = &clips[0];
        let mut tasks: Vec<Task> = Vec::new();
        push_task(
            &mut tasks,
            trim_segment(clip.video_path.as_str(), clip.trim_start, clip.trim_end, output),
        );
        let plan = ConcatPlan {
            output: String::from_str(output),
            tasks,
            cleanup: Vec::new(),
            cleanup_on_failure: Vec::new(),
        };
        assert(plan@.tasks =~= plain_transition_plan(clips@, output@, temp_dir@).tasks);
        assert(plan@.cleanup =~= Seq::<Seq<char>>::empty());
        assert(plan@.cleanup_on_failure =~= Seq::<Seq<char>>::empty());
        return Ok(plan);
    }
    if !check_timeline(clips) {
        return Err(String::from_str("Clip times are out of range"));
    }
    let filter_complex = build_transition_filter_complex(clips);
    let n = clips.len();
    let mut tasks: Vec<Task> = Vec::new();
    let mut i: usize = 0;
    assert(task_views(tasks@) =~= Seq::new(0, |k: int| plain_clip_task(clips@, temp_dir@, k)));
    while i < n
        invariant
            n == clips.len(),
            i <= n,
            task_views(tasks@) == Seq::new(i as nat, |k: int| plain_clip_task(clips@, temp_dir@, k)),
        decreases n - i,
    {
        let clip = &clips[i];
        let temp_file = build_temp_clip_path(temp_dir, i);
        let args = build_encode_args(
            clip.video_path.as_str(),
            clip.trim_start,
            clip.trim_end,
            temp_file.as_str(),
        );
        let task = Task::Run { args, op: clip_op("trim and encode clip ", clip.id.as_str()) };
        assert(task@ == plain_clip_task(clips@, temp_dir@, i as int));
        push_task(&mut tasks, task);
        assert(task_views(tasks@) =~= Seq::new(
            (i + 1) as nat,
            |k: int| plain_clip_task(clips@, temp_dir@, k),
        ));
        i = i + 1;
    }
    let temp_files = build_temp_clip_paths(temp_dir, n);
    push_task(
        &mut tasks,
        Task::Run {
            args: build_transition_args(&temp_files, filter_complex.as_str(), output),
            op: String::from_str("concatenate videos with transitions"),
        },
    );
    let plan = ConcatPlan {
        output: String::from_str(output),
        tasks,
        cleanup: temp_files,
        cleanup_on_failure: Vec::new(),
    };
    assert(plan@.cleanup_on_failure =~= Seq::<Seq<char>>::empty());
    assert(plan@ == plain_transition_plan(clips@, output@, temp_dir@));
    Ok(plan)
}

} // verus!
