//! The data a video editing session holds.

use vstd::prelude::*;

verus! {

/// One trimmed segment of a source file, placed on the timeline.
///
/// Times are whole microseconds. `duration` is the length the clip takes when
/// composited; the cross-fade into the next clip, if any, takes
/// `transition_duration` out of its tail.
#[derive(Debug, Clone)]
pub struct TimelineClip {
    pub id: String,
    pub name: String,
    pub video_path: String,
    pub thumbnail: Option<String>,
    pub original_duration: i64,
    pub created_at: i64,
    pub position: i64,
    pub trim_start: i64,
    pub trim_end: i64,
    pub duration: i64,
    pub transition_type: Option<String>,
    pub transition_duration: Option<i64>,
}

/// What the editor keeps between sessions.
#[derive(Debug, Clone)]
pub struct EditorState {
    pub clips: Vec<TimelineClip>,
    pub selected_clip_id: Option<String>,
    pub preview_video_path: Option<String>,
}

/// Position of the first clip at or after `from` whose id is `id`.
pub open spec fn clip_position_from(clips: Seq<TimelineClip>, id: Seq<char>, from: int) -> Option<int>
    decreases clips.len() - from,
{
    if from < 0 || from >= clips.len() {
        None
    } else if clips[from].id@ == id {
        Some(from)
    } else {
        clip_position_from(clips, id, from + 1)
    }
}

/// Position of the first clip whose id is `id`.
pub open spec fn clip_position(clips: Seq<TimelineClip>, id: Seq<char>) -> Option<int> {
    clip_position_from(clips, id, 0)
}

/// Finds the first clip whose id is `id`.
pub fn find_clip(clips: &[TimelineClip], id: &str) -> (found: Option<usize>)
    ensures
        found is Some <==> clip_position(clips@, id@) is Some,
        found matches Some(i) ==> clip_position(clips@, id@) == Some(i as int) && i < clips@.len()
            && clips@[i as int].id@ == id@,
        found is None ==> forall|k: int| 0 <= k < clips@.len() ==> (#[trigger] clips@[k]).id@ != id@,
{
    let wanted = String::from_str(id);
    let mut i: usize = 0;
    while i < clips.len()
        invariant
            i <= clips.len(),
            wanted@ == id@,
            clip_position(clips@, id@) == clip_position_from(clips@, id@, i as int),
            forall|k: int| 0 <= k < i ==> (#[trigger] clips@[k]).id@ != id@,
        decreases clips.len() - i,
    {
        if clips[i].id == wanted {
            return Some(i);
        }
        i = i + 1;
    }
    None
}

} // verus!
