//! Timeline arithmetic: where each clip starts once cross-fades overlap it
//! with its neighbour, how long the composition is, and how each audio track
//! is cut, delayed and padded to stay aligned with the picture.

use vstd::prelude::*;
use crate::video_editor::types::TimelineClip;

verus! {

/// Length of a cross-fade whose clip names none: one second.
pub const DEFAULT_TRANSITION_DURATION: i64 = 1_000_000;

/// Whether `x` can be held in an `i64`.
pub open spec fn in_range(x: int) -> bool {
    i64::MIN <= x <= i64::MAX
}

/// Length of the cross-fade that follows `clip`.
pub open spec fn transition_duration(clip: TimelineClip) -> int {
    match clip.transition_duration {
        Some(t) => t as int,
        None => DEFAULT_TRANSITION_DURATION as int,
    }
}

/// What `clip` adds to the timeline before the next clip starts: its
/// duration less the cross-fade that overlaps its tail.
pub open spec fn trimmed_duration(clip: TimelineClip) -> int {
    clip.duration - transition_duration(clip)
}

/// Where clip `i` starts on the composed timeline: the sum of the trimmed
/// durations of the clips before it. For the number of clips it is the sum
/// over all of them, and beyond that it stays there.
pub open spec fn cumulative_offset(clips: Seq<TimelineClip>, i: int) -> int
    decreases i,
{
    if i <= 0 {
        0
    } else if i > clips.len() {
        cumulative_offset(clips, clips.len() as int)
    } else {
        cumulative_offset(clips, i - 1) + trimmed_duration(clips[i - 1])
    }
}

/// Whether the sum up to `i` can be formed in an `i64`: the trimmed duration
/// of each clip before `i` and each sum on the way can be held in one.
pub open spec fn offsets_fit(clips: Seq<TimelineClip>, i: int) -> bool {
    &&& forall|j: int|
        0 <= j < i && j < clips.len() ==> in_range(#[trigger] trimmed_duration(clips[j]))
    &&& forall|j: int|
        0 <= j <= i && j <= clips.len() ==> in_range(#[trigger] cumulative_offset(clips, j))
}

/// Where the cross-fade from clip `i` into clip `i + 1` starts, measured from
/// the start of the composition.
pub open spec fn transition_offset(clips: Seq<TimelineClip>, i: int) -> int {
    cumulative_offset(clips, i) + clips[i].duration - transition_duration(clips[i])
}

/// Length of the whole composition: every clip but the last counts without
/// its cross-fade, the last one in full.
pub open spec fn total_duration(clips: Seq<TimelineClip>) -> int {
    if clips.len() == 0 {
        0
    } else {
        cumulative_offset(clips, clips.len() - 1) + clips.last().duration
    }
}

/// Where the audio of clip `i` ends on the composed timeline.
pub open spec fn clip_end_time(clips: Seq<TimelineClip>, i: int) -> int {
    if i < clips.len() - 1 {
        cumulative_offset(clips, i) + trimmed_duration(clips[i])
    } else {
        cumulative_offset(clips, i) + clips[i].duration
    }
}

/// Silence appended to the audio of clip `i` so that its track is as long as
/// the composition.
pub open spec fn audio_padding(clips: Seq<TimelineClip>, i: int) -> int {
    total_duration(clips) - clip_end_time(clips, i)
}

/// Whether every quantity of the timeline can be held in an `i64`: the
/// trimmed duration of each clip but the last, each clip's start, the total,
/// and each clip's padding. The cross-fade fields of the last clip play no
/// part.
pub open spec fn timeline_fits(clips: Seq<TimelineClip>) -> bool {
    &&& forall|i: int| 0 <= i < clips.len() - 1 ==> in_range(#[trigger] trimmed_duration(clips[i]))
    &&& forall|i: int| 0 <= i < clips.len() ==> in_range(#[trigger] cumulative_offset(clips, i))
    &&& in_range(total_duration(clips))
    &&& forall|i: int| 0 <= i < clips.len() ==> in_range(#[trigger] audio_padding(clips, i))
}

/// Length of the cross-fade that follows `clip`: one second unless it names
/// another.
pub fn transition_duration_of(clip: &TimelineClip) -> (t: i64)
    ensures
        t == transition_duration(*clip),
{
    match clip.transition_duration {
        Some(t) => t,
        None => DEFAULT_TRANSITION_DURATION,
    }
}

/// Duration of `clip` less the cross-fade that follows it.
pub fn calculate_trimmed_duration(clip: &TimelineClip) -> (d: i64)
    requires
        in_range(trimmed_duration(*clip)),
    ensures
        d == trimmed_duration(*clip),
{
    let t = transition_duration_of(clip);
    let wide: i128 = clip.duration as i128 - t as i128;
    wide as i64
}

/// Start of clip `up_to_index` on the composed timeline: the sum of the
/// trimmed durations of the first `up_to_index` clips, or of all clips where
/// there are fewer. For the first clip it is zero, whatever the list holds.
pub fn calculate_cumulative_offset(clips: &[TimelineClip], up_to_index: usize) -> (offset: i64)
    requires
        offsets_fit(clips@, up_to_index as int),
    ensures
        offset == cumulative_offset(clips@, up_to_index as int),
        up_to_index == 0 ==> offset == 0,
{
    let upto = if up_to_index < clips.len() {
        up_to_index
    } else {
        clips.len()
    };
    let mut offset: i64 = 0;
    let mut j: usize = 0;
    while j < upto
        invariant
            offsets_fit(clips@, up_to_index as int),
            j <= upto <= clips.len(),
            upto <= up_to_index,
            offset == cumulative_offset(clips@, j as int),
        decreases upto - j,
    {
        assert(in_range(trimmed_duration(clips@[j as int])));
        assert(in_range(cumulative_offset(clips@, j + 1)));
        let step = calculate_trimmed_duration(&clips[j]);
        offset = offset + step;
        j = j + 1;
    }
    offset
}

/// Decides [`offsets_fit`].
pub fn check_offsets(clips: &[TimelineClip], up_to_index: usize) -> (ok: bool)
    ensures
        ok == offsets_fit(clips@, up_to_index as int),
{
    let upto = if up_to_index < clips.len() {
        up_to_index
    } else {
        clips.len()
    };
    let mut offset: i64 = 0;
    let mut j: usize = 0;
    while j < upto
        invariant
            j <= upto <= clips.len(),
            upto <= up_to_index,
            offset == cumulative_offset(clips@, j as int),
            forall|k: int| 0 <= k < j ==> in_range(#[trigger] trimmed_duration(clips@[k])),
            forall|k: int| 0 <= k <= j ==> in_range(#[trigger] cumulative_offset(clips@, k)),
        decreases upto - j,
    {
        let step: i128 = clips[j].duration as i128 - transition_duration_of(&clips[j]) as i128;
        if step < i64::MIN as i128 || step > i64::MAX as i128 {
            assert(!in_range(trimmed_duration(clips@[j as int])));
            return false;
        }
        let next: i128 = offset as i128 + step;
        if next < i64::MIN as i128 || next > i64::MAX as i128 {
            assert(!in_range(cumulative_offset(clips@, j + 1)));
            return false;
        }
        offset = next as i64;
        j = j + 1;
    }
    true
}

/// A timeline that fits has sums that fit up to each of its clips.
pub proof fn lemma_fitting_timeline_offsets(clips: Seq<TimelineClip>, i: int)
    requires
        timeline_fits(clips),
        0 <= i < clips.len(),
    ensures
        offsets_fit(clips, i),
{
}

/// Start of the cross-fade from clip `clip_index` into the next one.
pub fn calculate_transition_offset(clips: &[TimelineClip], clip_index: usize) -> (offset: i64)
    requires
        timeline_fits(clips@),
        clip_index < clips.len() - 1,
    ensures
        offset == transition_offset(clips@, clip_index as int),
{
    proof {
        lemma_fitting_timeline_offsets(clips@, clip_index + 1);
    }
    calculate_cumulative_offset(clips, clip_index + 1)
}

/// Length of the whole composition.
pub fn calculate_total_duration(clips: &[TimelineClip]) -> (total: i64)
    requires
        timeline_fits(clips@),
    ensures
        total == total_duration(clips@),
{
    if clips.len() == 0 {
        0
    } else {
        let last = clips.len() - 1;
        proof {
            lemma_fitting_timeline_offsets(clips@, last as int);
        }
        let start = calculate_cumulative_offset(clips, last);
        start + clips[last].duration
    }
}

/// End of the audio of clip `clip_index` on the composed timeline.
pub fn calculate_clip_end_time(clips: &[TimelineClip], clip_index: usize) -> (end: i64)
    requires
        timeline_fits(clips@),
        clip_index < clips.len(),
    ensures
        end == clip_end_time(clips@, clip_index as int),
{
    if clip_index < clips.len() - 1 {
        proof {
            lemma_fitting_timeline_offsets(clips@, clip_index + 1);
        }
        calculate_cumulative_offset(clips, clip_index + 1)
    } else {
        calculate_total_duration(clips)
    }
}

/// Silence appended to the audio of clip `clip_index`.
pub fn calculate_audio_padding(clips: &[TimelineClip], clip_index: usize) -> (pad: i64)
    requires
        timeline_fits(clips@),
        clip_index < clips.len(),
    ensures
        pad == audio_padding(clips@, clip_index as int),
{
    let total = calculate_total_duration(clips);
    let end = calculate_clip_end_time(clips, clip_index);
    assert(in_range(audio_padding(clips@, clip_index as int)));
    total - end
}

/// Decides [`timeline_fits`], so that a caller can meet the demand of the
/// functions above.
pub fn check_timeline(clips: &[TimelineClip]) -> (ok: bool)
    ensures
        ok == timeline_fits(clips@),
{
    let n = clips.len();
    if n == 0 {
        return true;
    }
    let mut offset: i64 = 0;
    let mut i: usize = 0;
    while i < n - 1
        invariant
            n == clips.len(),
            n > 0,
            i <= n - 1,
            offset == cumulative_offset(clips@, i as int),
            forall|k: int| 0 <= k < i ==> in_range(#[trigger] trimmed_duration(clips@[k])),
            forall|k: int| 0 <= k <= i ==> in_range(#[trigger] cumulative_offset(clips@, k)),
        decreases n - 1 - i,
    {
        let step: i128 = clips[i].duration as i128 - transition_duration_of(&clips[i]) as i128;
        if step < i64::MIN as i128 || step > i64::MAX as i128 {
            assert(!in_range(trimmed_duration(clips@[i as int])));
            return false;
        }
        let next: i128 = offset as i128 + step;
        if next < i64::MIN as i128 || next > i64::MAX as i128 {
            assert(!in_range(cumulative_offset(clips@, i + 1)));
            return false;
        }
        offset = next as i64;
        i = i + 1;
    }
    let wide_total: i128 = offset as i128 + clips[n - 1].duration as i128;
    if wide_total < i64::MIN as i128 || wide_total > i64::MAX as i128 {
        assert(!in_range(total_duration(clips@)));
        return false;
    }
    let total: i64 = wide_total as i64;
    let mut start: i64 = 0;
    let mut j: usize = 0;
    while j < n - 1
        invariant
            n == clips.len(),
            n > 0,
            j <= n - 1,
            total == total_duration(clips@),
            start == cumulative_offset(clips@, j as int),
            forall|k: int| 0 <= k < n - 1 ==> in_range(#[trigger] trimmed_duration(clips@[k])),
            forall|k: int| 0 <= k < n ==> in_range(#[trigger] cumulative_offset(clips@, k)),
            forall|k: int| 0 <= k < j ==> in_range(#[trigger] audio_padding(clips@, k)),
        decreases n - 1 - j,
    {
        assert(in_range(trimmed_duration(clips@[j as int])));
        assert(in_range(cumulative_offset(clips@, j + 1)));
        let end: i64 = start + calculate_trimmed_duration(&clips[j]);
        let pad: i128 = total as i128 - end as i128;
        if pad < i64::MIN as i128 || pad > i64::MAX as i128 {
            assert(!in_range(audio_padding(clips@, j as int)));
            return false;
        }
        start = end;
        j = j + 1;
    }
    assert(audio_padding(clips@, n - 1) == 0);
    assert forall|k: int| 0 <= k < n implies in_range(#[trigger] audio_padding(clips@, k)) by {
        if k == n - 1 {
        }
    }
    true
}

/// Where one clip lies on the composed timeline, and what is done to its
/// audio track so that it plays there and nowhere else.
#[derive(Debug, Clone, Copy, PartialEq, Eq, Structural)]
pub struct ClipPlacement {
    /// Start of the clip on the composed timeline.
    pub start: i64,
    /// End of the clip's audio on the composed timeline.
    pub end: i64,
    /// Length the audio is cut to; `None` for the last clip, which plays in
    /// full.
    pub audio_trim: Option<i64>,
    /// Delay of the audio in milliseconds; `None` where the clip starts at
    /// zero or before.
    pub audio_delay_ms: Option<i64>,
    /// Silence appended to the audio; `None` where there is none to append.
    pub audio_pad: Option<i64>,
}

/// The placement of clip `i`.
pub open spec fn clip_placement(clips: Seq<TimelineClip>, i: int) -> ClipPlacement {
    ClipPlacement {
        start: cumulative_offset(clips, i) as i64,
        end: clip_end_time(clips, i) as i64,
        audio_trim: if i < clips.len() - 1 {
            Some(trimmed_duration(clips[i]) as i64)
        } else {
            None
        },
        audio_delay_ms: if cumulative_offset(clips, i) > 0 {
            Some((cumulative_offset(clips, i) / 1000) as i64)
        } else {
            None
        },
        audio_pad: if audio_padding(clips, i) > 0 {
            Some(audio_padding(clips, i) as i64)
        } else {
            None
        },
    }
}

/// Computes the placement of clip `clip_index`.
pub fn place_clip(clips: &[TimelineClip], clip_index: usize) -> (placement: ClipPlacement)
    requires
        timeline_fits(clips@),
        clip_index < clips.len(),
    ensures
        placement == clip_placement(clips@, clip_index as int),
{
    let start = calculate_cumulative_offset(clips, clip_index);
    let end = calculate_clip_end_time(clips, clip_index);
    let pad = calculate_audio_padding(clips, clip_index);
    let audio_trim = if clip_index < clips.len() - 1 {
        assert(in_range(trimmed_duration(clips@[clip_index as int])));
        Some(calculate_trimmed_duration(&clips[clip_index]))
    } else {
        None
    };
    let audio_delay_ms = if start > 0 {
        Some(start / 1000)
    } else {
        None
    };
    let audio_pad = if pad > 0 {
        Some(pad)
    } else {
        None
    };
    ClipPlacement { start, end, audio_trim, audio_delay_ms, audio_pad }
}

/// The derived, per-call view of a clip list: each clip's placement and the
/// length of the composition.
#[derive(Debug, Clone)]
pub struct TimelinePlan {
    pub placements: Vec<ClipPlacement>,
    pub total_duration: i64,
}

/// Derives the plan of `clips`, or `None` where some quantity of the
/// timeline cannot be held in an `i64`.
pub fn plan_timeline(clips: &[TimelineClip]) -> (plan: Option<TimelinePlan>)
    ensures
        plan is Some <==> timeline_fits(clips@),
        plan matches Some(p) ==> {
            &&& p.total_duration == total_duration(clips@)
            &&& p.placements@.len() == clips@.len()
            &&& forall|i: int|
                0 <= i < clips@.len() ==> p.placements@[i] == #[trigger] clip_placement(clips@, i)
        },
{
    if !check_timeline(clips) {
        return None;
    }
    let mut placements: Vec<ClipPlacement> = Vec::new();
    let mut i: usize = 0;
    while i < clips.len()
        invariant
            timeline_fits(clips@),
            i <= clips.len(),
            placements@.len() == i,
            forall|k: int| 0 <= k < i ==> placements@[k] == #[trigger] clip_placement(clips@, k),
        decreases clips.len() - i,
    {
        placements.push(place_clip(clips, i));
        i = i + 1;
    }
    Some(TimelinePlan { placements, total_duration: calculate_total_duration(clips) })
}

/// The first clip starts at zero, whatever the list holds, and every later
/// clip starts where the clip before it started, plus that clip's duration,
/// less its cross-fade. The same holds of the sum over all clips.
pub proof fn lemma_cumulative_offset_step(clips: Seq<TimelineClip>, i: int)
    requires
        0 <= i <= clips.len(),
    ensures
        cumulative_offset(clips, 0) == 0,
        i > 0 ==> cumulative_offset(clips, i) == cumulative_offset(clips, i - 1) + clips[i
            - 1].duration - transition_duration(clips[i - 1]),
{
}

/// Where a clip starts depends on the clips before it alone: the clip
/// itself and the clips after it add nothing to it.
pub proof fn lemma_offset_ignores_later_clips(
    first: Seq<TimelineClip>,
    second: Seq<TimelineClip>,
    i: int,
)
    requires
        0 <= i <= first.len(),
        i <= second.len(),
        forall|j: int| 0 <= j < i ==> first[j] == second[j],
    ensures
        cumulative_offset(first, i) == cumulative_offset(second, i),
    decreases i,
{
    if i > 0 {
        lemma_offset_ignores_later_clips(first, second, i - 1);
    }
}

/// The composition is as long as the trimmed durations of all clips but the
/// last, plus the last clip in full; and for every clip, the end of its audio
/// plus its padding is that same length, so that all padded tracks are
/// equally long. The last clip gets no padding.
pub proof fn lemma_total_duration(clips: Seq<TimelineClip>, i: int)
    requires
        clips.len() >= 2,
        0 <= i < clips.len(),
    ensures
        total_duration(clips) == cumulative_offset(clips, clips.len() - 1) + clips[clips.len()
            - 1].duration,
        total_duration(clips) == clip_end_time(clips, i) + audio_padding(clips, i),
        clip_end_time(clips, i) == cumulative_offset(clips, i) + (if i < clips.len() - 1 {
            clips[i].duration - transition_duration(clips[i])
        } else {
            clips[i].duration as int
        }),
        audio_padding(clips, clips.len() - 1) == 0,
{
}

/// A cross-fade starts where the next clip starts.
pub proof fn lemma_transition_offset_is_next_start(clips: Seq<TimelineClip>, i: int)
    requires
        0 <= i < clips.len() - 1,
    ensures
        transition_offset(clips, i) == cumulative_offset(clips, i + 1),
        transition_offset(clips, i) == clip_end_time(clips, i),
{
}

/// Where every cross-fade is shorter than its clip, clips start in timeline
/// order.
pub proof fn lemma_offsets_increase(clips: Seq<TimelineClip>, i: int, j: int)
    requires
        forall|k: int| 0 <= k < clips.len() - 1 ==> #[trigger] trimmed_duration(clips[k]) > 0,
        0 <= i <= j < clips.len(),
    ensures
        cumulative_offset(clips, i) <= cumulative_offset(clips, j),
        i < j ==> cumulative_offset(clips, i) < cumulative_offset(clips, j),
    decreases j - i,
{
    if i < j {
        lemma_offsets_increase(clips, i, j - 1);
        assert(trimmed_duration(clips[j - 1]) > 0);
    }
}

/// Where every cross-fade is shorter than its clip and the last clip has no
/// negative duration, no clip's audio ends after the composition does: no
/// padding is negative.
pub proof fn lemma_padding_not_negative(clips: Seq<TimelineClip>, i: int)
    requires
        forall|k: int| 0 <= k < clips.len() - 1 ==> #[trigger] trimmed_duration(clips[k]) > 0,
        0 <= i < clips.len(),
        clips[clips.len() - 1].duration >= 0,
    ensures
        audio_padding(clips, i) >= 0,
{
    if i < clips.len() - 1 {
        lemma_offsets_increase(clips, i + 1, clips.len() - 1);
    }
}

/// A bound under which every timeline fits: no more than a million clips,
/// and no duration or cross-fade beyond a million seconds either way.
pub open spec fn is_modest(clips: Seq<TimelineClip>) -> bool {
    &&& clips.len() <= 1_000_000
    &&& forall|i: int|
        0 <= i < clips.len() ==> -1_000_000_000_000 <= (#[trigger] clips[i]).duration
            <= 1_000_000_000_000 && -1_000_000_000_000 <= transition_duration(clips[i])
            <= 1_000_000_000_000
}

/// Clips of modest number and times start within modest bounds.
pub proof fn lemma_modest_offsets(clips: Seq<TimelineClip>, i: int)
    requires
        is_modest(clips),
        0 <= i <= clips.len(),
    ensures
        -2_000_000_000_000 * i <= cumulative_offset(clips, i) <= 2_000_000_000_000 * i,
    decreases i,
{
    if i > 0 {
        lemma_modest_offsets(clips, i - 1);
        assert(-2_000_000_000_000 <= trimmed_duration(clips[i - 1]) <= 2_000_000_000_000);
    }
}

/// A timeline of modest number and times fits: see [`timeline_fits`].
pub proof fn lemma_modest_timeline_fits(clips: Seq<TimelineClip>)
    requires
        is_modest(clips),
    ensures
        timeline_fits(clips),
{
    assert forall|i: int| 0 <= i < clips.len() implies in_range(
        #[trigger] cumulative_offset(clips, i),
    ) by {
        lemma_modest_offsets(clips, i);
    }
    if clips.len() > 0 {
        lemma_modest_offsets(clips, clips.len() - 1);
    }
    assert forall|i: int| 0 <= i < clips.len() implies in_range(
        #[trigger] audio_padding(clips, i),
    ) by {
        lemma_modest_offsets(clips, clips.len() - 1);
        lemma_modest_offsets(clips, i);
        if i < clips.len() - 1 {
            lemma_modest_offsets(clips, i + 1);
        }
    }
}

} // verus!
