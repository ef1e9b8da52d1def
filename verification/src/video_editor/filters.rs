//! The filter graph that cross-fades the pictures of consecutive clips and
//! mixes their audio tracks, each cut, delayed and padded to its place.
//!
//! The graph has two outputs, `[out]` for the picture and `[outa]` for the
//! sound. It is text in the media tool's grammar, and a function of the clip
//! list alone.

use vstd::prelude::*;
use crate::text::{
    decimal,
    extend_texts,
    join,
    join_texts,
    push_decimal,
    push_seconds,
    push_signed,
    push_text,
    seconds_text,
    signed_decimal,
    texts,
};
use crate::video_editor::timeline::{
    calculate_transition_offset,
    check_timeline,
    clip_placement,
    place_clip,
    timeline_fits,
    transition_duration,
    transition_duration_of,
    transition_offset,
    ClipPlacement,
};
use crate::video_editor::types::TimelineClip;

verus! {

/// Name of the cross-fade that follows `clip`: `fade` unless it names
/// another, which is passed on as it is.
pub open spec fn transition_name(clip: TimelineClip) -> Seq<char> {
    match clip.transition_type {
        Some(name) => name@,
        None => "fade"@,
    }
}

/// Label of the picture that enters cross-fade `i`: the first input for the
/// first cross-fade, the result of the cross-fade before it for the others.
pub open spec fn video_input_label(i: int) -> Seq<char> {
    if i == 0 {
        "0:v"@
    } else {
        "v"@ + decimal((i - 1) as nat)
    }
}

/// Label of the picture that leaves cross-fade `i` of a list of `n` clips:
/// `out` for the last cross-fade.
pub open spec fn video_output_label(n: int, i: int) -> Seq<char> {
    if i == n - 2 {
        "out"@
    } else {
        "v"@ + decimal(i as nat)
    }
}

/// The cross-fade from clip `i` into clip `i + 1`.
pub open spec fn xfade_filter(clips: Seq<TimelineClip>, i: int) -> Seq<char> {
    "["@ + video_input_label(i) + "]["@ + decimal((i + 1) as nat) + ":v]xfade=transition="@
        + transition_name(clips[i]) + ":duration="@ + seconds_text(transition_duration(clips[i]))
        + ":offset="@ + seconds_text(transition_offset(clips, i)) + "["@ + video_output_label(
        clips.len() as int,
        i,
    ) + "]"@
}

/// The chain of cross-fades: one for each clip but the last.
pub open spec fn video_transition_filters(clips: Seq<TimelineClip>) -> Seq<Seq<char>> {
    Seq::new((clips.len() - 1) as nat, |i: int| xfade_filter(clips, i))
}

/// Label of the audio track of input `i`.
pub open spec fn audio_source_label(i: int) -> Seq<char> {
    decimal(i as nat) + ":a"@
}

/// Label of track `i` once cut.
pub open spec fn audio_trim_label(i: int) -> Seq<char> {
    "atrim"@ + decimal(i as nat)
}

/// Label of track `i` once delayed.
pub open spec fn audio_delay_label(i: int) -> Seq<char> {
    "adelay"@ + decimal(i as nat)
}

/// Label of track `i` once padded.
pub open spec fn audio_pad_label(i: int) -> Seq<char> {
    "apadend"@ + decimal(i as nat)
}

/// Label of track `i` after the cut, if there is one.
pub open spec fn label_after_trim(p: ClipPlacement, i: int) -> Seq<char> {
    if p.audio_trim is Some {
        audio_trim_label(i)
    } else {
        audio_source_label(i)
    }
}

/// Label of track `i` after the cut and the delay, where there are any.
pub open spec fn label_after_delay(p: ClipPlacement, i: int) -> Seq<char> {
    if p.audio_delay_ms is Some {
        audio_delay_label(i)
    } else {
        label_after_trim(p, i)
    }
}

/// Label under which track `i` enters the mix.
pub open spec fn audio_final_label(p: ClipPlacement, i: int) -> Seq<char> {
    if p.audio_pad is Some {
        audio_pad_label(i)
    } else {
        label_after_delay(p, i)
    }
}

/// The filter that cuts track `i` to `length`.
pub open spec fn atrim_filter(i: int, length: int) -> Seq<char> {
    "["@ + audio_source_label(i) + "]atrim=0:"@ + seconds_text(length) + "["@ + audio_trim_label(i)
        + "]"@
}

/// The filter that delays track `i` by `ms` milliseconds on both channels.
pub open spec fn adelay_filter(p: ClipPlacement, i: int, ms: int) -> Seq<char> {
    "["@ + label_after_trim(p, i) + "]adelay="@ + signed_decimal(ms) + "|"@ + signed_decimal(ms)
        + "["@ + audio_delay_label(i) + "]"@
}

/// The filter that appends `pad` of silence to track `i`.
pub open spec fn apad_filter(p: ClipPlacement, i: int, pad: int) -> Seq<char> {
    "["@ + label_after_delay(p, i) + "]apad=pad_dur="@ + seconds_text(pad) + "["@
        + audio_pad_label(i) + "]"@
}

/// The filters of one track, in the order cut, delay, pad; each is there only
/// where the placement asks for it.
pub open spec fn audio_clip_filters(p: ClipPlacement, i: int) -> Seq<Seq<char>> {
    (match p.audio_trim {
        Some(length) => seq![atrim_filter(i, length as int)],
        None => Seq::<Seq<char>>::empty(),
    }) + (match p.audio_delay_ms {
        Some(ms) => seq![adelay_filter(p, i, ms as int)],
        None => Seq::<Seq<char>>::empty(),
    }) + (match p.audio_pad {
        Some(pad) => seq![apad_filter(p, i, pad as int)],
        None => Seq::<Seq<char>>::empty(),
    })
}

/// The filters of the first `k` tracks.
pub open spec fn audio_filters_upto(clips: Seq<TimelineClip>, k: int) -> Seq<Seq<char>>
    decreases k,
{
    if k <= 0 {
        Seq::<Seq<char>>::empty()
    } else {
        audio_filters_upto(clips, k - 1) + audio_clip_filters(clip_placement(clips, k - 1), k - 1)
    }
}

/// The bracketed final labels of the first `k` tracks, one after the other.
pub open spec fn mix_inputs_upto(clips: Seq<TimelineClip>, k: int) -> Seq<char>
    decreases k,
{
    if k <= 0 {
        Seq::<char>::empty()
    } else {
        mix_inputs_upto(clips, k - 1) + "["@ + audio_final_label(clip_placement(clips, k - 1), k - 1)
            + "]"@
    }
}

/// The filter that mixes all tracks into `[outa]`.
pub open spec fn mix_filter(clips: Seq<TimelineClip>) -> Seq<char> {
    mix_inputs_upto(clips, clips.len() as int) + "amix=inputs="@ + decimal(clips.len())
        + ":duration=longest:dropout_transition=0[outa]"@
}

/// The audio part of the graph: every track's filters in clip order, then the
/// mix.
pub open spec fn audio_sync_filters(clips: Seq<TimelineClip>) -> Seq<Seq<char>> {
    audio_filters_upto(clips, clips.len() as int).push(mix_filter(clips))
}

/// The whole graph: the cross-fades, then the audio part, `"; "` between each
/// two filters.
pub open spec fn transition_filter(clips: Seq<TimelineClip>) -> Seq<char> {
    join_texts(video_transition_filters(clips) + audio_sync_filters(clips), "; "@)
}

fn push_video_input_label(out: &mut String, i: usize)
    ensures
        final(out)@ == old(out)@ + video_input_label(i as int),
{
    if i == 0 {
        out.append("0:v");
    } else {
        out.append("v");
        push_decimal(out, (i - 1) as u128);
        assert(out@ =~= old(out)@ + video_input_label(i as int));
    }
}

fn push_video_output_label(out: &mut String, n: usize, i: usize)
    requires
        i + 2 <= n,
    ensures
        final(out)@ == old(out)@ + video_output_label(n as int, i as int),
{
    if i == n - 2 {
        out.append("out");
    } else {
        out.append("v");
        push_decimal(out, i as u128);
        assert(out@ =~= old(out)@ + video_output_label(n as int, i as int));
    }
}

/// The cross-fade filters of `clips`, in clip order.
pub fn build_video_transition_filters(clips: &[TimelineClip]) -> (filters: Vec<String>)
    requires
        clips.len() >= 1,
        timeline_fits(clips@),
    ensures
        texts(filters@) == video_transition_filters(clips@),
{
    let n = clips.len();
    let mut filters: Vec<String> = Vec::new();
    let mut i: usize = 0;
    while i < n - 1
        invariant
            n == clips.len(),
            n >= 1,
            i <= n - 1,
            timeline_fits(clips@),
            texts(filters@) == Seq::new(i as nat, |k: int| xfade_filter(clips@, k)),
        decreases n - 1 - i,
    {
        let clip = &clips[i];
        let transition_type: &str = match &clip.transition_type {
            Some(name) => name.as_str(),
            None => "fade",
        };
        let duration = transition_duration_of(clip);
        let offset = calculate_transition_offset(clips, i);
        let mut f = String::new();
        f.append("[");
        push_video_input_label(&mut f, i);
        f.append("][");
        push_decimal(&mut f, (i + 1) as u128);
        f.append(":v]xfade=transition=");
        f.append(transition_type);
        f.append(":duration=");
        push_seconds(&mut f, duration as i128);
        f.append(":offset=");
        push_seconds(&mut f, offset as i128);
        f.append("[");
        push_video_output_label(&mut f, n, i);
        f.append("]");
        assert(f@ =~= xfade_filter(clips@, i as int));
        let ghost before = texts(filters@);
        push_text(&mut filters, f);
        assert(texts(filters@) =~= Seq::new((i + 1) as nat, |k: int| xfade_filter(clips@, k)));
        i = i + 1;
    }
    filters
}

fn push_audio_source_label(out: &mut String, i: usize)
    ensures
        final(out)@ == old(out)@ + audio_source_label(i as int),
{
    push_decimal(out, i as u128);
    out.append(":a");
    assert(out@ =~= old(out)@ + audio_source_label(i as int));
}

fn push_audio_trim_label(out: &mut String, i: usize)
    ensures
        final(out)@ == old(out)@ + audio_trim_label(i as int),
{
    out.append("atrim");
    push_decimal(out, i as u128);
    assert(out@ =~= old(out)@ + audio_trim_label(i as int));
}

fn push_audio_delay_label(out: &mut String, i: usize)
    ensures
        final(out)@ == old(out)@ + audio_delay_label(i as int),
{
    out.append("adelay");
    push_decimal(out, i as u128);
    assert(out@ =~= old(out)@ + audio_delay_label(i as int));
}

fn push_audio_pad_label(out: &mut String, i: usize)
    ensures
        final(out)@ == old(out)@ + audio_pad_label(i as int),
{
    out.append("apadend");
    push_decimal(out, i as u128);
    assert(out@ =~= old(out)@ + audio_pad_label(i as int));
}

fn push_label_after_trim(out: &mut String, p: &ClipPlacement, i: usize)
    ensures
        final(out)@ == old(out)@ + label_after_trim(*p, i as int),
{
    if p.audio_trim.is_some() {
        push_audio_trim_label(out, i);
    } else {
        push_audio_source_label(out, i);
    }
}

fn push_label_after_delay(out: &mut String, p: &ClipPlacement, i: usize)
    ensures
        final(out)@ == old(out)@ + label_after_delay(*p, i as int),
{
    if p.audio_delay_ms.is_some() {
        push_audio_delay_label(out, i);
    } else {
        push_label_after_trim(out, p, i);
    }
}

fn push_audio_final_label(out: &mut String, p: &ClipPlacement, i: usize)
    ensures
        final(out)@ == old(out)@ + audio_final_label(*p, i as int),
{
    if p.audio_pad.is_some() {
        push_audio_pad_label(out, i);
    } else {
        push_label_after_delay(out, p, i);
    }
}

/// Appends to `filters` what cuts, delays and pads track `i` as `p` asks.
pub fn push_audio_clip_filters(filters: &mut Vec<String>, p: &ClipPlacement, i: usize)
    ensures
        texts(final(filters)@) == texts(old(filters)@) + audio_clip_filters(*p, i as int),
{
    if let Some(length) = p.audio_trim {
        let mut f = String::new();
        f.append("[");
        push_audio_source_label(&mut f, i);
        f.append("]atrim=0:");
        push_seconds(&mut f, length as i128);
        f.append("[");
        push_audio_trim_label(&mut f, i);
        f.append("]");
        assert(f@ =~= atrim_filter(i as int, length as int));
        push_text(filters, f);
    }
    if let Some(ms) = p.audio_delay_ms {
        let mut f = String::new();
        f.append("[");
        push_label_after_trim(&mut f, p, i);
        f.append("]adelay=");
        push_signed(&mut f, ms as i128);
        f.append("|");
        push_signed(&mut f, ms as i128);
        f.append("[");
        push_audio_delay_label(&mut f, i);
        f.append("]");
        assert(f@ =~= adelay_filter(*p, i as int, ms as int));
        push_text(filters, f);
    }
    if let Some(pad) = p.audio_pad {
        let mut f = String::new();
        f.append("[");
        push_label_after_delay(&mut f, p, i);
        f.append("]apad=pad_dur=");
        push_seconds(&mut f, pad as i128);
        f.append("[");
        push_audio_pad_label(&mut f, i);
        f.append("]");
        assert(f@ =~= apad_filter(*p, i as int, pad as int));
        push_text(filters, f);
    }
    assert(texts(filters@) =~= texts(old(filters)@) + audio_clip_filters(*p, i as int));
}

/// The audio filters of `clips`: each track cut to what the next clip's
/// cross-fade leaves of it, delayed to where its clip starts, and padded to
/// the length of the composition; then the mix of all tracks.
pub fn build_audio_sync_filters(clips: &[TimelineClip]) -> (filters: Vec<String>)
    requires
        timeline_fits(clips@),
    ensures
        texts(filters@) == audio_sync_filters(clips@),
{
    let n = clips.len();
    let mut filters: Vec<String> = Vec::new();
    let mut mix = String::new();
    let mut i: usize = 0;
    assert(texts(filters@) =~= audio_filters_upto(clips@, 0));
    while i < n
        invariant
            n == clips.len(),
            i <= n,
            timeline_fits(clips@),
            texts(filters@) == audio_filters_upto(clips@, i as int),
            mix@ == mix_inputs_upto(clips@, i as int),
        decreases n - i,
    {
        let p = place_clip(clips, i);
        push_audio_clip_filters(&mut filters, &p, i);
        mix.append("[");
        push_audio_final_label(&mut mix, &p, i);
        mix.append("]");
        assert(mix@ =~= mix_inputs_upto(clips@, i + 1));
        i = i + 1;
    }
    mix.append("amix=inputs=");
    push_decimal(&mut mix, n as u128);
    mix.append(":duration=longest:dropout_transition=0[outa]");
    assert(mix@ =~= mix_filter(clips@));
    push_text(&mut filters, mix);
    filters
}

/// The filter graph for `clips`: the chain of cross-fades, then the audio
/// part. Fails on fewer than two clips, and on a timeline whose times cannot
/// be held in an `i64`.
pub fn build_transition_filter(clips: &[TimelineClip]) -> (graph: Result<String, String>)
    ensures
        clips@.len() < 2 ==> graph is Err
            && graph->Err_0@ == "At least two clips are required for transitions"@,
        clips@.len() >= 2 && !timeline_fits(clips@) ==> graph is Err
            && graph->Err_0@ == "Clip times are out of range"@,
        clips@.len() >= 2 && timeline_fits(clips@) ==> graph is Ok
            && graph->Ok_0@ == transition_filter(clips@),
{
    if clips.len() < 2 {
        return Err(String::from_str("At least two clips are required for transitions"));
    }
    if !check_timeline(clips) {
        return Err(String::from_str("Clip times are out of range"));
    }
    let mut filter_parts = build_video_transition_filters(clips);
    let audio_filters = build_audio_sync_filters(clips);
    extend_texts(&mut filter_parts, audio_filters);
    Ok(join(&filter_parts, "; "))
}

/// The bracketed audio labels of the first `k` inputs, one after the other.
pub open spec fn audio_inputs_upto(k: int) -> Seq<char>
    decreases k,
{
    if k <= 0 {
        Seq::<char>::empty()
    } else {
        audio_inputs_upto(k - 1) + "["@ + audio_source_label(k - 1) + "]"@
    }
}

/// The filter that plays the audio tracks of `n` inputs one after the other
/// into `[outa]`.
pub open spec fn audio_concat_filter(n: int) -> Seq<char> {
    audio_inputs_upto(n) + "concat=n="@ + decimal(n as nat) + ":v=0:a=1[outa]"@
}

/// The plain graph: the chain of cross-fades, and the audio tracks played
/// one after the other, as they are. The sound of this graph falls behind
/// the picture by the length of every cross-fade; [`transition_filter`]
/// keeps the two together.
pub open spec fn transition_filter_complex(clips: Seq<TimelineClip>) -> Seq<char> {
    join_texts(
        (if clips.len() == 0 {
            Seq::<Seq<char>>::empty()
        } else {
            video_transition_filters(clips)
        }).push(audio_concat_filter(clips.len() as int)),
        "; "@,
    )
}

/// Builds [`transition_filter_complex`].
pub fn build_transition_filter_complex(clips: &[TimelineClip]) -> (graph: String)
    requires
        timeline_fits(clips@),
    ensures
        graph@ == transition_filter_complex(clips@),
{
    let mut filter_parts: Vec<String> = if clips.len() == 0 {
        Vec::new()
    } else {
        build_video_transition_filters(clips)
    };
    assert(clips@.len() == 0 ==> texts(filter_parts@) =~= Seq::<Seq<char>>::empty());
    let n = clips.len();
    let mut audio = String::new();
    let mut i: usize = 0;
    while i < n
        invariant
            i <= n,
            audio@ == audio_inputs_upto(i as int),
        decreases n - i,
    {
        audio.append("[");
        push_audio_source_label(&mut audio, i);
        audio.append("]");
        assert(audio@ =~= audio_inputs_upto(i + 1));
        i = i + 1;
    }
    audio.append("concat=n=");
    push_decimal(&mut audio, n as u128);
    audio.append(":v=0:a=1[outa]");
    assert(audio@ =~= audio_concat_filter(n as int));
    push_text(&mut filter_parts, audio);
    join(&filter_parts, "; ")
}

} // verus!
