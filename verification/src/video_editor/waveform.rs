//! The waveform of a clip: the amplitude of its audio over its trimmed
//! interval, drawn as one image.

use vstd::prelude::*;
use crate::text::{
    contains,
    contains_text,
    decimal,
    push_decimal,
    push_seconds,
    push_text,
    seconds_text,
    texts,
};
use crate::video_editor::concat::{Task, TaskView};

verus! {

/// The filter graph of a waveform of `width` by `height` pixels.
pub open spec fn waveform_filter(width: int, height: int) -> Seq<char> {
    "[0:a]showwavespic=s="@ + decimal(width as nat) + "x"@ + decimal(height as nat)
        + ":colors=0xFFFFFF:scale=lin[v]"@
}

/// Arguments that render the waveform of `[start, end)` of `input` into
/// `output`.
pub open spec fn waveform_args(
    input: Seq<char>,
    start: int,
    end: int,
    output: Seq<char>,
    width: int,
    height: int,
) -> Seq<Seq<char>> {
    seq![
        "-ss"@,
        seconds_text(start),
        "-i"@,
        input,
        "-t"@,
        seconds_text(end - start),
        "-filter_complex"@,
        waveform_filter(width, height),
        "-map"@,
        "[v]"@,
        "-frames:v"@,
        "1"@,
        "-y"@,
        output,
    ]
}

/// Whether the media tool's diagnostics say that the input has no audio
/// stream for the graph to read: the tool then reports that the stream
/// specifier matches no streams.
pub open spec fn reports_no_audio(stderr: Seq<char>) -> bool {
    contains_text(stderr, "matches no streams"@)
}

/// Decides [`reports_no_audio`].
pub fn has_no_audio(stderr: &str) -> (none: bool)
    ensures
        none == reports_no_audio(stderr@),
{
    contains(stderr, "matches no streams")
}

/// Builds [`waveform_filter`].
pub fn build_waveform_filter(width: u32, height: u32) -> (filter: String)
    ensures
        filter@ == waveform_filter(width as int, height as int),
{
    let mut filter = String::from_str("[0:a]showwavespic=s=");
    push_decimal(&mut filter, width as u128);
    filter.append("x");
    push_decimal(&mut filter, height as u128);
    filter.append(":colors=0xFFFFFF:scale=lin[v]");
    assert(filter@ =~= waveform_filter(width as int, height as int));
    filter
}

/// The task that renders the waveform of `[trim_start, trim_end)` of
/// `video_path` into `output_path`, `width` pixels wide and `height` high.
/// An interval that is empty or runs backwards is refused.
pub fn generate_waveform_image(
    video_path: &str,
    trim_start: i64,
    trim_end: i64,
    output_path: &str,
    width: u32,
    height: u32,
) -> (r: Result<Task, String>)
    ensures
        trim_end <= trim_start ==> r is Err && r->Err_0@
            == "Invalid duration: trim_end must be greater than trim_start"@,
        trim_end > trim_start ==> r is Ok && r->Ok_0@ == (TaskView::Run {
            args: waveform_args(
                video_path@,
                trim_start as int,
                trim_end as int,
                output_path@,
                width as int,
                height as int,
            ),
            op: "generate waveform"@,
        }),
{
    if trim_end <= trim_start {
        return Err(String::from_str("Invalid duration: trim_end must be greater than trim_start"));
    }
    let filter_complex = build_waveform_filter(width, height);
    let mut start_text = String::new();
    push_seconds(&mut start_text, trim_start as i128);
    let mut length_text = String::new();
    push_seconds(&mut length_text, trim_end as i128 - trim_start as i128);
    assert(start_text@ =~= seconds_text(trim_start as int));
    assert(length_text@ =~= seconds_text(trim_end - trim_start));
    let mut args: Vec<String> = Vec::new();
    push_text(&mut args, String::from_str("-ss"));
    push_text(&mut args, start_text);
    push_text(&mut args, String::from_str("-i"));
    push_text(&mut args, String::from_str(video_path));
    push_text(&mut args, String::from_str("-t"));
    push_text(&mut args, length_text);
    push_text(&mut args, String::from_str("-filter_complex"));
    push_text(&mut args, filter_complex);
    push_text(&mut args, String::from_str("-map"));
    push_text(&mut args, String::from_str("[v]"));
    push_text(&mut args, String::from_str("-frames:v"));
    push_text(&mut args, String::from_str("1"));
    push_text(&mut args, String::from_str("-y"));
    push_text(&mut args, String::from_str(output_path));
    assert(texts(args@) =~= waveform_args(
        video_path@,
        trim_start as int,
        trim_end as int,
        output_path@,
        width as int,
        height as int,
    ));
    Ok(Task::Run { args, op: String::from_str("generate waveform") })
}

} // verus!
