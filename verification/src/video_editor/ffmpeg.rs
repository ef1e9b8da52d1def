//! The media tool: the argument lists it is invoked with, and what its exit
//! means.
//!
//! The tool runs as a subprocess of the host. The library writes the
//! arguments and reads the outcome; it starts nothing itself.

use vstd::prelude::*;
use crate::projects::paths::{join_path, joined};
use crate::text::{
    decimal,
    lemma_decimal_is_exact,
    push_decimal,
    push_seconds,
    push_text,
    seconds_text,
    texts,
};

verus! {

/// How a run of the media tool ended: whether it exited with status zero, and
/// what it wrote to its error stream.
#[derive(Debug, Clone)]
pub struct ToolOutput {
    pub success: bool,
    pub stderr: String,
}

/// The message for a run of `op` that exited with a failure: the tool's own
/// diagnostics follow the name of the operation, unchanged.
pub open spec fn tool_failure_text(op: Seq<char>, stderr: Seq<char>) -> Seq<char> {
    "FFmpeg "@ + op + " failed: "@ + stderr
}

/// The message for a run of `op` that could not be started.
pub open spec fn spawn_failure_text(op: Seq<char>, error: Seq<char>) -> Seq<char> {
    "Failed to execute ffmpeg for "@ + op + ": "@ + error
}

/// The message for a media tool that could not be found.
pub open spec fn tool_missing_text(error: Seq<char>) -> Seq<char> {
    "Failed to get ffmpeg sidecar: "@ + error
}

/// Whether the media tool can be used at all: the host must be there, and it
/// must have found the tool.
pub fn verify_ffmpeg_available(host_available: bool, tool_found: bool) -> (r: Result<(), String>)
    ensures
        !host_available ==> r is Err && r->Err_0@ == "AppHandle not available"@,
        host_available && !tool_found ==> r is Err && r->Err_0@
            == "FFmpeg sidecar not found. Please ensure it's bundled with the app."@,
        host_available && tool_found ==> r is Ok,
{
    if !host_available {
        Err(String::from_str("AppHandle not available"))
    } else if !tool_found {
        Err(String::from_str("FFmpeg sidecar not found. Please ensure it's bundled with the app."))
    } else {
        Ok(())
    }
}

/// Builds [`tool_failure_text`].
pub fn tool_failure_message(op: &str, stderr: &str) -> (message: String)
    ensures
        message@ == tool_failure_text(op@, stderr@),
{
    let mut message = String::from_str("FFmpeg ");
    message.append(op);
    message.append(" failed: ");
    message.append(stderr);
    message
}

/// Builds [`spawn_failure_text`].
pub fn spawn_failure_message(op: &str, error: &str) -> (message: String)
    ensures
        message@ == spawn_failure_text(op@, error@),
{
    let mut message = String::from_str("Failed to execute ffmpeg for ");
    message.append(op);
    message.append(": ");
    message.append(error);
    message
}

/// Builds [`tool_missing_text`].
pub fn tool_missing_message(error: &str) -> (message: String)
    ensures
        message@ == tool_missing_text(error@),
{
    let mut message = String::from_str("Failed to get ffmpeg sidecar: ");
    message.append(error);
    message
}

/// What a finished run of `op` means: success on exit status zero, else the
/// failure with the tool's diagnostics word for word.
pub fn run_outcome(op: &str, output: &ToolOutput) -> (r: Result<(), String>)
    ensures
        output.success ==> r is Ok,
        !output.success ==> r is Err && r->Err_0@ == tool_failure_text(op@, output.stderr@),
{
    if output.success {
        Ok(())
    } else {
        Err(tool_failure_message(op, output.stderr.as_str()))
    }
}

/// Arguments that cut `[start, end)` out of `input` into `output` without
/// re-encoding.
pub open spec fn trim_args(input: Seq<char>, start: int, end: int, output: Seq<char>) -> Seq<
    Seq<char>,
> {
    seq![
        "-ss"@,
        seconds_text(start),
        "-i"@,
        input,
        "-t"@,
        seconds_text(end - start),
        "-c"@,
        "copy"@,
        "-y"@,
        output,
    ]
}

/// Arguments that cut `[start, end)` out of `input` into `output` and
/// re-encode it to the intermediate profile that a filter graph needs of all
/// its inputs: H.264 at preset `superfast` and CRF 23, AAC at 128 kbit/s.
pub open spec fn encode_args(input: Seq<char>, start: int, end: int, output: Seq<char>) -> Seq<
    Seq<char>,
> {
    seq![
        "-ss"@,
        seconds_text(start),
        "-i"@,
        input,
        "-t"@,
        seconds_text(end - start),
        "-c:v"@,
        "libx264"@,
        "-preset"@,
        "superfast"@,
        "-crf"@,
        "23"@,
        "-c:a"@,
        "aac"@,
        "-b:a"@,
        "128k"@,
        "-y"@,
        output,
    ]
}

/// Arguments that join the files listed in the manifest `list` into `output`
/// without re-encoding.
pub open spec fn concat_args(list: Seq<char>, output: Seq<char>) -> Seq<Seq<char>> {
    seq!["-f"@, "concat"@, "-safe"@, "0"@, "-i"@, list, "-c"@, "copy"@, "-y"@, output]
}

/// `-i` before each of `inputs`.
pub open spec fn input_args(inputs: Seq<Seq<char>>) -> Seq<Seq<char>>
    decreases inputs.len(),
{
    if inputs.len() == 0 {
        Seq::<Seq<char>>::empty()
    } else {
        input_args(inputs.drop_last()) + seq!["-i"@, inputs.last()]
    }
}

/// Arguments that run the filter graph `graph` over `inputs` and encode its
/// two outputs, `[out]` and `[outa]`, into `output`.
pub open spec fn transition_args(inputs: Seq<Seq<char>>, graph: Seq<char>, output: Seq<char>) -> Seq<
    Seq<char>,
> {
    input_args(inputs) + seq![
        "-filter_complex"@,
        graph,
        "-map"@,
        "[out]"@,
        "-map"@,
        "[outa]"@,
        "-c:v"@,
        "libx264"@,
        "-preset"@,
        "superfast"@,
        "-crf"@,
        "23"@,
        "-c:a"@,
        "aac"@,
        "-b:a"@,
        "128k"@,
        "-y"@,
        output,
    ]
}

/// Name of the intermediate file of clip `i`.
pub open spec fn temp_clip_name(i: nat) -> Seq<char> {
    "clip_"@ + decimal(i) + ".mp4"@
}

/// Path of the intermediate file of clip `i` in `temp_dir`.
pub open spec fn temp_clip_path(temp_dir: Seq<char>, i: nat) -> Seq<char> {
    joined(temp_dir, temp_clip_name(i))
}

/// Paths of the intermediate files of the first `n` clips.
pub open spec fn temp_clip_paths(temp_dir: Seq<char>, n: nat) -> Seq<Seq<char>> {
    Seq::new(n, |i: int| temp_clip_path(temp_dir, i as nat))
}

/// Path of the manifest in `temp_dir`.
pub open spec fn manifest_path(temp_dir: Seq<char>) -> Seq<char> {
    joined(temp_dir, "concat_list.txt"@)
}

/// The manifest line that names `path`.
pub open spec fn manifest_line(path: Seq<char>) -> Seq<char> {
    "file '"@ + path + "'\n"@
}

/// The manifest: one line for each of `files`, in their order.
pub open spec fn manifest_text(files: Seq<Seq<char>>) -> Seq<char>
    decreases files.len(),
{
    if files.len() == 0 {
        Seq::<char>::empty()
    } else {
        manifest_text(files.drop_last()) + manifest_line(files.last())
    }
}

/// Pushes the start and length of a cut: `-ss start -i input -t length`.
fn push_cut(args: &mut Vec<String>, input: &str, start: i64, end: i64)
    ensures
        texts(final(args)@) == texts(old(args)@) + seq![
            "-ss"@,
            seconds_text(start as int),
            "-i"@,
            input@,
            "-t"@,
            seconds_text(end - start),
        ],
{
    let mut start_text = String::new();
    push_seconds(&mut start_text, start as i128);
    let mut length_text = String::new();
    push_seconds(&mut length_text, end as i128 - start as i128);
    assert(start_text@ =~= seconds_text(start as int));
    assert(length_text@ =~= seconds_text(end - start));
    push_text(args, String::from_str("-ss"));
    push_text(args, start_text);
    push_text(args, String::from_str("-i"));
    push_text(args, String::from_str(input));
    push_text(args, String::from_str("-t"));
    push_text(args, length_text);
    assert(texts(args@) =~= texts(old(args)@) + seq![
        "-ss"@,
        seconds_text(start as int),
        "-i"@,
        input@,
        "-t"@,
        seconds_text(end - start),
    ]);
}

/// Pushes the flags of the encoding profile.
fn push_encoding(args: &mut Vec<String>)
    ensures
        texts(final(args)@) == texts(old(args)@) + seq![
            "-c:v"@,
            "libx264"@,
            "-preset"@,
            "superfast"@,
            "-crf"@,
            "23"@,
            "-c:a"@,
            "aac"@,
            "-b:a"@,
            "128k"@,
        ],
{
    push_text(args, String::from_str("-c:v"));
    push_text(args, String::from_str("libx264"));
    push_text(args, String::from_str("-preset"));
    push_text(args, String::from_str("superfast"));
    push_text(args, String::from_str("-crf"));
    push_text(args, String::from_str("23"));
    push_text(args, String::from_str("-c:a"));
    push_text(args, String::from_str("aac"));
    push_text(args, String::from_str("-b:a"));
    push_text(args, String::from_str("128k"));
    assert(texts(args@) =~= texts(old(args)@) + seq![
        "-c:v"@,
        "libx264"@,
        "-preset"@,
        "superfast"@,
        "-crf"@,
        "23"@,
        "-c:a"@,
        "aac"@,
        "-b:a"@,
        "128k"@,
    ]);
}

/// Builds [`trim_args`].
pub fn build_trim_args(input: &str, start: i64, end: i64, output: &str) -> (args: Vec<String>)
    ensures
        texts(args@) == trim_args(input@, start as int, end as int, output@),
{
    let mut args: Vec<String> = Vec::new();
    push_cut(&mut args, input, start, end);
    push_text(&mut args, String::from_str("-c"));
    push_text(&mut args, String::from_str("copy"));
    push_text(&mut args, String::from_str("-y"));
    push_text(&mut args, String::from_str(output));
    assert(texts(args@) =~= trim_args(input@, start as int, end as int, output@));
    args
}

/// Builds [`encode_args`].
pub fn build_encode_args(input: &str, start: i64, end: i64, output: &str) -> (args: Vec<String>)
    ensures
        texts(args@) == encode_args(input@, start as int, end as int, output@),
{
    let mut args: Vec<String> = Vec::new();
    push_cut(&mut args, input, start, end);
    push_encoding(&mut args);
    push_text(&mut args, String::from_str("-y"));
    push_text(&mut args, String::from_str(output));
    assert(texts(args@) =~= encode_args(input@, start as int, end as int, output@));
    args
}

/// Builds [`concat_args`].
pub fn build_concat_args(list: &str, output: &str) -> (args: Vec<String>)
    ensures
        texts(args@) == concat_args(list@, output@),
{
    let mut args: Vec<String> = Vec::new();
    push_text(&mut args, String::from_str("-f"));
    push_text(&mut args, String::from_str("concat"));
    push_text(&mut args, String::from_str("-safe"));
    push_text(&mut args, String::from_str("0"));
    push_text(&mut args, String::from_str("-i"));
    push_text(&mut args, String::from_str(list));
    push_text(&mut args, String::from_str("-c"));
    push_text(&mut args, String::from_str("copy"));
    push_text(&mut args, String::from_str("-y"));
    push_text(&mut args, String::from_str(output));
    assert(texts(args@) =~= concat_args(list@, output@));
    args
}

/// Builds [`transition_args`].
pub fn build_transition_args(inputs: &Vec<String>, graph: &str, output: &str) -> (args: Vec<String>)
    ensures
        texts(args@) == transition_args(texts(inputs@), graph@, output@),
{
    let mut args: Vec<String> = Vec::new();
    let mut i: usize = 0;
    assert(texts(inputs@).take(0) =~= Seq::<Seq<char>>::empty());
    assert(texts(args@) =~= input_args(texts(inputs@).take(0)));
    while i < inputs.len()
        invariant
            i <= inputs.len(),
            texts(args@) == input_args(texts(inputs@).take(i as int)),
        decreases inputs.len() - i,
    {
        let ghost before = texts(inputs@).take(i as int);
        let ghost after = texts(inputs@).take(i + 1);
        assert(after.drop_last() =~= before);
        assert(after.last() == inputs@[i as int]@);
        push_text(&mut args, String::from_str("-i"));
        push_text(&mut args, inputs[i].clone());
        assert(texts(args@) =~= input_args(after));
        i = i + 1;
    }
    assert(texts(inputs@).take(inputs.len() as int) =~= texts(inputs@));
    let ghost head = texts(args@);
    push_text(&mut args, String::from_str("-filter_complex"));
    push_text(&mut args, String::from_str(graph));
    push_text(&mut args, String::from_str("-map"));
    push_text(&mut args, String::from_str("[out]"));
    push_text(&mut args, String::from_str("-map"));
    push_text(&mut args, String::from_str("[outa]"));
    push_encoding(&mut args);
    push_text(&mut args, String::from_str("-y"));
    push_text(&mut args, String::from_str(output));
    assert(texts(args@) =~= transition_args(texts(inputs@), graph@, output@));
    args
}

/// Builds [`temp_clip_path`].
pub fn build_temp_clip_path(temp_dir: &str, i: usize) -> (path: String)
    ensures
        path@ == temp_clip_path(temp_dir@, i as nat),
{
    let mut name = String::from_str("clip_");
    push_decimal(&mut name, i as u128);
    name.append(".mp4");
    join_path(temp_dir, name.as_str())
}

/// Builds [`temp_clip_paths`].
pub fn build_temp_clip_paths(temp_dir: &str, n: usize) -> (paths: Vec<String>)
    ensures
        texts(paths@) == temp_clip_paths(temp_dir@, n as nat),
{
    let mut paths: Vec<String> = Vec::new();
    let mut i: usize = 0;
    while i < n
        invariant
            i <= n,
            texts(paths@) == temp_clip_paths(temp_dir@, i as nat),
        decreases n - i,
    {
        push_text(&mut paths, build_temp_clip_path(temp_dir, i));
        assert(texts(paths@) =~= temp_clip_paths(temp_dir@, (i + 1) as nat));
        i = i + 1;
    }
    paths
}

/// Builds [`manifest_path`].
pub fn build_manifest_path(temp_dir: &str) -> (path: String)
    ensures
        path@ == manifest_path(temp_dir@),
{
    join_path(temp_dir, "concat_list.txt")
}

/// Builds [`manifest_text`].
pub fn build_manifest(files: &Vec<String>) -> (manifest: String)
    ensures
        manifest@ == manifest_text(texts(files@)),
{
    let mut manifest = String::new();
    let mut i: usize = 0;
    assert(texts(files@).take(0) =~= Seq::<Seq<char>>::empty());
    while i < files.len()
        invariant
            i <= files.len(),
            manifest@ == manifest_text(texts(files@).take(i as int)),
        decreases files.len() - i,
    {
        let ghost before = texts(files@).take(i as int);
        let ghost after = texts(files@).take(i + 1);
        assert(after.drop_last() =~= before);
        assert(after.last() == files@[i as int]@);
        manifest.append("file '");
        manifest.append(files[i].as_str());
        manifest.append("'\n");
        assert(manifest@ =~= manifest_text(after));
        i = i + 1;
    }
    assert(texts(files@).take(files.len() as int) =~= texts(files@));
    manifest
}

/// Where the media tool lies when it is bundled with the host: in the
/// directory `binaries` of the host's resources, named after the kind of
/// machine it runs on, with `.exe` behind the name on Windows.
pub open spec fn bundled_tool_path(resource_dir: Seq<char>, target_triple: Seq<char>, windows: bool) -> Seq<
    char,
> {
    joined(
        resource_dir,
        "binaries/ffmpeg-"@ + target_triple + (if windows {
            ".exe"@
        } else {
            Seq::<char>::empty()
        }),
    )
}

/// Builds [`bundled_tool_path`].
pub fn build_bundled_tool_path(resource_dir: &str, target_triple: &str, windows: bool) -> (path:
    String)
    ensures
        path@ == bundled_tool_path(resource_dir@, target_triple@, windows),
{
    let mut name = String::from_str("binaries/ffmpeg-");
    name.append(target_triple);
    if windows {
        name.append(".exe");
    }
    assert(name@ =~= "binaries/ffmpeg-"@ + target_triple@ + (if windows {
        ".exe"@
    } else {
        Seq::<char>::empty()
    }));
    join_path(resource_dir, name.as_str())
}

/// The path of the bundled media tool, if all speaks for its being there:
/// the host knows of the tool, it has a directory of resources, and the file
/// of the tool lies in it.
pub fn get_ffmpeg_path(
    tool_found: bool,
    resource_dir: Option<&str>,
    target_triple: &str,
    windows: bool,
    file_exists: bool,
) -> (r: Result<String, String>)
    ensures
        tool_found && resource_dir is Some && file_exists ==> r is Ok && r->Ok_0@
            == bundled_tool_path(resource_dir->Some_0@, target_triple@, windows),
        !(tool_found && resource_dir is Some && file_exists) ==> r is Err && r->Err_0@
            == "FFmpeg not found. Please install FFmpeg or ensure it's bundled with the app."@,
{
    match resource_dir {
        Some(dir) => {
            if tool_found && file_exists {
                return Ok(build_bundled_tool_path(dir, target_triple, windows));
            }
        },
        None => {},
    }
    Err(
        String::from_str(
            "FFmpeg not found. Please install FFmpeg or ensure it's bundled with the app.",
        ),
    )
}

/// Every clip has an intermediate file of its own, and none of them is the
/// manifest: no cut overwrites another, and nothing is removed twice.
pub proof fn lemma_temp_files_differ(temp_dir: Seq<char>, i: nat, j: nat)
    requires
        i != j,
    ensures
        temp_clip_path(temp_dir, i) != temp_clip_path(temp_dir, j),
        temp_clip_path(temp_dir, i) != manifest_path(temp_dir),
{
    reveal_strlit("clip_");
    reveal_strlit(".mp4");
    reveal_strlit("concat_list.txt");
    let first = temp_clip_name(i);
    let second = temp_clip_name(j);
    let list = "concat_list.txt"@;
    let d1 = decimal(i);
    let d2 = decimal(j);
    assert(first[0] == 'c' && first[1] == 'l');
    assert(second[0] == 'c');
    assert(list[0] == 'c' && list[1] == 'o');
    let head = if temp_dir.len() == 0 || temp_dir.last() == '/' {
        temp_dir
    } else {
        temp_dir + seq!['/']
    };
    assert(temp_clip_path(temp_dir, i) =~= head + first);
    assert(temp_clip_path(temp_dir, j) =~= head + second);
    assert(manifest_path(temp_dir) =~= head + list);
    assert((head + first)[head.len() as int + 1] == 'l');
    assert((head + list)[head.len() as int + 1] == 'o');
    if temp_clip_path(temp_dir, i) == temp_clip_path(temp_dir, j) {
        assert(first =~= (head + first).skip(head.len() as int));
        assert(second =~= (head + second).skip(head.len() as int));
        assert(first == second);
        assert(first.len() == 5 + d1.len() + 4);
        assert(second.len() == 5 + d2.len() + 4);
        assert(d1 =~= first.subrange(5, 5 + d1.len() as int));
        assert(d2 =~= second.subrange(5, 5 + d2.len() as int));
        lemma_decimal_is_exact(i, j);
    }
}

} // verus!
