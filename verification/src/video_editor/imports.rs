//! Videos brought into a project from elsewhere, and the way out of it for a
//! finished preview.
//!
//! An imported video is filed among the project's videos under an id that
//! starts with `imported_`.

use vstd::prelude::*;
use crate::image::file_name_of;
use crate::projects::paths::{joined, ProjectPaths};
use crate::sorting::{arranged, is_stable_order, lemma_stable_order_is_unique, stable_order};
use crate::text::{
    after_last,
    ends_with,
    ends_with_text,
    find_after_last,
    starts_with,
    starts_with_text,
    to_chars,
};
use crate::video_editor::ffmpeg::verify_ffmpeg_available;

verus! {

/// What is known of an imported video. Times are whole microseconds, the
/// time of creation is in seconds since the epoch.
#[derive(Debug, Clone, PartialEq, Eq)]
pub struct ImportedVideo {
    pub id: String,
    pub name: String,
    pub video_path: String,
    pub original_duration: i64,
    pub created_at: i64,
}

/// An [`ImportedVideo`] as text.
pub struct ImportedVideoView {
    pub id: Seq<char>,
    pub name: Seq<char>,
    pub video_path: Seq<char>,
    pub original_duration: i64,
    pub created_at: i64,
}

impl View for ImportedVideo {
    type V = ImportedVideoView;

    open spec fn view(&self) -> ImportedVideoView {
        ImportedVideoView {
            id: self.id@,
            name: self.name@,
            video_path: self.video_path@,
            original_duration: self.original_duration,
            created_at: self.created_at,
        }
    }
}

/// The views of a list of videos.
pub open spec fn video_views(videos: Seq<ImportedVideo>) -> Seq<ImportedVideoView> {
    Seq::new(videos.len(), |i: int| videos[i]@)
}

/// `uuid::Uuid::new_v4`, written out by the `Display` of `Uuid`. The value
/// is random: nothing is claimed of it.
#[verifier::external_body]
fn new_uuid_text() -> (text: String) {
    uuid::Uuid::new_v4().to_string()
}

/// `s` without its hyphens.
pub open spec fn without_hyphens(s: Seq<char>) -> Seq<char>
    decreases s.len(),
{
    if s.len() == 0 {
        Seq::<char>::empty()
    } else if s.last() == '-' {
        without_hyphens(s.drop_last())
    } else {
        without_hyphens(s.drop_last()).push(s.last())
    }
}

/// The id of an imported video, made from a unique text: the text without
/// its hyphens, behind `imported_`.
pub open spec fn imported_id(unique: Seq<char>) -> Seq<char> {
    "imported_"@ + without_hyphens(unique)
}

/// Builds [`imported_id`].
pub fn imported_video_id(unique: &str) -> (id: String)
    ensures
        id@ == imported_id(unique@),
{
    let chars = to_chars(unique);
    let mut id = String::from_str("imported_");
    let mut from: usize = 0;
    let mut i: usize = 0;
    assert(chars@.take(0) =~= Seq::<char>::empty());
    while i < chars.len()
        invariant
            from <= i <= chars.len(),
            chars@ == unique@,
            forall|k: int| from <= k < i ==> chars@[k] != '-',
            id@ + chars@.subrange(from as int, i as int) == "imported_"@ + without_hyphens(
                chars@.take(i as int),
            ),
        decreases chars.len() - i,
    {
        let ghost seen = chars@.take(i as int);
        let ghost next = chars@.take(i + 1);
        assert(next.drop_last() =~= seen);
        assert(next.last() == chars@[i as int]);
        if chars[i] == '-' {
            id.append(unique.substring_char(from, i));
            from = i + 1;
            assert(chars@.subrange(i + 1, i + 1) =~= Seq::<char>::empty());
            assert(id@ + chars@.subrange(from as int, i + 1) =~= "imported_"@ + without_hyphens(
                next,
            ));
        } else {
            assert(chars@.subrange(from as int, i + 1) =~= chars@.subrange(
                from as int,
                i as int,
            ).push(chars@[i as int]));
            assert(id@ + chars@.subrange(from as int, i + 1) =~= (id@ + chars@.subrange(
                from as int,
                i as int,
            )).push(chars@[i as int]));
        }
        i = i + 1;
    }
    id.append(unique.substring_char(from, chars.len()));
    assert(chars@.take(chars@.len() as int) =~= chars@);
    id
}

/// An id made by [`imported_id`] starts with `imported_`.
pub proof fn lemma_imported_id_prefix(unique: Seq<char>)
    ensures
        starts_with_text(imported_id(unique), "imported_"@),
{
    let id = imported_id(unique);
    let prefix = "imported_"@;
    assert(id.subrange(0, prefix.len() as int) =~= prefix);
}

/// A fresh id for an imported video: see [`imported_id`]. The text it is
/// made from is random, so two ids are never known to be equal; every one
/// starts with `imported_`.
pub fn new_imported_video_id() -> (id: String)
    ensures
        starts_with_text(id@, "imported_"@),
{
    let unique = new_uuid_text();
    proof {
        lemma_imported_id_prefix(unique@);
    }
    imported_video_id(unique.as_str())
}

/// The name under which the file `file_name` is shown: what stands between
/// its last two points, or before its only point; the whole name if it has
/// no point.
pub open spec fn display_name(file_name: Seq<char>) -> Seq<char> {
    let last = after_last(file_name, '.', file_name.len() as int);
    if last == 0 {
        file_name
    } else {
        let stem = file_name.take(last - 1);
        stem.skip(after_last(stem, '.', stem.len() as int))
    }
}

/// The name of the file that `source_path` leads to, or `Imported Video`
/// where it leads to none: where nothing follows the last separator, or two
/// dots do.
pub open spec fn original_name(source_path: Seq<char>) -> Seq<char> {
    let name = file_name_of(source_path);
    if name.len() == 0 || name == ".."@ {
        "Imported Video"@
    } else {
        name
    }
}

/// Builds [`display_name`] of [`original_name`].
pub fn imported_display_name(source_path: &str) -> (name: String)
    ensures
        name@ == display_name(original_name(source_path@)),
{
    let chars = to_chars(source_path);
    let n = chars.len();
    let start = find_after_last(&chars, '/', 0, n);
    proof {
        reveal_strlit("..");
        assert(chars@.subrange(0, n as int) =~= chars@);
        let name = file_name_of(source_path@);
        assert(name =~= chars@.subrange(start as int, n as int));
        if name.len() == 2 && name[0] == '.' && name[1] == '.' {
            assert(name =~= ".."@);
        }
    }
    if n - start == 0 || (n - start == 2 && chars[start] == '.' && chars[start + 1] == '.') {
        proof {
            reveal_strlit("Imported Video");
            let fallback = "Imported Video"@;
            assert(after_last(fallback, '.', 14) == 0) by {
                reveal_with_fuel(after_last, 15);
            }
        }
        return String::from_str("Imported Video");
    }
    let last = find_after_last(&chars, '.', start, n);
    if last == start {
        return String::from_str(source_path.substring_char(start, n));
    }
    let prev = find_after_last(&chars, '.', start, last - 1);
    proof {
        let name = chars@.subrange(start as int, n as int);
        let stem = name.take(last - start - 1);
        assert(stem =~= chars@.subrange(start as int, last - 1));
        assert(stem.skip(prev - start) =~= chars@.subrange(prev as int, last - 1));
    }
    String::from_str(source_path.substring_char(prev, last - 1))
}

/// A video that is to be imported: what to do, and what will be known of
/// the video.
#[derive(Debug, Clone, PartialEq, Eq)]
pub struct VideoImport {
    /// The directory of the project's videos, which is made first.
    pub videos_dir: String,
    /// The file that is copied.
    pub source: String,
    /// Where it is copied to.
    pub destination: String,
    /// What is known of the video once it is copied.
    pub video: ImportedVideo,
}

/// What importing the file `source_path` under the id `id` comes to. What
/// stands in the way is reported in this order: a media tool that cannot be
/// used; no file chosen; a duration that the probe could not tell, whose
/// error is handed on; a project that could not be found, likewise.
pub fn import_video_as(
    id: String,
    host_available: bool,
    tool_found: bool,
    source_path: Option<&str>,
    duration: Result<i64, String>,
    project: Result<ProjectPaths, String>,
    now: i64,
) -> (r: Result<VideoImport, String>)
    ensures
        !host_available ==> r is Err && r->Err_0@ == "AppHandle not available"@,
        host_available && !tool_found ==> r is Err && r->Err_0@
            == "FFmpeg sidecar not found. Please ensure it's bundled with the app."@,
        host_available && tool_found && source_path is None ==> r is Err && r->Err_0@
            == "File selection cancelled"@,
        host_available && tool_found && source_path is Some && duration is Err ==> r is Err
            && r->Err_0 == duration->Err_0,
        host_available && tool_found && source_path is Some && duration is Ok && project is Err
            ==> r is Err && r->Err_0 == project->Err_0,
        host_available && tool_found && source_path is Some && duration is Ok && project is Ok
            ==> r is Ok && {
            let import = r->Ok_0;
            &&& import.videos_dir@ == joined(project->Ok_0@, "videos"@)
            &&& import.source@ == source_path->Some_0@
            &&& import.destination@ == joined(joined(project->Ok_0@, "videos"@), id@)
            &&& import.video@ == (ImportedVideoView {
                id: id@,
                name: display_name(original_name(source_path->Some_0@)),
                video_path: import.destination@,
                original_duration: duration->Ok_0,
                created_at: now,
            })
        },
{
    match verify_ffmpeg_available(host_available, tool_found) {
        Err(e) => {
            return Err(e);
        },
        Ok(_) => {},
    }
    let source = match source_path {
        Some(path) => path,
        None => {
            return Err(String::from_str("File selection cancelled"));
        },
    };
    let original_duration = match duration {
        Ok(d) => d,
        Err(e) => {
            return Err(e);
        },
    };
    let paths = match project {
        Ok(paths) => paths,
        Err(e) => {
            return Err(e);
        },
    };
    let destination = paths.video_file(id.as_str());
    Ok(
        VideoImport {
            videos_dir: paths.videos_dir(),
            source: String::from_str(source),
            destination: destination.clone(),
            video: ImportedVideo {
                id,
                name: imported_display_name(source),
                video_path: destination,
                original_duration,
                created_at: now,
            },
        },
    )
}

/// What importing the file `source_path` comes to, under a fresh id: see
/// [`import_video_as`]. The id is random; it starts with `imported_`, and
/// the video is filed under it.
pub fn import_video(
    host_available: bool,
    tool_found: bool,
    source_path: Option<&str>,
    duration: Result<i64, String>,
    project: Result<ProjectPaths, String>,
    now: i64,
) -> (r: Result<VideoImport, String>)
    ensures
        !host_available ==> r is Err && r->Err_0@ == "AppHandle not available"@,
        host_available && !tool_found ==> r is Err && r->Err_0@
            == "FFmpeg sidecar not found. Please ensure it's bundled with the app."@,
        host_available && tool_found && source_path is None ==> r is Err && r->Err_0@
            == "File selection cancelled"@,
        host_available && tool_found && source_path is Some && duration is Err ==> r is Err
            && r->Err_0 == duration->Err_0,
        host_available && tool_found && source_path is Some && duration is Ok && project is Err
            ==> r is Err && r->Err_0 == project->Err_0,
        host_available && tool_found && source_path is Some && duration is Ok && project is Ok
            ==> r is Ok && {
            let import = r->Ok_0;
            &&& starts_with_text(import.video.id@, "imported_"@)
            &&& import.videos_dir@ == joined(project->Ok_0@, "videos"@)
            &&& import.source@ == source_path->Some_0@
            &&& import.destination@ == joined(joined(project->Ok_0@, "videos"@), import.video.id@)
            &&& import.video.name@ == display_name(original_name(source_path->Some_0@))
            &&& import.video.video_path@ == import.destination@
            &&& import.video.original_duration == duration->Ok_0
            &&& import.video.created_at == now
        },
{
    let id = new_imported_video_id();
    import_video_as(id, host_available, tool_found, source_path, duration, project, now)
}

/// The message for the directory of videos that could not be made.
pub fn videos_dir_failure(error: &str) -> (message: String)
    ensures
        message@ == "Failed to create videos directory: "@ + error@,
{
    let mut message = String::from_str("Failed to create videos directory: ");
    message.append(error);
    message
}

/// The message for a video that could not be copied.
pub fn copy_failure(error: &str) -> (message: String)
    ensures
        message@ == "Failed to copy video file: "@ + error@,
{
    let mut message = String::from_str("Failed to copy video file: ");
    message.append(error);
    message
}

/// An entry of the directory of videos, with what the host found out of it.
#[derive(Debug, PartialEq, Eq)]
pub struct VideoFile {
    pub file_name: String,
    pub path: String,
    /// Whether the entry is a file.
    pub is_file: bool,
    /// The duration in microseconds, or why the probe could not tell it.
    pub duration: Result<i64, String>,
    /// When the file was made, in seconds since the epoch, or why that is
    /// not known.
    pub created_at: Result<i64, String>,
}

/// A [`VideoFile`] as text.
pub struct VideoFileView {
    pub file_name: Seq<char>,
    pub path: Seq<char>,
    pub is_file: bool,
    pub duration: Result<i64, Seq<char>>,
    pub created_at: Result<i64, Seq<char>>,
}

impl View for VideoFile {
    type V = VideoFileView;

    open spec fn view(&self) -> VideoFileView {
        VideoFileView {
            file_name: self.file_name@,
            path: self.path@,
            is_file: self.is_file,
            duration: match self.duration {
                Ok(d) => Ok(d),
                Err(e) => Err(e@),
            },
            created_at: match self.created_at {
                Ok(t) => Ok(t),
                Err(e) => Err(e@),
            },
        }
    }
}

/// The views of a list of entries.
pub open spec fn file_views(files: Seq<VideoFile>) -> Seq<VideoFileView> {
    Seq::new(files.len(), |i: int| files[i]@)
}

/// The id of the video in the file `file_name`: the name without `.mp4` at
/// its end.
pub open spec fn id_of_file(file_name: Seq<char>) -> Seq<char> {
    if ends_with_text(file_name, ".mp4"@) {
        file_name.take(file_name.len() - 4)
    } else {
        file_name
    }
}

/// The name under which the imported video `id` is listed: `Imported Video`
/// with the first eight characters behind `imported_` in brackets, if there
/// are eight; the id itself if it does not start with `imported_`.
pub open spec fn listed_name(id: Seq<char>) -> Seq<char> {
    if starts_with_text(id, "imported_"@) {
        if id.len() - 9 >= 8 {
            "Imported Video ("@ + id.subrange(9, 17) + ")"@
        } else {
            "Imported Video"@
        }
    } else {
        id
    }
}

/// Whether the entry `file` is listed: a file whose name starts with
/// `imported_` and whose duration the probe could tell.
pub open spec fn is_listed(file: VideoFileView) -> bool {
    file.is_file && starts_with_text(file.file_name, "imported_"@) && file.duration is Ok
}

/// What is listed of the entry `file`, with the time `created_at`.
pub open spec fn listed_video(file: VideoFileView, created_at: i64) -> ImportedVideoView {
    ImportedVideoView {
        id: id_of_file(file.file_name),
        name: listed_name(id_of_file(file.file_name)),
        video_path: file.path,
        original_duration: file.duration->Ok_0,
        created_at,
    }
}

/// The imported videos among the first `k` entries, in the order of the
/// entries; or the failure of the first listed entry whose time is not
/// known.
pub open spec fn listed_upto(files: Seq<VideoFileView>, k: int) -> Result<
    Seq<ImportedVideoView>,
    Seq<char>,
>
    decreases k,
{
    if k <= 0 {
        Ok(Seq::<ImportedVideoView>::empty())
    } else {
        match listed_upto(files, k - 1) {
            Err(e) => Err(e),
            Ok(videos) => if is_listed(files[k - 1]) {
                match files[k - 1].created_at {
                    Ok(t) => Ok(videos.push(listed_video(files[k - 1], t))),
                    Err(e) => Err(e),
                }
            } else {
                Ok(videos)
            },
        }
    }
}

/// A listing that has failed stays failed, with the same failure.
pub proof fn lemma_listing_failure_stays(files: Seq<VideoFileView>, k: int, n: int)
    requires
        listed_upto(files, k) is Err,
        k <= n,
    ensures
        listed_upto(files, n) == listed_upto(files, k),
    decreases n - k,
{
    if k < n {
        lemma_listing_failure_stays(files, k, n - 1);
    }
}

/// The keys by which videos are listed: the time each was made.
pub open spec fn creation_keys(videos: Seq<ImportedVideoView>) -> Seq<i64> {
    Seq::new(videos.len(), |i: int| videos[i].created_at)
}

/// `videos` with the newest first; videos of one time stay as they stood.
pub open spec fn newest_first(videos: Seq<ImportedVideoView>) -> Seq<ImportedVideoView> {
    arranged(
        videos,
        choose|order: Seq<usize>| is_stable_order(creation_keys(videos), true, order),
    )
}

/// The list of imported videos, from the entries of the directory of videos:
/// nothing where there is no such directory; else the listed entries, the
/// newest first.
pub open spec fn imported_listing(dir_exists: bool, files: Seq<VideoFileView>) -> Result<
    Seq<ImportedVideoView>,
    Seq<char>,
> {
    if !dir_exists {
        Ok(Seq::<ImportedVideoView>::empty())
    } else {
        match listed_upto(files, files.len() as int) {
            Ok(videos) => Ok(newest_first(videos)),
            Err(e) => Err(e),
        }
    }
}

/// Builds [`listed_name`] of [`id_of_file`], and the id.
fn listed_id_and_name(file_name: &str) -> (r: (String, String))
    requires
        starts_with_text(file_name@, "imported_"@),
    ensures
        r.0@ == id_of_file(file_name@),
        r.1@ == listed_name(id_of_file(file_name@)),
{
    let chars = to_chars(file_name);
    let n = chars.len();
    let end: usize = if ends_with(file_name, ".mp4") {
        proof {
            reveal_strlit(".mp4");
        }
        n - 4
    } else {
        n
    };
    let id = file_name.substring_char(0, end);
    proof {
        reveal_strlit("imported_");
        reveal_strlit(".mp4");
        let prefix = "imported_"@;
        assert(file_name@.subrange(0, 9) == prefix);
        assert(file_name@.subrange(0, 9)[8] == '_');
        if end < n {
            let tail = file_name@.subrange(n - 4, n as int);
            assert(tail[0] == '.');
            assert(n - 4 >= 9) by {
                if n - 4 < 9 {
                    assert(file_name@.subrange(0, 9)[n - 4] == file_name@[n - 4]);
                    assert(tail[0] == file_name@[n - 4]);
                    assert(prefix[n - 4] != '.');
                }
            }
        }
        assert(id@.subrange(0, 9) =~= file_name@.subrange(0, 9));
        assert(id@ =~= id_of_file(file_name@));
    }
    let name = if end - 9 >= 8 {
        let mut name = String::from_str("Imported Video (");
        name.append(file_name.substring_char(9, 17));
        name.append(")");
        assert(id@.subrange(9, 17) =~= file_name@.subrange(9, 17));
        name
    } else {
        String::from_str("Imported Video")
    };
    (String::from_str(id), name)
}

/// Lists the imported videos of a project: see [`imported_listing`]. A media
/// tool that cannot be used and a project that could not be found are
/// reported first.
pub fn list_imported_videos(
    host_available: bool,
    tool_found: bool,
    project_found: Result<(), String>,
    dir_exists: bool,
    files: &Vec<VideoFile>,
) -> (r: Result<Vec<ImportedVideo>, String>)
    ensures
        !host_available ==> r is Err && r->Err_0@ == "AppHandle not available"@,
        host_available && !tool_found ==> r is Err && r->Err_0@
            == "FFmpeg sidecar not found. Please ensure it's bundled with the app."@,
        host_available && tool_found && project_found is Err ==> r is Err && r->Err_0
            == project_found->Err_0,
        host_available && tool_found && project_found is Ok ==> match imported_listing(
            dir_exists,
            file_views(files@),
        ) {
            Ok(videos) => r is Ok && video_views(r->Ok_0@) == videos,
            Err(e) => r is Err && r->Err_0@ == e,
        },
{
    match verify_ffmpeg_available(host_available, tool_found) {
        Err(e) => {
            return Err(e);
        },
        Ok(_) => {},
    }
    match project_found {
        Err(e) => {
            return Err(e);
        },
        Ok(_) => {},
    }
    let mut videos: Vec<ImportedVideo> = Vec::new();
    if !dir_exists {
        assert(video_views(videos@) =~= Seq::<ImportedVideoView>::empty());
        return Ok(videos);
    }
    let ghost entries = file_views(files@);
    let mut keys: Vec<i64> = Vec::new();
    let mut k: usize = 0;
    assert(video_views(videos@) =~= Seq::<ImportedVideoView>::empty());
    assert(keys@ =~= creation_keys(video_views(videos@)));
    while k < files.len()
        invariant
            k <= files.len(),
            host_available && tool_found && project_found is Ok && dir_exists,
            entries == file_views(files@),
            listed_upto(entries, k as int) == Ok::<Seq<ImportedVideoView>, Seq<char>>(
                video_views(videos@),
            ),
            keys@ == creation_keys(video_views(videos@)),
        decreases files.len() - k,
    {
        let file = &files[k];
        assert(entries[k as int] == file@);
        if file.is_file && starts_with(file.file_name.as_str(), "imported_") {
            match &file.duration {
                Ok(duration) => {
                    let created_at = match &file.created_at {
                        Ok(t) => *t,
                        Err(e) => {
                            proof {
                                assert(listed_upto(entries, k + 1) is Err);
                                lemma_listing_failure_stays(entries, k + 1, entries.len() as int);
                            }
                            return Err(e.clone());
                        },
                    };
                    let (id, name) = listed_id_and_name(file.file_name.as_str());
                    let ghost before = video_views(videos@);
                    let ghost keys_before = keys@;
                    let video = ImportedVideo {
                        id,
                        name,
                        video_path: file.path.clone(),
                        original_duration: *duration,
                        created_at,
                    };
                    assert(video@ == listed_video(entries[k as int], created_at));
                    videos.push(video);
                    keys.push(created_at);
                    assert(video_views(videos@) =~= before.push(
                        listed_video(entries[k as int], created_at),
                    ));
                    assert(keys@ =~= creation_keys(video_views(videos@)));
                },
                Err(_) => {},
            }
        }
        k = k + 1;
    }
    let ghost views = video_views(videos@);
    let order = stable_order(&keys, true);
    proof {
        let chosen = choose|o: Seq<usize>| is_stable_order(creation_keys(views), true, o);
        lemma_stable_order_is_unique(creation_keys(views), true, order@, chosen);
    }
    let mut sorted: Vec<ImportedVideo> = Vec::new();
    let mut a: usize = 0;
    while a < order.len()
        invariant
            a <= order.len(),
            order@.len() == videos@.len(),
            views == video_views(videos@),
            forall|i: int| 0 <= i < order@.len() ==> (#[trigger] order@[i]) < videos@.len(),
            video_views(sorted@) == arranged(views, order@).take(a as int),
        decreases order.len() - a,
    {
        let ghost before = video_views(sorted@);
        let video = &videos[order[a]];
        sorted.push(
            ImportedVideo {
                id: video.id.clone(),
                name: video.name.clone(),
                video_path: video.video_path.clone(),
                original_duration: video.original_duration,
                created_at: video.created_at,
            },
        );
        assert(views[order@[a as int] as int] == videos@[order@[a as int] as int]@);
        assert(video_views(sorted@) =~= before.push(views[order@[a as int] as int]));
        assert(video_views(sorted@) =~= arranged(views, order@).take(a + 1));
        a = a + 1;
    }
    assert(arranged(views, order@).take(order@.len() as int) =~= arranged(views, order@));
    Ok(sorted)
}

/// The file of the imported video `video_id` that is to be deleted. Only
/// imported videos can be deleted this way; that is checked before the
/// project is looked at.
pub fn delete_imported_video(video_id: &str, project: Result<ProjectPaths, String>) -> (r: Result<
    String,
    String,
>)
    ensures
        !starts_with_text(video_id@, "imported_"@) ==> r is Err && r->Err_0@
            == "Can only delete imported videos"@,
        starts_with_text(video_id@, "imported_"@) && project is Err ==> r is Err && r->Err_0
            == project->Err_0,
        starts_with_text(video_id@, "imported_"@) && project is Ok ==> r is Ok && r->Ok_0@
            == joined(joined(project->Ok_0@, "videos"@), video_id@),
{
    if !starts_with(video_id, "imported_") {
        return Err(String::from_str("Can only delete imported videos"));
    }
    match project {
        Ok(paths) => Ok(paths.video_file(video_id)),
        Err(e) => Err(e),
    }
}

/// How deleting an imported video ended: a file that is not there is a
/// failure, and so is one that could not be removed.
pub fn deletion_outcome(exists: bool, removal_error: Option<&str>) -> (r: Result<(), String>)
    ensures
        !exists ==> r is Err && r->Err_0@ == "Video not found"@,
        exists && removal_error is Some ==> r is Err && r->Err_0@
            == "Failed to delete imported video: "@ + removal_error->Some_0@,
        exists && removal_error is None ==> r is Ok,
{
    if !exists {
        return Err(String::from_str("Video not found"));
    }
    match removal_error {
        Some(e) => {
            let mut message = String::from_str("Failed to delete imported video: ");
            message.append(e);
            Err(message)
        },
        None => Ok(()),
    }
}

/// Where a preview is exported to: the file that the user chose. There must
/// be a preview, and a file must have been chosen.
pub fn export_video(preview_exists: bool, chosen: Option<String>) -> (r: Result<String, String>)
    ensures
        !preview_exists ==> r is Err && r->Err_0@
            == "Preview video not found. Please generate a preview first."@,
        preview_exists && chosen is None ==> r is Err && r->Err_0@ == "Export cancelled by user"@,
        preview_exists && chosen is Some ==> r is Ok && r->Ok_0 == chosen->Some_0,
{
    if !preview_exists {
        return Err(String::from_str("Preview video not found. Please generate a preview first."));
    }
    match chosen {
        Some(path) => Ok(path),
        None => Err(String::from_str("Export cancelled by user")),
    }
}

/// The message for a preview that could not be copied to where it is
/// exported.
pub fn export_failure(error: &str) -> (message: String)
    ensures
        message@ == "Failed to export video: "@ + error@,
{
    let mut message = String::from_str("Failed to export video: ");
    message.append(error);
    message
}

} // verus!
