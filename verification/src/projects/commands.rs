//! What the project commands decide: which directories are projects and in
//! what order they are listed, what a new project starts with, and how the
//! list of a project's videos changes.

use vstd::prelude::*;
use crate::projects::filesystem::{
    default_project_meta,
    is_project_directory,
    is_project_entry,
    sanitize_project_name,
    sanitized,
};
use crate::projects::paths::{join_path, joined, ProjectPaths};
use crate::projects::types::{ProjectMeta, ProjectSummary, VideoMeta};
use crate::sorting::{arranged, is_stable_order, lemma_stable_order_is_unique, stable_order};

verus! {

/// An entry of the workspace, with what the host found out of it.
#[derive(Debug, Clone, PartialEq, Eq)]
pub struct WorkspaceEntry {
    pub name: String,
    pub path: String,
    /// Whether the entry is a directory.
    pub is_dir: bool,
    /// When the project was made according to its metadata, or `None` where
    /// it has none that can be read.
    pub created_at: Option<i64>,
}

/// A [`ProjectSummary`] as text.
pub struct ProjectSummaryView {
    pub name: Seq<char>,
    pub path: Seq<char>,
    pub created_at: i64,
}

impl View for ProjectSummary {
    type V = ProjectSummaryView;

    open spec fn view(&self) -> ProjectSummaryView {
        ProjectSummaryView { name: self.name@, path: self.path@, created_at: self.created_at }
    }
}

/// The views of a list of summaries.
pub open spec fn project_views(projects: Seq<ProjectSummary>) -> Seq<ProjectSummaryView> {
    Seq::new(projects.len(), |i: int| projects[i]@)
}

/// The summary of the project in the entry `entry`; a project without
/// readable metadata counts as made at the time `now`.
pub open spec fn summary_of_entry(entry: WorkspaceEntry, now: i64) -> ProjectSummaryView {
    ProjectSummaryView {
        name: entry.name@,
        path: entry.path@,
        created_at: match entry.created_at {
            Some(t) => t,
            None => now,
        },
    }
}

/// The projects among the first `k` entries, in the order of the entries.
pub open spec fn projects_upto(entries: Seq<WorkspaceEntry>, now: i64, k: int) -> Seq<
    ProjectSummaryView,
>
    decreases k,
{
    if k <= 0 {
        Seq::<ProjectSummaryView>::empty()
    } else if is_project_entry(entries[k - 1].name@, entries[k - 1].is_dir) {
        projects_upto(entries, now, k - 1).push(summary_of_entry(entries[k - 1], now))
    } else {
        projects_upto(entries, now, k - 1)
    }
}

/// The keys by which projects are listed: the time each was made.
pub open spec fn project_keys(projects: Seq<ProjectSummaryView>) -> Seq<i64> {
    Seq::new(projects.len(), |i: int| projects[i].created_at)
}

/// The projects of a workspace, the newest first; projects of one time stay
/// as the workspace lists them.
pub open spec fn project_listing(entries: Seq<WorkspaceEntry>, now: i64) -> Seq<ProjectSummaryView> {
    let projects = projects_upto(entries, now, entries.len() as int);
    arranged(
        projects,
        choose|order: Seq<usize>| is_stable_order(project_keys(projects), true, order),
    )
}

/// Lists the projects of a workspace: see [`project_listing`].
pub fn list_projects(entries: &Vec<WorkspaceEntry>, now: i64) -> (listing: Vec<ProjectSummary>)
    ensures
        project_views(listing@) == project_listing(entries@, now),
{
    let mut items: Vec<ProjectSummary> = Vec::new();
    let mut keys: Vec<i64> = Vec::new();
    let mut k: usize = 0;
    assert(project_views(items@) =~= projects_upto(entries@, now, 0));
    assert(keys@ =~= project_keys(project_views(items@)));
    while k < entries.len()
        invariant
            k <= entries.len(),
            project_views(items@) == projects_upto(entries@, now, k as int),
            keys@ == project_keys(project_views(items@)),
        decreases entries.len() - k,
    {
        let entry = &entries[k];
        if is_project_directory(entry.name.as_str(), entry.is_dir) {
            let created_at = match entry.created_at {
                Some(t) => t,
                None => now,
            };
            let ghost before = project_views(items@);
            items.push(
                ProjectSummary { name: entry.name.clone(), path: entry.path.clone(), created_at },
            );
            keys.push(created_at);
            assert(project_views(items@) =~= before.push(summary_of_entry(entries@[k as int], now)));
            assert(keys@ =~= project_keys(project_views(items@)));
        }
        k = k + 1;
    }
    let ghost views = project_views(items@);
    let order = stable_order(&keys, true);
    proof {
        let chosen = choose|o: Seq<usize>| is_stable_order(project_keys(views), true, o);
        lemma_stable_order_is_unique(project_keys(views), true, order@, chosen);
    }
    let mut sorted: Vec<ProjectSummary> = Vec::new();
    let mut a: usize = 0;
    while a < order.len()
        invariant
            a <= order.len(),
            order@.len() == items@.len(),
            views == project_views(items@),
            forall|i: int| 0 <= i < order@.len() ==> (#[trigger] order@[i]) < items@.len(),
            project_views(sorted@) == arranged(views, order@).take(a as int),
        decreases order.len() - a,
    {
        let ghost before = project_views(sorted@);
        let item = &items[order[a]];
        sorted.push(
            ProjectSummary {
                name: item.name.clone(),
                path: item.path.clone(),
                created_at: item.created_at,
            },
        );
        assert(views[order@[a as int] as int] == items@[order@[a as int] as int]@);
        assert(project_views(sorted@) =~= before.push(views[order@[a as int] as int]));
        assert(project_views(sorted@) =~= arranged(views, order@).take(a + 1));
        a = a + 1;
    }
    assert(arranged(views, order@).take(order@.len() as int) =~= arranged(views, order@));
    sorted
}

/// A project that is to be made: where, and what it starts with.
#[derive(Debug, Clone, PartialEq, Eq)]
pub struct ProjectCreation {
    /// The project's directory.
    pub root: String,
    /// The directory of its metadata.
    pub metadata_dir: String,
    /// The file of its metadata, written only if it is not there yet.
    pub metadata_file: String,
    /// The metadata it starts with.
    pub meta: ProjectMeta,
    /// What is reported of the project.
    pub summary: ProjectSummary,
}

/// What making the project `name` in `workspace` at the time `now` comes to.
/// The name must pass as one: see [`sanitized`].
pub fn create_project(workspace: &str, name: &str, now: i64) -> (r: Result<ProjectCreation, String>)
    ensures
        match sanitized(name@) {
            Err(e) => r is Err && r->Err_0@ == e,
            Ok(clean) => r is Ok && {
                let made = r->Ok_0;
                let root = joined(workspace@, clean);
                &&& made.root@ == root
                &&& made.metadata_dir@ == joined(root, ".sixseven"@)
                &&& made.metadata_file@ == joined(joined(root, ".sixseven"@), "metadata.json"@)
                &&& made.meta.videos@.len() == 0
                &&& made.meta.path@ == root
                &&& made.meta.created_at == now
                &&& made.meta.storyboard_response_id is None
                &&& made.summary@ == (ProjectSummaryView { name: clean, path: root, created_at: now })
            },
        },
{
    let clean = match sanitize_project_name(name) {
        Ok(clean) => clean,
        Err(e) => {
            return Err(e);
        },
    };
    let root = join_path(workspace, clean.as_str());
    let paths = ProjectPaths::new(root.as_str());
    Ok(
        ProjectCreation {
            metadata_dir: paths.metadata_dir(),
            metadata_file: paths.metadata_file(),
            meta: default_project_meta(root.as_str(), now),
            summary: ProjectSummary { name: clean, path: root.clone(), created_at: now },
            root,
        },
    )
}

/// How a project is removed.
#[derive(Debug, Clone, Copy, PartialEq, Eq, Structural)]
pub enum Removal {
    /// For good.
    Delete,
    /// To the trash, from where it can be taken back.
    Trash,
}

/// A project is removed for good only when `delete` is asked for; in every
/// other case it goes to the trash.
pub fn removal_mode(mode: Option<&str>) -> (removal: Removal)
    ensures
        removal == (if mode is Some && mode->Some_0@ == "delete"@ {
            Removal::Delete
        } else {
            Removal::Trash
        }),
{
    match mode {
        Some(m) => {
            if String::from_str(m) == String::from_str("delete") {
                Removal::Delete
            } else {
                Removal::Trash
            }
        },
        None => Removal::Trash,
    }
}

/// The message for a project that could not be removed.
pub fn removal_failure(removal: Removal, error: &str) -> (message: String)
    ensures
        message@ == (if removal == Removal::Delete {
            "Failed to delete: "@
        } else {
            "Failed to move to trash: "@
        }) + error@,
{
    let mut message = match removal {
        Removal::Delete => String::from_str("Failed to delete: "),
        Removal::Trash => String::from_str("Failed to move to trash: "),
    };
    message.append(error);
    message
}

/// The metadata of a project after `videos` were added to it: they follow
/// the videos it had; the path is that of the project as it lies now.
pub fn add_videos_to_project(existing: ProjectMeta, videos: Vec<VideoMeta>, root: &str) -> (meta:
    ProjectMeta)
    ensures
        meta.videos@ == existing.videos@ + videos@,
        meta.path@ == root@,
        meta.created_at == existing.created_at,
        meta.storyboard_response_id == existing.storyboard_response_id,
{
    let ProjectMeta { videos: mut all_videos, path: _, created_at, storyboard_response_id } =
        existing;
    let mut added = videos;
    all_videos.append(&mut added);
    ProjectMeta {
        videos: all_videos,
        path: String::from_str(root),
        created_at,
        storyboard_response_id,
    }
}

/// The first `k` of `videos` without those whose id is `id`.
pub open spec fn videos_without(videos: Seq<VideoMeta>, id: Seq<char>, k: int) -> Seq<VideoMeta>
    decreases k,
{
    if k <= 0 {
        Seq::<VideoMeta>::empty()
    } else if videos[k - 1].id@ == id {
        videos_without(videos, id, k - 1)
    } else {
        videos_without(videos, id, k - 1).push(videos[k - 1])
    }
}

/// Name of the file of the video `video_id`.
pub open spec fn video_file_name(video_id: Seq<char>) -> Seq<char> {
    video_id + ".mp4"@
}

/// A video that is to be deleted from a project: the metadata without it,
/// and the file to remove if it is there.
#[derive(Debug, Clone, PartialEq, Eq)]
pub struct VideoDeletion {
    pub meta: ProjectMeta,
    pub file: String,
}

/// What deleting the video `video_id` from the project `paths` with the
/// metadata `meta` comes to: every video of that id leaves the metadata, and
/// the file of the video is the one to remove.
pub fn delete_video_from_project(paths: &ProjectPaths, meta: ProjectMeta, video_id: &str) -> (r:
    VideoDeletion)
    ensures
        r.meta.videos@ == videos_without(meta.videos@, video_id@, meta.videos@.len() as int),
        r.meta.path == meta.path,
        r.meta.created_at == meta.created_at,
        r.meta.storyboard_response_id == meta.storyboard_response_id,
        r.file@ == joined(joined(paths@, "videos"@), video_file_name(video_id@)),
{
    let ProjectMeta { videos, path, created_at, storyboard_response_id } = meta;
    let wanted = String::from_str(video_id);
    let mut kept: Vec<VideoMeta> = Vec::new();
    let ghost all = videos@;
    for video in it: videos
        invariant
            wanted@ == video_id@,
            it.seq() == all,
            kept@ == videos_without(all, video_id@, it.index() as int),
    {
        if video.id != wanted {
            kept.push(video);
        }
    }
    let mut name = String::from_str(video_id);
    name.append(".mp4");
    VideoDeletion {
        meta: ProjectMeta { videos: kept, path, created_at, storyboard_response_id },
        file: paths.video_file(name.as_str()),
    }
}

} // verus!
