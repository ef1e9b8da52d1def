//! Where the files of a project lie.
//!
//! Paths are text with `/` between the components.
//!
//! ```text
//! <workspace>/<project_name>/
//! ├── .sixseven/
//! │   ├── metadata.json
//! │   ├── editor_state.json
//! │   ├── waveforms/<clip_id>_<width>.png
//! │   └── sprites/<clip_id>_<width>.png
//! ├── images/
//! │   └── scene_*_reference.jpg
//! ├── videos/
//! │   └── <video_id>.mp4
//! ├── temp/
//! │   └── preview.mp4
//! └── storyboard/
//!     ├── context.md
//!     └── scenes/
//!         ├── index.json
//!         └── <scene_id>/
//!             └── scene.md
//! ```

use vstd::prelude::*;
use crate::projects::filesystem::{sanitize_project_name, sanitized};
use crate::text::{
    decimal,
    is_digit,
    lemma_decimal_is_exact,
    lemma_decimal_stands_for,
    push_decimal,
};

verus! {

/// `name` adjoined to `base`: a `name` that starts at the root stands alone;
/// otherwise a `/` goes between the two unless `base` is empty or ends with
/// one.
pub open spec fn joined(base: Seq<char>, name: Seq<char>) -> Seq<char> {
    if name.len() > 0 && name[0] == '/' {
        name
    } else if base.len() == 0 || base.last() == '/' {
        base + name
    } else {
        base + seq!['/'] + name
    }
}

/// Adjoins `name` to `base`.
pub fn join_path(base: &str, name: &str) -> (path: String)
    ensures
        path@ == joined(base@, name@),
{
    if name.unicode_len() > 0 && name.get_char(0) == '/' {
        return String::from_str(name);
    }
    let base_len = base.unicode_len();
    let mut path = String::from_str(base);
    if base_len > 0 && base.get_char(base_len - 1) != '/' {
        proof {
            reveal_strlit("/");
        }
        path.append("/");
    }
    path.append(name);
    assert(path@ =~= joined(base@, name@));
    path
}

/// Name of the file that caches a preview image of a clip: the clip's id, an
/// underscore, the requested width and `.png`.
pub open spec fn cache_file_name(clip_id: Seq<char>, width: nat) -> Seq<char> {
    clip_id + "_"@ + decimal(width) + ".png"@
}

fn build_cache_file_name(clip_id: &str, width: u32) -> (name: String)
    ensures
        name@ == cache_file_name(clip_id@, width as nat),
{
    let mut name = String::from_str(clip_id);
    name.append("_");
    push_decimal(&mut name, width as u128);
    name.append(".png");
    name
}

/// The directory of one project.
pub struct ProjectPaths {
    root: String,
}

impl View for ProjectPaths {
    type V = Seq<char>;

    /// The project's directory, as text.
    closed spec fn view(&self) -> Seq<char> {
        self.root@
    }
}

impl ProjectPaths {
    /// The paths of the project that lies at `project_path`.
    pub fn new(project_path: &str) -> (paths: Self)
        ensures
            paths@ == project_path@,
    {
        ProjectPaths { root: String::from_str(project_path) }
    }

    /// The project's directory.
    pub fn root(&self) -> (root: &str)
        ensures
            root@ == self@,
    {
        self.root.as_str()
    }

    /// `<root>/.sixseven`
    pub fn metadata_dir(&self) -> (path: String)
        ensures
            path@ == joined(self@, ".sixseven"@),
    {
        join_path(self.root.as_str(), ".sixseven")
    }

    /// `<root>/.sixseven/metadata.json`
    pub fn metadata_file(&self) -> (path: String)
        ensures
            path@ == joined(joined(self@, ".sixseven"@), "metadata.json"@),
    {
        join_path(self.metadata_dir().as_str(), "metadata.json")
    }

    /// `<root>/.sixseven/editor_state.json`
    pub fn editor_state_file(&self) -> (path: String)
        ensures
            path@ == joined(joined(self@, ".sixseven"@), "editor_state.json"@),
    {
        join_path(self.metadata_dir().as_str(), "editor_state.json")
    }

    /// `<root>/images`
    pub fn images_dir(&self) -> (path: String)
        ensures
            path@ == joined(self@, "images"@),
    {
        join_path(self.root.as_str(), "images")
    }

    /// `<root>/images/<image_name>`
    pub fn image_file(&self, image_name: &str) -> (path: String)
        ensures
            path@ == joined(joined(self@, "images"@), image_name@),
    {
        join_path(self.images_dir().as_str(), image_name)
    }

    /// `<root>/videos`
    pub fn videos_dir(&self) -> (path: String)
        ensures
            path@ == joined(self@, "videos"@),
    {
        join_path(self.root.as_str(), "videos")
    }

    /// `<root>/videos/<video_id>`
    pub fn video_file(&self, video_id: &str) -> (path: String)
        ensures
            path@ == joined(joined(self@, "videos"@), video_id@),
    {
        join_path(self.videos_dir().as_str(), video_id)
    }

    /// `<root>/storyboard`
    pub fn storyboard_dir(&self) -> (path: String)
        ensures
            path@ == joined(self@, "storyboard"@),
    {
        join_path(self.root.as_str(), "storyboard")
    }

    /// `<root>/storyboard/context.md`
    pub fn context_file(&self) -> (path: String)
        ensures
            path@ == joined(joined(self@, "storyboard"@), "context.md"@),
    {
        join_path(self.storyboard_dir().as_str(), "context.md")
    }

    /// `<root>/storyboard/scenes`
    pub fn scenes_dir(&self) -> (path: String)
        ensures
            path@ == joined(joined(self@, "storyboard"@), "scenes"@),
    {
        join_path(self.storyboard_dir().as_str(), "scenes")
    }

    /// `<root>/storyboard/scenes/index.json`
    pub fn scenes_index(&self) -> (path: String)
        ensures
            path@ == joined(joined(joined(self@, "storyboard"@), "scenes"@), "index.json"@),
    {
        join_path(self.scenes_dir().as_str(), "index.json")
    }

    /// `<root>/storyboard/scenes/<scene_id>`
    pub fn scene_dir(&self, scene_id: &str) -> (path: String)
        ensures
            path@ == joined(joined(joined(self@, "storyboard"@), "scenes"@), scene_id@),
    {
        join_path(self.scenes_dir().as_str(), scene_id)
    }

    /// `<root>/storyboard/scenes/<scene_id>/scene.md`
    pub fn scene_file(&self, scene_id: &str) -> (path: String)
        ensures
            path@ == joined(
                joined(joined(joined(self@, "storyboard"@), "scenes"@), scene_id@),
                "scene.md"@,
            ),
    {
        join_path(self.scene_dir(scene_id).as_str(), "scene.md")
    }

    /// `<root>/temp`, where a preview's intermediate files go.
    pub fn temp_dir(&self) -> (path: String)
        ensures
            path@ == joined(self@, "temp"@),
    {
        join_path(self.root.as_str(), "temp")
    }

    /// `<root>/temp/preview.mp4`
    pub fn preview_file(&self) -> (path: String)
        ensures
            path@ == joined(joined(self@, "temp"@), "preview.mp4"@),
    {
        join_path(self.temp_dir().as_str(), "preview.mp4")
    }

    /// `<root>/.sixseven/waveforms`
    pub fn waveforms_dir(&self) -> (path: String)
        ensures
            path@ == joined(joined(self@, ".sixseven"@), "waveforms"@),
    {
        join_path(self.metadata_dir().as_str(), "waveforms")
    }

    /// `<root>/.sixseven/waveforms/<clip_id>_<width>.png`
    pub fn waveform_file(&self, clip_id: &str, width: u32) -> (path: String)
        ensures
            path@ == joined(
                joined(joined(self@, ".sixseven"@), "waveforms"@),
                cache_file_name(clip_id@, width as nat),
            ),
    {
        join_path(self.waveforms_dir().as_str(), build_cache_file_name(clip_id, width).as_str())
    }

    /// `<root>/.sixseven/sprites`
    pub fn sprites_dir(&self) -> (path: String)
        ensures
            path@ == joined(joined(self@, ".sixseven"@), "sprites"@),
    {
        join_path(self.metadata_dir().as_str(), "sprites")
    }

    /// `<root>/.sixseven/sprites/<clip_id>_<width>.png`
    pub fn sprite_file(&self, clip_id: &str, width: u32) -> (path: String)
        ensures
            path@ == joined(
                joined(joined(self@, ".sixseven"@), "sprites"@),
                cache_file_name(clip_id@, width as nat),
            ),
    {
        join_path(self.sprites_dir().as_str(), build_cache_file_name(clip_id, width).as_str())
    }
}

/// The directory in which the workspace lies: the home directory as the
/// environment names it, under either of its two names, else the current
/// directory, else `.`.
pub open spec fn workspace_parent(
    home: Option<Seq<char>>,
    user_profile: Option<Seq<char>>,
    current_dir: Option<Seq<char>>,
) -> Seq<char> {
    match home {
        Some(dir) => dir,
        None => match user_profile {
            Some(dir) => dir,
            None => match current_dir {
                Some(dir) => dir,
                None => "."@,
            },
        },
    }
}

/// The workspace: the directory `sixsevenstudio` in [`workspace_parent`].
pub fn default_workspace_dir(
    home: Option<&str>,
    user_profile: Option<&str>,
    current_dir: Option<&str>,
) -> (dir: String)
    ensures
        dir@ == joined(
            workspace_parent(
                match home {
                    Some(d) => Some(d@),
                    None => None,
                },
                match user_profile {
                    Some(d) => Some(d@),
                    None => None,
                },
                match current_dir {
                    Some(d) => Some(d@),
                    None => None,
                },
            ),
            "sixsevenstudio"@,
        ),
{
    let parent = match home {
        Some(dir) => dir,
        None => match user_profile {
            Some(dir) => dir,
            None => match current_dir {
                Some(dir) => dir,
                None => ".",
            },
        },
    };
    join_path(parent, "sixsevenstudio")
}

/// The message for a project that is not there.
pub open spec fn project_missing_text(project_name: Seq<char>) -> Seq<char> {
    "Project '"@ + project_name + "' does not exist"@
}

/// Builds [`project_missing_text`].
pub fn project_missing_message(project_name: &str) -> (message: String)
    ensures
        message@ == project_missing_text(project_name@),
{
    let mut message = String::from_str("Project '");
    message.append(project_name);
    message.append("' does not exist");
    message
}

impl ProjectPaths {
    /// The paths of the project `project_name` in `workspace`, whether it is
    /// there or not. The name must pass as one: see [`sanitized`].
    pub fn from_name_create_if_not_exists(workspace: &str, project_name: &str) -> (r: Result<
        Self,
        String,
    >)
        ensures
            match sanitized(project_name@) {
                Ok(clean) => r is Ok && r->Ok_0@ == joined(workspace@, clean),
                Err(e) => r is Err && r->Err_0@ == e,
            },
    {
        match sanitize_project_name(project_name) {
            Ok(clean) => Ok(ProjectPaths { root: join_path(workspace, clean.as_str()) }),
            Err(e) => Err(e),
        }
    }

    /// The paths of the project `project_name` in `workspace`, which must be
    /// there: `exists` tells of a path whether a file or directory lies
    /// there, and is asked of the project's directory only.
    pub fn from_name(workspace: &str, project_name: &str, exists: bool) -> (r: Result<Self, String>)
        ensures
            match sanitized(project_name@) {
                Ok(clean) => if exists {
                    r is Ok && r->Ok_0@ == joined(workspace@, clean)
                } else {
                    r is Err && r->Err_0@ == project_missing_text(project_name@)
                },
                Err(e) => r is Err && r->Err_0@ == e,
            },
    {
        match ProjectPaths::from_name_create_if_not_exists(workspace, project_name) {
            Ok(paths) => {
                if exists {
                    Ok(paths)
                } else {
                    Err(project_missing_message(project_name))
                }
            },
            Err(e) => Err(e),
        }
    }
}

/// Cached images share a file name only if they are of one clip and one
/// width: no request is ever served the image of another.
pub proof fn lemma_cache_file_name_is_exact(
    first_id: Seq<char>,
    first_width: nat,
    second_id: Seq<char>,
    second_width: nat,
)
    requires
        cache_file_name(first_id, first_width) == cache_file_name(second_id, second_width),
    ensures
        first_id == second_id,
        first_width == second_width,
{
    reveal_strlit("_");
    reveal_strlit(".png");
    let name = cache_file_name(first_id, first_width);
    let d1 = decimal(first_width);
    let d2 = decimal(second_width);
    lemma_decimal_stands_for(first_width);
    lemma_decimal_stands_for(second_width);
    let a = first_id.len() as int;
    let b = second_id.len() as int;
    assert(name.len() == a + 1 + d1.len() + 4);
    assert(name.len() == b + 1 + d2.len() + 4);
    assert(name[a] == '_');
    assert(cache_file_name(second_id, second_width)[b] == '_');
    if a < b {
        assert(name[b] == d1[b - a - 1]);
        assert(is_digit(d1[b - a - 1]));
    } else if b < a {
        assert(cache_file_name(second_id, second_width)[a] == d2[a - b - 1]);
        assert(is_digit(d2[a - b - 1]));
    }
    assert(a == b);
    assert(first_id =~= name.subrange(0, a));
    assert(second_id =~= cache_file_name(second_id, second_width).subrange(0, a));
    assert(d1 =~= name.subrange(a + 1, a + 1 + d1.len() as int));
    assert(d2 =~= cache_file_name(second_id, second_width).subrange(
        a + 1,
        a + 1 + d2.len() as int,
    ));
    lemma_decimal_is_exact(first_width, second_width);
}

} // verus!
