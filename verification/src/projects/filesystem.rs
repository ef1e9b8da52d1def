//! Names of projects, and what is known of a project that has no metadata
//! yet.

use vstd::prelude::*;
use crate::projects::paths::joined;
use crate::projects::types::ProjectMeta;
use crate::text::{contains, contains_char, contains_text, trim, trimmed};

verus! {

/// Whether `name` could lead out of the directory it is adjoined to: it
/// holds a separator of either kind, or two dots in a row.
pub open spec fn leaves_directory(name: Seq<char>) -> bool {
    name.contains('/') || name.contains('\\') || contains_text(name, ".."@)
}

/// What becomes of a name that a user gave: the name without the white space
/// around it, unless nothing is left of it or it could lead out of the
/// directory it is adjoined to.
pub open spec fn sanitized(name: Seq<char>) -> Result<Seq<char>, Seq<char>> {
    let t = trimmed(name);
    if t.len() == 0 {
        Err("Project name cannot be empty"@)
    } else if leaves_directory(t) {
        Err("Invalid project name"@)
    } else {
        Ok(t)
    }
}

/// Checks a name that a user gave for a project or a scene: see
/// [`sanitized`].
pub fn sanitize_project_name(name: &str) -> (r: Result<String, String>)
    ensures
        match sanitized(name@) {
            Ok(t) => r is Ok && r->Ok_0@ == t,
            Err(e) => r is Err && r->Err_0@ == e,
        },
{
    let t = trim(name);
    if t.is_empty() {
        return Err(String::from_str("Project name cannot be empty"));
    }
    if contains_char(t, '/') || contains_char(t, '\\') || contains(t, "..") {
        return Err(String::from_str("Invalid project name"));
    }
    Ok(String::from_str(t))
}

/// A name that passed [`sanitize_project_name`] names something directly in
/// the directory it is adjoined to: it is not empty, holds no separator,
/// and adjoining it appends it to the directory, with one separator between
/// the two at most.
pub proof fn lemma_sanitized_name_stays_inside(base: Seq<char>, name: Seq<char>)
    requires
        sanitized(name) is Ok,
    ensures
        sanitized(name)->Ok_0.len() > 0,
        !sanitized(name)->Ok_0.contains('/'),
        !sanitized(name)->Ok_0.contains('\\'),
        joined(base, sanitized(name)->Ok_0) == base + sanitized(name)->Ok_0 || joined(
            base,
            sanitized(name)->Ok_0,
        ) == base + seq!['/'] + sanitized(name)->Ok_0,
{
    let t = sanitized(name)->Ok_0;
    if t[0] == '/' {
        assert(t.contains('/'));
    }
}

/// Seconds since the epoch as a timestamp, from what the clock said: the
/// time elapsed since the epoch, or `None` where the clock stands before it,
/// which counts as the epoch itself.
pub fn current_timestamp(since_epoch: Option<u64>) -> (t: i64)
    ensures
        since_epoch is None ==> t == 0,
        since_epoch matches Some(secs) ==> (if secs <= i64::MAX {
            t == secs
        } else {
            t == secs - 0x1_0000_0000_0000_0000
        }),
{
    match since_epoch {
        None => 0,
        Some(secs) => {
            if secs <= i64::MAX as u64 {
                secs as i64
            } else {
                let below: u64 = secs - 0x8000_0000_0000_0000u64;
                below as i64 + i64::MIN
            }
        },
    }
}

/// The metadata of the project at `project_path` that has none on disk: no
/// videos, no storyboard, and `now` as the time of its creation.
pub fn default_project_meta(project_path: &str, now: i64) -> (meta: ProjectMeta)
    ensures
        meta.videos@.len() == 0,
        meta.path@ == project_path@,
        meta.created_at == now,
        meta.storyboard_response_id is None,
{
    ProjectMeta {
        videos: Vec::new(),
        path: String::from_str(project_path),
        created_at: now,
        storyboard_response_id: None,
    }
}

/// Whether an entry of the workspace is listed as a project: a directory
/// whose name is not empty and does not start with a dot.
pub open spec fn is_project_entry(name: Seq<char>, is_dir: bool) -> bool {
    is_dir && name.len() > 0 && name[0] != '.'
}

/// Decides [`is_project_entry`].
pub fn is_project_directory(name: &str, is_dir: bool) -> (listed: bool)
    ensures
        listed == is_project_entry(name@, is_dir),
{
    is_dir && !name.is_empty() && name.get_char(0) != '.'
}

} // verus!
