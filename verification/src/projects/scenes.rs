//! Storyboard scenes: the file that describes one scene, and the index that
//! lists the scenes of a project in their order.
//!
//! A scene file holds a heading with the title, a line with the duration,
//! and below it the description:
//!
//! ```text
//! # Title
//!
//! Duration: 8s
//!
//! What happens in the scene.
//! ```

use vstd::prelude::*;
use crate::projects::filesystem::{sanitize_project_name, sanitized};
use crate::projects::types::{
    clone_summary,
    summary_views,
    SceneDetails,
    SceneDetailsView,
    SceneSummary,
    SceneSummaryView,
};
use crate::sorting::{
    arranged,
    comes_before,
    is_stable_order,
    lemma_stable_order_exists,
    lemma_stable_order_is_unique,
    stable_order,
};
use crate::text::{
    holds_text,
    is_space,
    join_texts,
    same_text,
    texts,
    to_chars,
    trim,
    trim_bounds,
    trim_end,
    trim_end_of,
    trim_start_of,
    trimmed,
};

verus! {

/// Name of the reference image of the scene `scene_id`.
pub open spec fn reference_image_name(scene_id: Seq<char>) -> Seq<char> {
    "scene_"@ + scene_id + "_reference.jpg"@
}

/// Builds [`reference_image_name`].
pub fn scene_reference_image_name(scene_id: &str) -> (name: String)
    ensures
        name@ == reference_image_name(scene_id@),
{
    let mut name = String::from_str("scene_");
    name.append(scene_id);
    name.append("_reference.jpg");
    name
}

/// The text of a scene file: the title as a heading, the duration, and the
/// description, with an empty line between them. White space around the
/// title and the duration and after the description is left out.
pub open spec fn scene_markdown(title: Seq<char>, duration: Seq<char>, description: Seq<char>) -> Seq<
    char,
> {
    "# "@ + trimmed(title) + "\n\nDuration: "@ + trimmed(duration) + "\n\n"@ + trim_end_of(
        description,
    ) + "\n"@
}

/// Builds [`scene_markdown`].
pub fn create_scene_markdown(title: &str, duration: &str, description: &str) -> (text: String)
    ensures
        text@ == scene_markdown(title@, duration@, description@),
{
    let mut text = String::from_str("# ");
    text.append(trim(title));
    text.append("\n\nDuration: ");
    text.append(trim(duration));
    text.append("\n\n");
    text.append(trim_end(description));
    text.append("\n");
    text
}

/// Whether `duration` is one of the lengths a scene can have.
pub open spec fn is_valid_duration(duration: Seq<char>) -> bool {
    duration == "4s"@ || duration == "8s"@ || duration == "12s"@
}

/// The message for a length that a scene cannot have.
pub open spec fn invalid_duration_text(duration: Seq<char>) -> Seq<char> {
    "Invalid duration '"@ + duration + "': must be 4s, 8s, or 12s"@
}

/// Accepts the lengths `4s`, `8s` and `12s`, and no other.
pub fn validate_duration(duration: &str) -> (r: Result<(), String>)
    ensures
        is_valid_duration(duration@) ==> r is Ok,
        !is_valid_duration(duration@) ==> r is Err && r->Err_0@ == invalid_duration_text(
            duration@,
        ),
{
    let given = String::from_str(duration);
    if given == String::from_str("4s") || given == String::from_str("8s") || given
        == String::from_str("12s") {
        Ok(())
    } else {
        let mut message = String::from_str("Invalid duration '");
        message.append(duration);
        message.append("': must be 4s, 8s, or 12s");
        Err(message)
    }
}

/// Number of characters of `s` before its first line feed.
pub open spec fn line_len(s: Seq<char>) -> nat
    decreases s.len(),
{
    if s.len() == 0 || s[0] == '\n' {
        0
    } else {
        1 + line_len(s.drop_first())
    }
}

/// `line` without the carriage return at its end, if it has one.
pub open spec fn strip_cr(line: Seq<char>) -> Seq<char> {
    if line.len() > 0 && line.last() == '\r' {
        line.drop_last()
    } else {
        line
    }
}

/// The lines of `s`. A line ends with a line feed, or with a carriage return
/// and a line feed; neither belongs to the line. What follows the last line
/// feed is a line as it stands, unless it is empty.
pub open spec fn lines_of(s: Seq<char>) -> Seq<Seq<char>>
    decreases s.len(),
{
    if s.len() == 0 {
        Seq::<Seq<char>>::empty()
    } else {
        let k = line_len(s) as int;
        if k >= s.len() {
            seq![s]
        } else {
            seq![strip_cr(s.take(k))] + lines_of(s.skip(k + 1))
        }
    }
}

/// `c` in lower case if it is an upper-case ASCII letter, else `c`.
pub open spec fn ascii_lower(c: char) -> char {
    if 'A' <= c <= 'Z' {
        ((c as u8) + 32) as char
    } else {
        c
    }
}

/// `t` without the hash signs at its start.
pub open spec fn strip_hashes(t: Seq<char>) -> Seq<char>
    decreases t.len(),
{
    if t.len() > 0 && t[0] == '#' {
        strip_hashes(t.drop_first())
    } else {
        t
    }
}

/// Whether `line` is a heading: its first character that is no white space
/// is a hash sign.
pub open spec fn is_heading(line: Seq<char>) -> bool {
    trimmed(line).len() > 0 && trimmed(line)[0] == '#'
}

/// The text of a heading: what follows the hash signs, without the white
/// space around it.
pub open spec fn heading_text(line: Seq<char>) -> Seq<char> {
    trimmed(strip_hashes(trimmed(line)))
}

/// Whether `line` gives the duration: after white space it starts with
/// `duration:`, in upper or lower case.
pub open spec fn is_duration_line(line: Seq<char>) -> bool {
    has_duration_prefix(trimmed(line))
}

/// Whether `t` starts with `duration:`, in upper or lower case.
pub open spec fn has_duration_prefix(t: Seq<char>) -> bool {
    t.len() >= 9 && t.take(9).map_values(|c: char| ascii_lower(c)) == "duration:"@
}

/// The duration that a duration line gives: what follows the colon, without
/// the white space around it.
pub open spec fn duration_value(line: Seq<char>) -> Seq<char> {
    trimmed(trimmed(line).skip(9))
}

/// Reads the head of a scene file from line `i` on, with the title found so
/// far: the title and the duration, and the number of the line that gives
/// the duration.
///
/// Empty lines are passed over. The first heading gives the title. The first
/// line after it that starts with `duration:` gives the duration and ends
/// the head; other lines of the head are passed over. An empty title or
/// duration is a failure, and so is a head without a title or a duration.
pub open spec fn scene_head(lines: Seq<Seq<char>>, i: int, title: Option<Seq<char>>) -> Result<
    (Seq<char>, Seq<char>, int),
    Seq<char>,
>
    decreases lines.len() - i,
{
    if i < 0 || i >= lines.len() {
        if title is None {
            Err("Scene file missing title"@)
        } else {
            Err("Scene file missing duration"@)
        }
    } else if trimmed(lines[i]).len() == 0 {
        scene_head(lines, i + 1, title)
    } else if title is None && is_heading(lines[i]) {
        if heading_text(lines[i]).len() == 0 {
            Err("Scene file missing title"@)
        } else {
            scene_head(lines, i + 1, Some(heading_text(lines[i])))
        }
    } else if is_duration_line(lines[i]) {
        if duration_value(lines[i]).len() == 0 {
            Err("Scene file missing duration"@)
        } else {
            match title {
                Some(t) => Ok((t, duration_value(lines[i]), i)),
                None => Err("Scene file missing title"@),
            }
        }
    } else {
        scene_head(lines, i + 1, title)
    }
}

/// What a scene file holds: title, duration and description. The
/// description is made of the lines below the duration, a line feed between
/// each two, without the white space around the whole.
pub open spec fn parsed_scene(content: Seq<char>) -> Result<
    (Seq<char>, Seq<char>, Seq<char>),
    Seq<char>,
> {
    let lines = lines_of(content);
    match scene_head(lines, 0, None) {
        Ok((title, duration, at)) => Ok(
            (title, duration, trimmed(join_texts(lines.skip(at + 1), "\n"@))),
        ),
        Err(e) => Err(e),
    }
}

/// Where the first `k` characters of `s` are no line feeds and the next one
/// is, or `s` ends there, the first line of `s` has `k` characters.
pub proof fn lemma_line_len(s: Seq<char>, k: int)
    requires
        0 <= k <= s.len(),
        forall|j: int| 0 <= j < k ==> #[trigger] s[j] != '\n',
        k < s.len() ==> s[k] == '\n',
    ensures
        line_len(s) == k,
    decreases k,
{
    if k > 0 {
        let rest = s.drop_first();
        assert forall|j: int| 0 <= j < k - 1 implies #[trigger] rest[j] != '\n' by {
            assert(rest[j] == s[j + 1]);
        }
        lemma_line_len(rest, k - 1);
    }
}

/// Where the first `h` characters of `t` are hash signs and the next one is
/// not, stripping the hash signs leaves what follows them.
pub proof fn lemma_strip_hashes(t: Seq<char>, h: int)
    requires
        0 <= h <= t.len(),
        forall|j: int| 0 <= j < h ==> #[trigger] t[j] == '#',
        h < t.len() ==> t[h] != '#',
    ensures
        strip_hashes(t) == t.subrange(h, t.len() as int),
    decreases h,
{
    if h == 0 {
        assert(t.subrange(0, t.len() as int) =~= t);
    } else {
        let rest = t.drop_first();
        assert forall|j: int| 0 <= j < h - 1 implies #[trigger] rest[j] == '#' by {
            assert(rest[j] == t[j + 1]);
        }
        lemma_strip_hashes(rest, h - 1);
        assert(rest.subrange(h - 1, rest.len() as int) =~= t.subrange(h, t.len() as int));
    }
}

/// The bounds of the lines of `chars`: line `i` is
/// `chars[bounds[i].0..bounds[i].1]`.
pub fn split_lines(chars: &Vec<char>) -> (bounds: Vec<(usize, usize)>)
    ensures
        bounds@.len() == lines_of(chars@).len(),
        forall|i: int|
            0 <= i < bounds@.len() ==> (#[trigger] bounds@[i]).0 <= bounds@[i].1 <= chars@.len()
                && chars@.subrange(bounds@[i].0 as int, bounds@[i].1 as int) == lines_of(
                chars@,
            )[i],
{
    let n = chars.len();
    let mut bounds: Vec<(usize, usize)> = Vec::new();
    let mut pos: usize = 0;
    let ghost mut done: Seq<Seq<char>> = Seq::empty();
    assert(chars@.skip(0) =~= chars@);
    while pos < n
        invariant
            n == chars.len(),
            pos <= n,
            bounds@.len() == done.len(),
            lines_of(chars@) == done + lines_of(chars@.skip(pos as int)),
            forall|i: int|
                0 <= i < bounds@.len() ==> (#[trigger] bounds@[i]).0 <= bounds@[i].1 <= n
                    && chars@.subrange(bounds@[i].0 as int, bounds@[i].1 as int) == done[i],
        decreases n - pos,
    {
        let mut end = pos;
        while end < n && chars[end] != '\n'
            invariant
                pos <= end <= n,
                n == chars.len(),
                forall|j: int| pos <= j < end ==> #[trigger] chars@[j] != '\n',
            decreases n - end,
        {
            end = end + 1;
        }
        let ghost rest = chars@.skip(pos as int);
        proof {
            assert forall|j: int| 0 <= j < end - pos implies #[trigger] rest[j] != '\n' by {
                assert(rest[j] == chars@[pos + j]);
            }
            lemma_line_len(rest, end - pos);
        }
        if end >= n {
            proof {
                assert(rest =~= chars@.subrange(pos as int, n as int));
                assert(lines_of(rest) =~= seq![rest]);
                assert(chars@.skip(n as int).len() == 0);
                done = done.push(rest);
                assert(lines_of(chars@) =~= done + lines_of(chars@.skip(n as int)));
            }
            bounds.push((pos, n));
            pos = n;
        } else {
            let stop = if end > pos && chars[end - 1] == '\r' {
                end - 1
            } else {
                end
            };
            proof {
                let raw = rest.take(end - pos);
                assert(raw =~= chars@.subrange(pos as int, end as int));
                assert(strip_cr(raw) =~= chars@.subrange(pos as int, stop as int));
                assert(rest.skip(end - pos + 1) =~= chars@.skip(end + 1));
                done = done.push(strip_cr(raw));
                assert(lines_of(chars@) =~= done + lines_of(chars@.skip(end + 1)));
            }
            bounds.push((pos, stop));
            pos = end + 1;
        }
    }
    proof {
        assert(chars@.skip(n as int).len() == 0);
        assert(lines_of(chars@) =~= done);
    }
    bounds
}

/// Lower case of an upper-case ASCII letter; other characters as they are.
pub fn to_ascii_lower(c: char) -> (l: char)
    ensures
        l == ascii_lower(c),
{
    if 'A' <= c && c <= 'Z' {
        ((c as u8) + 32) as char
    } else {
        c
    }
}

/// Decides [`has_duration_prefix`] for `chars[a..b]`.
fn starts_with_duration(chars: &Vec<char>, a: usize, b: usize) -> (found: bool)
    requires
        a <= b <= chars.len(),
    ensures
        found == has_duration_prefix(chars@.subrange(a as int, b as int)),
{
    let pattern = to_chars("duration:");
    proof {
        reveal_strlit("duration:");
    }
    if b - a < 9 {
        return false;
    }
    let ghost t = chars@.subrange(a as int, b as int);
    let ghost lowered = t.take(9).map_values(|c: char| ascii_lower(c));
    let mut i: usize = 0;
    while i < 9
        invariant
            i <= 9,
            a + 9 <= b <= chars.len(),
            pattern@ == "duration:"@,
            pattern@.len() == 9,
            t == chars@.subrange(a as int, b as int),
            lowered == t.take(9).map_values(|c: char| ascii_lower(c)),
            forall|j: int| 0 <= j < i ==> lowered[j] == pattern@[j],
        decreases 9 - i,
    {
        if to_ascii_lower(chars[a + i]) != pattern[i] {
            assert(lowered[i as int] == ascii_lower(t[i as int]));
            assert(lowered[i as int] != pattern@[i as int]);
            return false;
        }
        assert(lowered[i as int] == ascii_lower(t[i as int]));
        i = i + 1;
    }
    assert(lowered =~= pattern@);
    true
}

/// What a line of the head of a scene file is.
enum LineKind {
    /// Nothing but white space.
    Blank,
    /// A heading; its text is `chars[from..to]`.
    Heading { from: usize, to: usize },
    /// The line that gives the duration; the duration is `chars[from..to]`.
    Duration { from: usize, to: usize },
    /// Anything else.
    Other,
}

/// Tells what the line `chars[from..to]` is.
fn classify_line(chars: &Vec<char>, from: usize, to: usize) -> (kind: LineKind)
    requires
        from <= to <= chars.len(),
    ensures
        match kind {
            LineKind::Blank => trimmed(chars@.subrange(from as int, to as int)).len() == 0,
            LineKind::Heading { from: a, to: b } => {
                &&& trimmed(chars@.subrange(from as int, to as int)).len() > 0
                &&& is_heading(chars@.subrange(from as int, to as int))
                &&& !is_duration_line(chars@.subrange(from as int, to as int))
                &&& a <= b <= chars.len()
                &&& chars@.subrange(a as int, b as int) == heading_text(
                    chars@.subrange(from as int, to as int),
                )
            },
            LineKind::Duration { from: a, to: b } => {
                &&& trimmed(chars@.subrange(from as int, to as int)).len() > 0
                &&& !is_heading(chars@.subrange(from as int, to as int))
                &&& is_duration_line(chars@.subrange(from as int, to as int))
                &&& a <= b <= chars.len()
                &&& chars@.subrange(a as int, b as int) == duration_value(
                    chars@.subrange(from as int, to as int),
                )
            },
            LineKind::Other => {
                &&& trimmed(chars@.subrange(from as int, to as int)).len() > 0
                &&& !is_heading(chars@.subrange(from as int, to as int))
                &&& !is_duration_line(chars@.subrange(from as int, to as int))
            },
        },
{
    let ghost line = chars@.subrange(from as int, to as int);
    let (a, b) = trim_bounds(chars, from, to);
    let ghost t = trimmed(line);
    if a == b {
        return LineKind::Blank;
    }
    assert(t[0] == chars@[a as int]);
    if chars[a] == '#' {
        let mut h = a;
        while h < b && chars[h] == '#'
            invariant
                a <= h <= b <= chars.len(),
                forall|j: int| a <= j < h ==> #[trigger] chars@[j] == '#',
            decreases b - h,
        {
            h = h + 1;
        }
        let (ta, tb) = trim_bounds(chars, h, b);
        proof {
            assert forall|j: int| 0 <= j < h - a implies #[trigger] t[j] == '#' by {
                assert(t[j] == chars@[a + j]);
            }
            lemma_strip_hashes(t, h - a);
            assert(t.subrange(h - a, t.len() as int) =~= chars@.subrange(h as int, b as int));
            reveal_strlit("duration:");
            if t.len() >= 9 {
                let lowered = t.take(9).map_values(|c: char| ascii_lower(c));
                assert(lowered[0] == ascii_lower(t[0]));
                assert(lowered[0] != "duration:"@[0]);
            }
        }
        return LineKind::Heading { from: ta, to: tb };
    }
    if starts_with_duration(chars, a, b) {
        let (va, vb) = trim_bounds(chars, a + 9, b);
        proof {
            assert(t.skip(9) =~= chars@.subrange(a + 9, b as int));
        }
        return LineKind::Duration { from: va, to: vb };
    }
    LineKind::Other
}

/// The lines from line `first` on, a line feed between each two.
fn join_lines(content: &str, chars: &Vec<char>, bounds: &Vec<(usize, usize)>, first: usize) -> (joined:
    String)
    requires
        chars@ == content@,
        first <= bounds@.len(),
        bounds@.len() == lines_of(content@).len(),
        forall|k: int|
            0 <= k < bounds@.len() ==> (#[trigger] bounds@[k]).0 <= bounds@[k].1 <= chars@.len()
                && chars@.subrange(bounds@[k].0 as int, bounds@[k].1 as int) == lines_of(
                content@,
            )[k],
    ensures
        joined@ == join_texts(lines_of(content@).skip(first as int), "\n"@),
{
    let ghost lines = lines_of(content@);
    let mut joined = String::new();
    let mut j: usize = first;
    assert(lines.skip(first as int).take(0) =~= Seq::<Seq<char>>::empty());
    while j < bounds.len()
        invariant
            first <= j <= bounds.len(),
            chars@ == content@,
            lines == lines_of(content@),
            bounds@.len() == lines.len(),
            forall|k: int|
                0 <= k < bounds@.len() ==> (#[trigger] bounds@[k]).0 <= bounds@[k].1
                    <= chars@.len() && chars@.subrange(bounds@[k].0 as int, bounds@[k].1 as int)
                    == lines[k],
            joined@ == join_texts(lines.skip(first as int).take(j - first), "\n"@),
        decreases bounds.len() - j,
    {
        let (from, to) = bounds[j];
        let ghost before = lines.skip(first as int).take(j - first);
        let ghost after = lines.skip(first as int).take(j + 1 - first);
        assert(after.drop_last() =~= before);
        assert(after.last() == lines[j as int]);
        if j > first {
            joined.append("\n");
        }
        joined.append(content.substring_char(from, to));
        assert(joined@ =~= join_texts(after, "\n"@));
        j = j + 1;
    }
    assert(lines.skip(first as int).take(bounds.len() - first) =~= lines.skip(first as int));
    joined
}

/// Reads a scene file: see [`parsed_scene`].
pub fn parse_scene_markdown(content: &str) -> (r: Result<(String, String, String), String>)
    ensures
        match parsed_scene(content@) {
            Ok((title, duration, description)) => r is Ok && r->Ok_0.0@ == title && r->Ok_0.1@
                == duration && r->Ok_0.2@ == description,
            Err(e) => r is Err && r->Err_0@ == e,
        },
{
    let chars = to_chars(content);
    let bounds = split_lines(&chars);
    let ghost lines = lines_of(content@);
    let mut title: Option<String> = None;
    let mut i: usize = 0;
    while i < bounds.len()
        invariant
            i <= bounds.len(),
            chars@ == content@,
            lines == lines_of(content@),
            bounds@.len() == lines.len(),
            forall|k: int|
                0 <= k < bounds@.len() ==> (#[trigger] bounds@[k]).0 <= bounds@[k].1 <= chars@.len()
                    && chars@.subrange(bounds@[k].0 as int, bounds@[k].1 as int) == lines[k],
            scene_head(lines, 0, None) == scene_head(
                lines,
                i as int,
                match title {
                    Some(t) => Some(t@),
                    None => None,
                },
            ),
        decreases bounds.len() - i,
    {
        let (from, to) = bounds[i];
        assert(chars@.subrange(from as int, to as int) == lines[i as int]);
        match classify_line(&chars, from, to) {
            LineKind::Blank => {},
            LineKind::Heading { from: a, to: b } => {
                if title.is_none() {
                    if a == b {
                        return Err(String::from_str("Scene file missing title"));
                    }
                    title = Some(String::from_str(content.substring_char(a, b)));
                }
            },
            LineKind::Duration { from: a, to: b } => {
                if a == b {
                    return Err(String::from_str("Scene file missing duration"));
                }
                let title = match title {
                    Some(t) => t,
                    None => {
                        return Err(String::from_str("Scene file missing title"));
                    },
                };
                let duration = String::from_str(content.substring_char(a, b));
                let joined = join_lines(content, &chars, &bounds, i + 1);
                let description = String::from_str(trim(joined.as_str()));
                return Ok((title, duration, description));
            },
            LineKind::Other => {},
        }
        i = i + 1;
    }
    match title {
        None => Err(String::from_str("Scene file missing title")),
        Some(_) => Err(String::from_str("Scene file missing duration")),
    }
}

/// The keys by which an index is put in order: the `order` of each scene.
pub open spec fn order_keys(index: Seq<SceneSummaryView>) -> Seq<i64> {
    Seq::new(index.len(), |i: int| index[i].order as i64)
}

/// `index` by ascending `order`; scenes of equal `order` stay as they stood.
pub open spec fn in_index_order(index: Seq<SceneSummaryView>) -> Seq<SceneSummaryView> {
    arranged(
        index,
        choose|order: Seq<usize>| is_stable_order(order_keys(index), false, order),
    )
}

/// Position of the first scene at or after `from` whose id is `id`.
pub open spec fn scene_position_from(index: Seq<SceneSummaryView>, id: Seq<char>, from: int) -> Option<
    int,
>
    decreases index.len() - from,
{
    if from < 0 || from >= index.len() {
        None
    } else if index[from].id == id {
        Some(from)
    } else {
        scene_position_from(index, id, from + 1)
    }
}

/// Position of the first scene whose id is `id`.
pub open spec fn scene_position(index: Seq<SceneSummaryView>, id: Seq<char>) -> Option<int> {
    scene_position_from(index, id, 0)
}

/// The summary of a scene with the details `d`.
pub open spec fn summary_of(d: SceneDetailsView) -> SceneSummaryView {
    SceneSummaryView {
        id: d.id,
        title: d.title,
        duration: d.duration,
        has_reference_image: d.has_reference_image,
        order: d.order,
    }
}

/// `index` brought up to date with the scene `d`: the first entry with its
/// id is replaced by its summary, or the summary is appended where there is
/// none.
pub open spec fn with_scene(index: Seq<SceneSummaryView>, d: SceneDetailsView) -> Seq<
    SceneSummaryView,
> {
    match scene_position(index, d.id) {
        Some(i) => index.update(i, summary_of(d)),
        None => index.push(summary_of(d)),
    }
}

/// Puts an index in order: see [`in_index_order`].
pub fn sort_scene_index(index: Vec<SceneSummary>) -> (sorted: Vec<SceneSummary>)
    ensures
        summary_views(sorted@) == in_index_order(summary_views(index@)),
        sorted@.len() == index@.len(),
{
    let ghost views = summary_views(index@);
    let mut keys: Vec<i64> = Vec::new();
    let mut i: usize = 0;
    while i < index.len()
        invariant
            i <= index.len(),
            views == summary_views(index@),
            keys@ == order_keys(views).take(i as int),
        decreases index.len() - i,
    {
        keys.push(index[i].order as i64);
        assert(keys@ =~= order_keys(views).take(i + 1));
        i = i + 1;
    }
    assert(keys@ =~= order_keys(views));
    let order = stable_order(&keys, false);
    proof {
        let chosen = choose|o: Seq<usize>| is_stable_order(order_keys(views), false, o);
        lemma_stable_order_is_unique(order_keys(views), false, order@, chosen);
    }
    let mut sorted: Vec<SceneSummary> = Vec::new();
    let mut a: usize = 0;
    while a < order.len()
        invariant
            a <= order.len(),
            order@.len() == index@.len(),
            views == summary_views(index@),
            forall|k: int| 0 <= k < order@.len() ==> (#[trigger] order@[k]) < index@.len(),
            summary_views(sorted@) == arranged(views, order@).take(a as int),
        decreases order.len() - a,
    {
        let ghost before = summary_views(sorted@);
        sorted.push(clone_summary(&index[order[a]]));
        assert(views[order@[a as int] as int] == index@[order@[a as int] as int]@);
        assert(summary_views(sorted@) =~= before.push(views[order@[a as int] as int]));
        assert(summary_views(sorted@) =~= arranged(views, order@).take(a + 1));
        a = a + 1;
    }
    assert(arranged(views, order@).take(order@.len() as int) =~= arranged(views, order@));
    sorted
}

/// Finds the first scene whose id is `id`.
pub fn find_scene(index: &Vec<SceneSummary>, id: &str) -> (found: Option<usize>)
    ensures
        found matches Some(i) ==> scene_position(summary_views(index@), id@) == Some(i as int) && i
            < index@.len() && index@[i as int].id@ == id@,
        found is None ==> scene_position(summary_views(index@), id@) is None,
{
    let wanted = String::from_str(id);
    let ghost views = summary_views(index@);
    let mut i: usize = 0;
    while i < index.len()
        invariant
            i <= index.len(),
            wanted@ == id@,
            views == summary_views(index@),
            scene_position(views, id@) == scene_position_from(views, id@, i as int),
        decreases index.len() - i,
    {
        assert(views[i as int].id == index@[i as int].id@);
        if index[i].id == wanted {
            return Some(i);
        }
        i = i + 1;
    }
    None
}

/// Brings `summaries` up to date with the scene `details`: see
/// [`with_scene`].
pub fn ensure_summary_for_scene(summaries: &mut Vec<SceneSummary>, details: &SceneDetails)
    ensures
        summary_views(final(summaries)@) == with_scene(summary_views(old(summaries)@), details@),
{
    let entry = SceneSummary {
        id: details.id.clone(),
        title: details.title.clone(),
        duration: details.duration.clone(),
        has_reference_image: details.has_reference_image,
        order: details.order,
    };
    assert(entry@ == summary_of(details@));
    let ghost before = summary_views(summaries@);
    match find_scene(summaries, details.id.as_str()) {
        Some(i) => {
            assert(scene_position(before, details@.id) == Some(i as int));
            summaries.set(i, entry);
            assert(summary_views(summaries@) =~= before.update(i as int, summary_of(details@)));
        },
        None => {
            assert(scene_position(before, details@.id) is None);
            summaries.push(entry);
            assert(summary_views(summaries@) =~= before.push(summary_of(details@)));
        },
    }
}

/// What stands at the place of a scene file.
#[derive(Debug, Clone, PartialEq, Eq)]
pub enum SceneFile {
    /// Nothing.
    Missing,
    /// A file that could not be read, and why.
    Unreadable(String),
    /// A file with this text.
    Text(String),
}

/// A [`SceneFile`] as text.
pub enum SceneFileView {
    Missing,
    Unreadable(Seq<char>),
    Text(Seq<char>),
}

impl View for SceneFile {
    type V = SceneFileView;

    open spec fn view(&self) -> SceneFileView {
        match self {
            SceneFile::Missing => SceneFileView::Missing,
            SceneFile::Unreadable(e) => SceneFileView::Unreadable(e@),
            SceneFile::Text(content) => SceneFileView::Text(content@),
        }
    }
}

/// The message for a scene that has no file.
pub open spec fn scene_missing_text(scene_id: Seq<char>) -> Seq<char> {
    "Scene '"@ + scene_id + "' does not exist"@
}

/// The details of the scene `scene_id` as its file gives them, with `order`
/// zero: the index knows the order. A scene without a file, a file that
/// cannot be read or understood, and a length that a scene cannot have are
/// failures.
pub open spec fn details_from(scene_id: Seq<char>, file: SceneFileView, has_reference_image: bool) -> Result<
    SceneDetailsView,
    Seq<char>,
> {
    match file {
        SceneFileView::Missing => Err(scene_missing_text(scene_id)),
        SceneFileView::Unreadable(e) => Err("Failed to read scene: "@ + e),
        SceneFileView::Text(content) => match parsed_scene(content) {
            Err(e) => Err(e),
            Ok((title, duration, description)) => if is_valid_duration(duration) {
                Ok(
                    SceneDetailsView {
                        id: scene_id,
                        title,
                        duration,
                        description,
                        has_reference_image,
                        order: 0,
                    },
                )
            } else {
                Err(invalid_duration_text(duration))
            },
        },
    }
}

/// Reads the details of a scene from what stands at the place of its file:
/// see [`details_from`].
pub fn build_details_from_disk(scene_id: &str, file: &SceneFile, has_reference_image: bool) -> (r:
    Result<SceneDetails, String>)
    ensures
        match details_from(scene_id@, file@, has_reference_image) {
            Ok(d) => r is Ok && r->Ok_0@ == d,
            Err(e) => r is Err && r->Err_0@ == e,
        },
{
    match file {
        SceneFile::Missing => {
            let mut message = String::from_str("Scene '");
            message.append(scene_id);
            message.append("' does not exist");
            Err(message)
        },
        SceneFile::Unreadable(e) => {
            let mut message = String::from_str("Failed to read scene: ");
            message.append(e.as_str());
            Err(message)
        },
        SceneFile::Text(content) => {
            let (title, duration, description) = match parse_scene_markdown(content.as_str()) {
                Ok(parts) => parts,
                Err(e) => {
                    return Err(e);
                },
            };
            match validate_duration(duration.as_str()) {
                Ok(_) => {},
                Err(e) => {
                    return Err(e);
                },
            }
            Ok(
                SceneDetails {
                    id: String::from_str(scene_id),
                    title,
                    duration,
                    description,
                    has_reference_image,
                    order: 0,
                },
            )
        },
    }
}

/// An index as read, or the failure to read it, as text.
pub open spec fn index_view(index: Result<Vec<SceneSummary>, String>) -> Result<
    Seq<SceneSummaryView>,
    Seq<char>,
> {
    match index {
        Ok(entries) => Ok(summary_views(entries@)),
        Err(e) => Err(e@),
    }
}

/// The details of the scene `scene_id`: what its file gives, with the order
/// and the reference image as the index has them, where the index lists the
/// scene. The id is checked first, then the file is read, then the index.
pub open spec fn scene_read(
    scene_id: Seq<char>,
    file: SceneFileView,
    has_reference_image: bool,
    index: Result<Seq<SceneSummaryView>, Seq<char>>,
) -> Result<SceneDetailsView, Seq<char>> {
    match sanitized(scene_id) {
        Err(e) => Err(e),
        Ok(_) => match details_from(scene_id, file, has_reference_image) {
            Err(e) => Err(e),
            Ok(d) => match index {
                Err(e) => Err(e),
                Ok(entries) => match scene_position(in_index_order(entries), scene_id) {
                    Some(i) => Ok(
                        SceneDetailsView {
                            order: in_index_order(entries)[i].order,
                            has_reference_image: in_index_order(entries)[i].has_reference_image,
                            ..d
                        },
                    ),
                    None => Ok(d),
                },
            },
        },
    }
}

/// Reads a scene with all its details: see [`scene_read`].
pub fn read_scene(
    scene_id: &str,
    file: &SceneFile,
    has_reference_image: bool,
    index: Result<Vec<SceneSummary>, String>,
) -> (r: Result<SceneDetails, String>)
    ensures
        match scene_read(scene_id@, file@, has_reference_image, index_view(index)) {
            Ok(d) => r is Ok && r->Ok_0@ == d,
            Err(e) => r is Err && r->Err_0@ == e,
        },
{
    match sanitize_project_name(scene_id) {
        Ok(_) => {},
        Err(e) => {
            return Err(e);
        },
    }
    let mut details = match build_details_from_disk(scene_id, file, has_reference_image) {
        Ok(details) => details,
        Err(e) => {
            return Err(e);
        },
    };
    let entries = match index {
        Ok(entries) => sort_scene_index(entries),
        Err(e) => {
            return Err(e);
        },
    };
    match find_scene(&entries, scene_id) {
        Some(i) => {
            details.order = entries[i].order;
            details.has_reference_image = entries[i].has_reference_image;
        },
        None => {},
    }
    Ok(details)
}

/// The greatest `order` among the first `k` scenes of `index`, or zero where
/// there is none.
pub open spec fn max_order_upto(index: Seq<SceneSummaryView>, k: int) -> int
    decreases k,
{
    if k <= 0 {
        0
    } else if k == 1 {
        index[0].order as int
    } else if index[k - 1].order > max_order_upto(index, k - 1) {
        index[k - 1].order as int
    } else {
        max_order_upto(index, k - 1)
    }
}

/// The greatest `order` in `index`, or zero for an empty index.
pub open spec fn max_order(index: Seq<SceneSummaryView>) -> int {
    max_order_upto(index, index.len() as int)
}

/// Computes [`max_order`].
pub fn greatest_order(index: &Vec<SceneSummary>) -> (greatest: i32)
    ensures
        greatest == max_order(summary_views(index@)),
{
    if index.len() == 0 {
        return 0;
    }
    let ghost views = summary_views(index@);
    let mut greatest = index[0].order;
    let mut i: usize = 1;
    while i < index.len()
        invariant
            1 <= i <= index.len(),
            views == summary_views(index@),
            greatest == max_order_upto(views, i as int),
        decreases index.len() - i,
    {
        assert(views[i as int].order == index@[i as int].order);
        if index[i].order > greatest {
            greatest = index[i].order;
        }
        i = i + 1;
    }
    greatest
}

/// The first `k` scenes of `index` without those whose id is `id`.
pub open spec fn without_scene_upto(index: Seq<SceneSummaryView>, id: Seq<char>, k: int) -> Seq<
    SceneSummaryView,
>
    decreases k,
{
    if k <= 0 {
        Seq::<SceneSummaryView>::empty()
    } else if index[k - 1].id == id {
        without_scene_upto(index, id, k - 1)
    } else {
        without_scene_upto(index, id, k - 1).push(index[k - 1])
    }
}

/// The index after the scene `scene_id` was deleted: the index in order,
/// without the entries of that scene.
pub open spec fn index_without(index: Seq<SceneSummaryView>, scene_id: Seq<char>) -> Seq<
    SceneSummaryView,
> {
    without_scene_upto(in_index_order(index), scene_id, index.len() as int)
}

/// Takes the scene `scene_id` out of the index: see [`index_without`].
pub fn index_after_delete(index: Vec<SceneSummary>, scene_id: &str) -> (kept: Vec<SceneSummary>)
    ensures
        summary_views(kept@) == index_without(summary_views(index@), scene_id@),
{
    let ghost given = summary_views(index@);
    let sorted = sort_scene_index(index);
    let ghost views = summary_views(sorted@);
    let wanted = String::from_str(scene_id);
    let mut kept: Vec<SceneSummary> = Vec::new();
    let mut i: usize = 0;
    assert(summary_views(kept@) =~= without_scene_upto(views, scene_id@, 0));
    while i < sorted.len()
        invariant
            i <= sorted.len(),
            wanted@ == scene_id@,
            views == summary_views(sorted@),
            summary_views(kept@) == without_scene_upto(views, scene_id@, i as int),
        decreases sorted.len() - i,
    {
        assert(views[i as int] == sorted@[i as int]@);
        if sorted[i].id != wanted {
            let ghost before = summary_views(kept@);
            kept.push(clone_summary(&sorted[i]));
            assert(summary_views(kept@) =~= before.push(views[i as int]));
        }
        i = i + 1;
    }
    assert(views.len() == given.len());
    kept
}

/// A directory entry found where the scenes of a project lie.
#[derive(Debug, Clone, PartialEq, Eq)]
pub struct SceneDirectory {
    /// Name of the entry, which is the scene's id if it is a scene.
    pub name: String,
    /// Whether the entry is a directory.
    pub is_dir: bool,
    /// What stands at the place of the scene file in it.
    pub file: SceneFile,
    /// Whether the scene has a reference image.
    pub has_reference_image: bool,
}

/// A [`SceneDirectory`] as text.
pub struct SceneDirectoryView {
    pub name: Seq<char>,
    pub is_dir: bool,
    pub file: SceneFileView,
    pub has_reference_image: bool,
}

impl View for SceneDirectory {
    type V = SceneDirectoryView;

    open spec fn view(&self) -> SceneDirectoryView {
        SceneDirectoryView {
            name: self.name@,
            is_dir: self.is_dir,
            file: self.file@,
            has_reference_image: self.has_reference_image,
        }
    }
}

/// The views of a list of directory entries.
pub open spec fn directory_views(found: Seq<SceneDirectory>) -> Seq<SceneDirectoryView> {
    Seq::new(found.len(), |i: int| found[i]@)
}

/// `index` with the scene of the directory entry `entry` appended, if it is
/// one that the index does not list: a directory, not named like the index
/// file, whose scene file can be read. The scene goes behind all others: its
/// order is one more than the greatest in the index.
pub open spec fn with_found_scene(index: Seq<SceneSummaryView>, entry: SceneDirectoryView) -> Seq<
    SceneSummaryView,
> {
    if !entry.is_dir || entry.name == "index.json"@ || scene_position(index, entry.name) is Some {
        index
    } else {
        match details_from(entry.name, entry.file, entry.has_reference_image) {
            Ok(d) => index.push(
                summary_of(SceneDetailsView { order: (max_order(index) + 1) as i32, ..d }),
            ),
            Err(_) => index,
        }
    }
}

/// `index` with the scenes of the first `k` entries of `found` that it does
/// not list.
pub open spec fn merged_upto(index: Seq<SceneSummaryView>, found: Seq<SceneDirectoryView>, k: int) -> Seq<
    SceneSummaryView,
>
    decreases k,
{
    if k <= 0 {
        index
    } else {
        with_found_scene(merged_upto(index, found, k - 1), found[k - 1])
    }
}

/// The scenes of a project: those of the index and those found on disk that
/// the index does not list, by ascending order.
pub open spec fn scene_listing(index: Seq<SceneSummaryView>, found: Seq<SceneDirectoryView>) -> Seq<
    SceneSummaryView,
> {
    in_index_order(merged_upto(index, found, found.len() as int))
}

/// No scene of the first `k` has an order above the greatest.
pub proof fn lemma_max_order_bound(index: Seq<SceneSummaryView>, k: int, bound: int)
    requires
        0 <= k <= index.len(),
        bound >= 0,
        forall|i: int| 0 <= i < k ==> (#[trigger] index[i]).order <= bound,
    ensures
        max_order_upto(index, k) <= bound,
        forall|i: int| 0 <= i < k ==> (#[trigger] index[i]).order <= max_order_upto(index, k),
    decreases k,
{
    if k > 1 {
        lemma_max_order_bound(index, k - 1, bound);
    }
}

/// Lists the scenes of a project: see [`scene_listing`]. The orders must
/// leave room for the scenes that are found.
pub fn list_scenes(index: Vec<SceneSummary>, found: &Vec<SceneDirectory>) -> (listing: Vec<
    SceneSummary,
>)
    requires
        found@.len() <= i32::MAX,
        forall|i: int|
            0 <= i < index@.len() ==> (#[trigger] index@[i]).order + found@.len() <= i32::MAX,
    ensures
        summary_views(listing@) == scene_listing(summary_views(index@), directory_views(found@)),
{
    let ghost given = summary_views(index@);
    let ghost entries = directory_views(found@);
    let mut summaries = index;
    let mut k: usize = 0;
    while k < found.len()
        invariant
            k <= found.len(),
            found@.len() <= i32::MAX,
            entries == directory_views(found@),
            summary_views(summaries@) == merged_upto(given, entries, k as int),
            forall|i: int|
                0 <= i < summaries@.len() ==> (#[trigger] summaries@[i]).order + (found@.len() - k)
                    <= i32::MAX,
        decreases found.len() - k,
    {
        let entry = &found[k];
        let ghost before = summary_views(summaries@);
        assert(entries[k as int] == entry@);
        if entry.is_dir && !same_text(entry.name.as_str(), "index.json") && find_scene(
            &summaries,
            entry.name.as_str(),
        ).is_none() {
            match build_details_from_disk(
                entry.name.as_str(),
                &entry.file,
                entry.has_reference_image,
            ) {
                Ok(mut details) => {
                    proof {
                        assert forall|i: int| 0 <= i < before.len() implies (#[trigger] before[i]).order
                            <= i32::MAX - (found@.len() - k) by {
                            assert(before[i].order == summaries@[i].order);
                        }
                        lemma_max_order_bound(
                            before,
                            before.len() as int,
                            i32::MAX - (found@.len() - k),
                        );
                    }
                    details.order = greatest_order(&summaries) + 1;
                    ensure_summary_for_scene(&mut summaries, &details);
                    assert(summary_views(summaries@) == with_found_scene(before, entries[k as int]));
                    let ghost after = summary_views(summaries@);
                    assert(after == before.push(summary_of(details@)));
                    assert forall|i: int| 0 <= i < summaries@.len() implies (
                    #[trigger] summaries@[i]).order + (found@.len() - (k + 1)) <= i32::MAX by {
                        assert(after[i].order == summaries@[i].order);
                        if i < before.len() {
                            assert(after[i] == before[i]);
                            assert(before[i].order <= i32::MAX - (found@.len() - k));
                        }
                    }
                },
                Err(_) => {},
            }
        }
        k = k + 1;
    }
    sort_scene_index(summaries)
}

/// What is written to the file of a scene, if the scene may be written at
/// all: the id must pass as a name, and the duration must be one that a
/// scene can have.
pub open spec fn scene_to_write(
    scene_id: Seq<char>,
    title: Seq<char>,
    description: Seq<char>,
    duration: Seq<char>,
) -> Result<Seq<char>, Seq<char>> {
    match sanitized(scene_id) {
        Err(e) => Err(e),
        Ok(_) => if is_valid_duration(duration) {
            Ok(scene_markdown(title, duration, description))
        } else {
            Err(invalid_duration_text(duration))
        },
    }
}

/// Checks a scene that is to be written and gives the text of its file: see
/// [`scene_to_write`].
pub fn write_scene(scene_id: &str, title: &str, description: &str, duration: &str) -> (r: Result<
    String,
    String,
>)
    ensures
        match scene_to_write(scene_id@, title@, description@, duration@) {
            Ok(text) => r is Ok && r->Ok_0@ == text,
            Err(e) => r is Err && r->Err_0@ == e,
        },
{
    match sanitize_project_name(scene_id) {
        Ok(_) => {},
        Err(e) => {
            return Err(e);
        },
    }
    match validate_duration(duration) {
        Ok(_) => {},
        Err(e) => {
            return Err(e);
        },
    }
    Ok(create_scene_markdown(title, duration, description))
}

/// The order of a scene that is written: the one asked for, or else one more
/// than the greatest in the index, or zero in an empty index.
pub open spec fn assigned_order(index: Seq<SceneSummaryView>, order: Option<i32>) -> int {
    match order {
        Some(o) => o as int,
        None => if index.len() == 0 {
            0
        } else {
            max_order(index) + 1
        },
    }
}

/// The index after the scene `written` was written, whose order is the
/// assigned one: the index in order, brought up to date with the scene, in
/// order again.
pub open spec fn index_with(index: Seq<SceneSummaryView>, written: SceneSummaryView) -> Seq<
    SceneSummaryView,
> {
    in_index_order(
        match scene_position(in_index_order(index), written.id) {
            Some(i) => in_index_order(index).update(i, written),
            None => in_index_order(index).push(written),
        },
    )
}

/// Brings the index up to date with a scene that was written: see
/// [`index_with`] and [`assigned_order`]. Where no order is asked for, the
/// greatest order in the index must leave room for one more.
pub fn index_after_write(
    index: Vec<SceneSummary>,
    scene_id: &str,
    title: &str,
    duration: &str,
    has_reference_image: bool,
    order: Option<i32>,
) -> (updated: Vec<SceneSummary>)
    requires
        order is None ==> max_order(summary_views(index@)) < i32::MAX,
    ensures
        summary_views(updated@) == index_with(
            summary_views(index@),
            SceneSummaryView {
                id: scene_id@,
                title: title@,
                duration: duration@,
                has_reference_image,
                order: assigned_order(summary_views(index@), order) as i32,
            },
        ),
{
    let assigned: i32 = match order {
        Some(o) => o,
        None => if index.len() == 0 {
            0
        } else {
            greatest_order(&index) + 1
        },
    };
    let mut summaries = sort_scene_index(index);
    let details = SceneDetails {
        id: String::from_str(scene_id),
        title: String::from_str(title),
        duration: String::from_str(duration),
        description: String::new(),
        has_reference_image,
        order: assigned,
    };
    ensure_summary_for_scene(&mut summaries, &details);
    sort_scene_index(summaries)
}

/// The state of a renumbering: the index so far, the ids that were given
/// their place, and the next order to give.
pub struct Renumbering {
    pub index: Seq<SceneSummaryView>,
    pub seen: Seq<Seq<char>>,
    pub next: int,
}

/// `summary` with the order `order`.
pub open spec fn with_order(summary: SceneSummaryView, order: int) -> SceneSummaryView {
    SceneSummaryView { order: order as i32, ..summary }
}

/// The renumbering after the first `k` of the ids asked for: each id that
/// was not yet seen and that the index lists gives the next order to the
/// first scene of that id.
pub open spec fn renumber_listed(index: Seq<SceneSummaryView>, ids: Seq<Seq<char>>, k: int) -> Renumbering
    decreases k,
{
    if k <= 0 {
        Renumbering { index, seen: Seq::<Seq<char>>::empty(), next: 0 }
    } else {
        let prev = renumber_listed(index, ids, k - 1);
        let id = ids[k - 1];
        if prev.seen.contains(id) {
            prev
        } else {
            match scene_position(prev.index, id) {
                Some(i) => Renumbering {
                    index: prev.index.update(i, with_order(prev.index[i], prev.next)),
                    seen: prev.seen.push(id),
                    next: prev.next + 1,
                },
                None => prev,
            }
        }
    }
}

/// The renumbering after the first `k` scenes of the index: each scene whose
/// id was not asked for is given the next order.
pub open spec fn renumber_rest(start: Renumbering, k: int) -> Renumbering
    decreases k,
{
    if k <= 0 {
        start
    } else {
        let prev = renumber_rest(start, k - 1);
        if prev.seen.contains(prev.index[k - 1].id) {
            prev
        } else {
            Renumbering {
                index: prev.index.update(k - 1, with_order(prev.index[k - 1], prev.next)),
                next: prev.next + 1,
                ..prev
            }
        }
    }
}

/// The index after its scenes were put in the order of `ids`: the scenes
/// asked for are numbered first, in the order asked for, then the others as
/// they stand in the index; then the index is put in order.
pub open spec fn reordered(index: Seq<SceneSummaryView>, ids: Seq<Seq<char>>) -> Seq<
    SceneSummaryView,
> {
    in_index_order(
        renumber_rest(
            renumber_listed(in_index_order(index), ids, ids.len() as int),
            index.len() as int,
        ).index,
    )
}

/// Gives the scenes of an index the order of `ordered_ids`: see
/// [`reordered`]. An empty index is left alone: there is nothing to write
/// then. The index and the ids together must not outnumber what an `i32`
/// counts.
pub fn reorder_scenes(index: Vec<SceneSummary>, ordered_ids: &[String]) -> (r: Option<
    Vec<SceneSummary>,
>)
    requires
        index@.len() + ordered_ids@.len() <= i32::MAX,
    ensures
        index@.len() == 0 ==> r is None,
        index@.len() > 0 ==> r is Some && summary_views(r->Some_0@) == reordered(
            summary_views(index@),
            texts(ordered_ids@),
        ),
{
    if index.len() == 0 {
        return None;
    }
    let ghost given = summary_views(index@);
    let ghost ids = texts(ordered_ids@);
    let n = index.len();
    let mut summaries = sort_scene_index(index);
    let ghost sorted = summary_views(summaries@);
    let mut seen: Vec<String> = Vec::new();
    let mut order_counter: i32 = 0;
    let mut k: usize = 0;
    assert(texts(seen@) =~= Seq::<Seq<char>>::empty());
    while k < ordered_ids.len()
        invariant
            k <= ordered_ids.len(),
            n + ordered_ids@.len() <= i32::MAX,
            ids == texts(ordered_ids@),
            summaries@.len() == n,
            0 <= order_counter <= k,
            renumber_listed(sorted, ids, k as int) == (Renumbering {
                index: summary_views(summaries@),
                seen: texts(seen@),
                next: order_counter as int,
            }),
        decreases ordered_ids.len() - k,
    {
        let scene_id = &ordered_ids[k];
        assert(ids[k as int] == scene_id@);
        if !holds_text(&seen, scene_id.as_str()) {
            match find_scene(&summaries, scene_id.as_str()) {
                Some(i) => {
                    let ghost before = summary_views(summaries@);
                    let ghost seen_before = texts(seen@);
                    let mut entry = clone_summary(&summaries[i]);
                    entry.order = order_counter;
                    assert(entry@ == with_order(before[i as int], order_counter as int));
                    summaries.set(i, entry);
                    assert(summary_views(summaries@) =~= before.update(
                        i as int,
                        with_order(before[i as int], order_counter as int),
                    ));
                    order_counter = order_counter + 1;
                    seen.push(scene_id.clone());
                    assert(texts(seen@) =~= seen_before.push(scene_id@));
                },
                None => {},
            }
        }
        k = k + 1;
    }
    let ghost listed = renumber_listed(sorted, ids, ids.len() as int);
    let mut j: usize = 0;
    while j < n
        invariant
            j <= n,
            n + ordered_ids@.len() <= i32::MAX,
            summaries@.len() == n,
            0 <= order_counter <= ordered_ids@.len() + j,
            renumber_rest(listed, j as int) == (Renumbering {
                index: summary_views(summaries@),
                seen: texts(seen@),
                next: order_counter as int,
            }),
        decreases n - j,
    {
        let ghost before = summary_views(summaries@);
        assert(before[j as int] == summaries@[j as int]@);
        if !holds_text(&seen, summaries[j].id.as_str()) {
            let mut entry = clone_summary(&summaries[j]);
            entry.order = order_counter;
            summaries.set(j, entry);
            assert(summary_views(summaries@) =~= before.update(
                j as int,
                with_order(before[j as int], order_counter as int),
            ));
            order_counter = order_counter + 1;
        }
        j = j + 1;
    }
    Some(sort_scene_index(summaries))
}

/// Whether no two scenes of `index` share an id.
pub open spec fn has_distinct_ids(index: Seq<SceneSummaryView>) -> bool {
    forall|a: int, b: int|
        0 <= a < b < index.len() ==> (#[trigger] index[a]).id != (#[trigger] index[b]).id
}

/// The ids among the first `k` asked for that `index` lists, each once, in
/// the order in which they are first asked for.
pub open spec fn asked_ids(index: Seq<SceneSummaryView>, ids: Seq<Seq<char>>, k: int) -> Seq<
    Seq<char>,
>
    decreases k,
{
    if k <= 0 {
        Seq::<Seq<char>>::empty()
    } else {
        let before = asked_ids(index, ids, k - 1);
        if !before.contains(ids[k - 1]) && scene_position(index, ids[k - 1]) is Some {
            before.push(ids[k - 1])
        } else {
            before
        }
    }
}

/// What the position of a scene says: the scene at that position has the id
/// and none before it has; where there is no position, no scene has the id.
pub proof fn lemma_scene_position(index: Seq<SceneSummaryView>, id: Seq<char>, from: int)
    requires
        0 <= from,
    ensures
        match scene_position_from(index, id, from) {
            Some(i) => from <= i < index.len() && index[i].id == id && forall|j: int|
                from <= j < i ==> (#[trigger] index[j]).id != id,
            None => forall|j: int| from <= j < index.len() ==> (#[trigger] index[j]).id != id,
        },
    decreases index.len() - from,
{
    if from < index.len() && index[from].id != id {
        lemma_scene_position(index, id, from + 1);
    }
}

/// The position of a scene depends on the ids alone.
pub proof fn lemma_position_by_ids(
    first: Seq<SceneSummaryView>,
    second: Seq<SceneSummaryView>,
    id: Seq<char>,
    from: int,
)
    requires
        first.len() == second.len(),
        forall|j: int| 0 <= j < first.len() ==> (#[trigger] first[j]).id == second[j].id,
    ensures
        scene_position_from(first, id, from) == scene_position_from(second, id, from),
    decreases first.len() - from,
{
    if 0 <= from < first.len() {
        assert(first[from].id == second[from].id);
        if first[from].id != id {
            lemma_position_by_ids(first, second, id, from + 1);
        }
    }
}

/// How many of the first `k` scenes of `index` have an id among `seen`.
pub open spec fn listed_count(index: Seq<SceneSummaryView>, seen: Seq<Seq<char>>, k: int) -> int
    decreases k,
{
    if k <= 0 {
        0
    } else {
        listed_count(index, seen, k - 1) + if seen.contains(index[k - 1].id) {
            1int
        } else {
            0int
        }
    }
}

/// Between two places of an index there are no more scenes with an id among
/// `seen` than there are scenes.
pub proof fn lemma_listed_count_grows(
    index: Seq<SceneSummaryView>,
    seen: Seq<Seq<char>>,
    from: int,
    to: int,
)
    requires
        0 <= from <= to,
    ensures
        0 <= listed_count(index, seen, to) - listed_count(index, seen, from) <= to - from,
    decreases to - from,
{
    if from < to {
        lemma_listed_count_grows(index, seen, from, to - 1);
    }
}

/// One more id that is seen counts one more scene, if one scene has the id
/// and it was not seen before.
proof fn lemma_listed_count_push(
    index: Seq<SceneSummaryView>,
    seen: Seq<Seq<char>>,
    id: Seq<char>,
    i: int,
    k: int,
)
    requires
        has_distinct_ids(index),
        !seen.contains(id),
        0 <= i < index.len(),
        index[i].id == id,
        0 <= k <= index.len(),
    ensures
        listed_count(index, seen.push(id), k) == listed_count(index, seen, k) + if i < k {
            1int
        } else {
            0int
        },
    decreases k,
{
    if k > 0 {
        lemma_listed_count_push(index, seen, id, i, k - 1);
        let more = seen.push(id);
        let here = index[k - 1].id;
        assert(more.last() == id);
        if seen.contains(here) {
            let p = choose|p: int| 0 <= p < seen.len() && seen[p] == here;
            assert(more[p] == here);
            assert(k - 1 != i);
        } else if here == id {
            assert(more[seen.len() as int] == here);
            if k - 1 < i {
                assert(index[k - 1].id != index[i].id);
            } else if i < k - 1 {
                assert(index[i].id != index[k - 1].id);
            }
        } else {
            if more.contains(here) {
                let p = choose|p: int| 0 <= p < more.len() && more[p] == here;
                if p < seen.len() {
                    assert(seen[p] == here);
                }
            }
            assert(k - 1 != i);
        }
    }
}

/// As many scenes of an index without double ids are asked for as ids are.
pub proof fn lemma_asked_are_counted(index: Seq<SceneSummaryView>, ids: Seq<Seq<char>>, k: int)
    requires
        has_distinct_ids(index),
        0 <= k <= ids.len(),
    ensures
        listed_count(index, asked_ids(index, ids, k), index.len() as int) == asked_ids(
            index,
            ids,
            k,
        ).len(),
    decreases k,
{
    if k > 0 {
        lemma_asked_are_counted(index, ids, k - 1);
        let before = asked_ids(index, ids, k - 1);
        let id = ids[k - 1];
        if !before.contains(id) && scene_position(index, id) is Some {
            lemma_scene_position(index, id, 0);
            lemma_listed_count_push(
                index,
                before,
                id,
                scene_position(index, id)->Some_0,
                index.len() as int,
            );
        }
    } else {
        lemma_no_id_counts_none(index, index.len() as int);
    }
}

/// Where no id is seen, no scene is counted.
proof fn lemma_no_id_counts_none(index: Seq<SceneSummaryView>, k: int)
    ensures
        listed_count(index, Seq::<Seq<char>>::empty(), k) == 0,
    decreases k,
{
    if k > 0 {
        lemma_no_id_counts_none(index, k - 1);
    }
}

/// What the first part of a renumbering does to an index without double
/// ids: see [`lemma_renumbering`].
proof fn lemma_listed_renumbering(index: Seq<SceneSummaryView>, ids: Seq<Seq<char>>, k: int)
    requires
        has_distinct_ids(index),
        0 <= k <= ids.len(),
        ids.len() <= i32::MAX,
    ensures
        ({
            let r = renumber_listed(index, ids, k);
            &&& r.index.len() == index.len()
            &&& r.seen == asked_ids(index, ids, k)
            &&& r.seen.no_duplicates()
            &&& r.next == r.seen.len()
            &&& r.next <= k
            &&& forall|j: int|
                0 <= j < index.len() ==> (#[trigger] r.index[j]) == with_order(
                    index[j],
                    r.index[j].order as int,
                )
            &&& forall|j: int|
                0 <= j < index.len() && !r.seen.contains(index[j].id) ==> (#[trigger] r.index[j])
                    == index[j]
            &&& forall|p: int|
                0 <= p < r.seen.len() ==> scene_position(index, #[trigger] r.seen[p]) is Some
                    && r.index[scene_position(index, r.seen[p])->Some_0].order == p
        }),
    decreases k,
{
    if k > 0 {
        lemma_listed_renumbering(index, ids, k - 1);
        let prev = renumber_listed(index, ids, k - 1);
        let r = renumber_listed(index, ids, k);
        let id = ids[k - 1];
        lemma_position_by_ids(prev.index, index, id, 0);
        lemma_scene_position(index, id, 0);
        if !prev.seen.contains(id) && scene_position(index, id) is Some {
            let i = scene_position(index, id)->Some_0;
            assert(r.index == prev.index.update(i, with_order(prev.index[i], prev.next)));
            assert(r.seen == prev.seen.push(id));
            assert forall|p: int| 0 <= p < r.seen.len() implies scene_position(
                index,
                #[trigger] r.seen[p],
            ) is Some && r.index[scene_position(index, r.seen[p])->Some_0].order == p by {
                if p < prev.seen.len() {
                    assert(r.seen[p] == prev.seen[p]);
                    let j = scene_position(index, prev.seen[p])->Some_0;
                    lemma_scene_position(index, prev.seen[p], 0);
                    assert(prev.seen.contains(prev.seen[p]));
                    assert(j != i);
                }
            }
            assert forall|j: int|
                0 <= j < index.len() && !r.seen.contains(index[j].id) implies (
            #[trigger] r.index[j]) == index[j] by {
                assert(r.seen.last() == id);
                assert(r.seen.contains(id));
                assert(j != i);
                if prev.seen.contains(index[j].id) {
                    let p = choose|p: int| 0 <= p < prev.seen.len() && prev.seen[p] == index[j].id;
                    assert(r.seen[p] == index[j].id);
                }
            }
            assert forall|a: int, b: int| 0 <= a < b < r.seen.len() implies r.seen[a]
                != r.seen[b] by {
                if b == prev.seen.len() {
                    assert(prev.seen.contains(prev.seen[a]));
                }
            }
        }
    }
}

/// What the second part of a renumbering does to an index without double
/// ids: see [`lemma_renumbering`].
proof fn lemma_rest_renumbering(index: Seq<SceneSummaryView>, ids: Seq<Seq<char>>, k: int)
    requires
        has_distinct_ids(index),
        0 <= k <= index.len(),
        index.len() + ids.len() <= i32::MAX,
    ensures
        ({
            let listed = renumber_listed(index, ids, ids.len() as int);
            let r = renumber_rest(listed, k);
            &&& r.index.len() == index.len()
            &&& r.seen == listed.seen
            &&& listed.seen.len() <= r.next <= listed.seen.len() + k
            &&& forall|j: int|
                0 <= j < index.len() ==> (#[trigger] r.index[j]) == with_order(
                    index[j],
                    r.index[j].order as int,
                )
            &&& forall|j: int|
                0 <= j < index.len() && (j >= k || listed.seen.contains(index[j].id)) ==> (
                #[trigger] r.index[j]) == listed.index[j]
            &&& forall|j: int|
                0 <= j < k && !listed.seen.contains(index[j].id) ==> listed.seen.len() <= (
                #[trigger] r.index[j]).order < r.next
            &&& forall|a: int, b: int|
                0 <= a < b < k && !listed.seen.contains(index[a].id) && !listed.seen.contains(
                    index[b].id,
                ) ==> (#[trigger] r.index[a]).order < (#[trigger] r.index[b]).order
            &&& r.next == listed.seen.len() + k - listed_count(index, listed.seen, k)
            &&& forall|j: int|
                0 <= j < k && !listed.seen.contains(index[j].id) ==> (#[trigger] r.index[j]).order
                    == listed.seen.len() + j - listed_count(index, listed.seen, j)
        }),
    decreases k,
{
    lemma_listed_renumbering(index, ids, ids.len() as int);
    lemma_listed_count_grows(index, renumber_listed(index, ids, ids.len() as int).seen, 0, k);
    if k > 0 {
        lemma_rest_renumbering(index, ids, k - 1);
        let listed = renumber_listed(index, ids, ids.len() as int);
        let prev = renumber_rest(listed, k - 1);
        let r = renumber_rest(listed, k);
        assert(prev.index[k - 1] == listed.index[k - 1]);
        assert(prev.index[k - 1].id == index[k - 1].id);
        if !prev.seen.contains(prev.index[k - 1].id) {
            assert(r.index == prev.index.update(k - 1, with_order(prev.index[k - 1], prev.next)));
            assert forall|a: int, b: int|
                0 <= a < b < k && !listed.seen.contains(index[a].id) && !listed.seen.contains(
                    index[b].id,
                ) implies (#[trigger] r.index[a]).order < (#[trigger] r.index[b]).order by {
                assert(r.index[a] == prev.index[a]);
                if b < k - 1 {
                    assert(r.index[b] == prev.index[b]);
                }
            }
        } else {
            assert(r == prev);
        }
    }
}

/// What renumbering does to an index in which no two scenes share an id.
///
/// Nothing of a scene changes but its order. The scenes asked for, which are
/// those of [`asked_ids`], get the orders 0, 1, 2 and so on, in the order in
/// which they are asked for. Every other scene gets an order behind those,
/// and of two such scenes the one that stands first gets the lesser order.
/// So no two scenes share an order; [`lemma_reordered_listing`] says how
/// they stand once the index is put in order.
pub proof fn lemma_renumbering(index: Seq<SceneSummaryView>, ids: Seq<Seq<char>>)
    requires
        has_distinct_ids(index),
        index.len() + ids.len() <= i32::MAX,
    ensures
        ({
            let asked = asked_ids(index, ids, ids.len() as int);
            let renumbered = renumber_rest(
                renumber_listed(index, ids, ids.len() as int),
                index.len() as int,
            ).index;
            &&& renumbered.len() == index.len()
            &&& forall|j: int|
                0 <= j < index.len() ==> (#[trigger] renumbered[j]) == with_order(
                    index[j],
                    renumbered[j].order as int,
                )
            &&& asked.no_duplicates()
            &&& forall|p: int|
                0 <= p < asked.len() ==> scene_position(index, #[trigger] asked[p]) is Some
                    && renumbered[scene_position(index, asked[p])->Some_0].order == p
            &&& forall|j: int| 0 <= j < index.len() ==> 0 <= (#[trigger] renumbered[j]).order < index.len()
            &&& forall|j: int|
                0 <= j < index.len() && !asked.contains(index[j].id) ==> asked.len() <= (
                #[trigger] renumbered[j]).order
            &&& forall|a: int, b: int|
                0 <= a < b < index.len() && !asked.contains(index[a].id) && !asked.contains(
                    index[b].id,
                ) ==> (#[trigger] renumbered[a]).order < (#[trigger] renumbered[b]).order
            &&& forall|a: int, b: int|
                0 <= a < b < index.len() ==> (#[trigger] renumbered[a]).order != (
                #[trigger] renumbered[b]).order
        }),
{
    let n = index.len() as int;
    let listed = renumber_listed(index, ids, ids.len() as int);
    let asked = asked_ids(index, ids, ids.len() as int);
    let renumbered = renumber_rest(listed, n).index;
    lemma_listed_renumbering(index, ids, ids.len() as int);
    lemma_rest_renumbering(index, ids, n);
    lemma_asked_are_counted(index, ids, ids.len() as int);
    assert forall|j: int| 0 <= j < index.len() implies 0 <= (#[trigger] renumbered[j]).order
        < index.len() by {
        lemma_listed_count_grows(index, asked, 0, n);
        if asked.contains(index[j].id) {
            lemma_order_of_asked(index, ids, j);
        } else {
            lemma_listed_count_grows(index, asked, j + 1, n);
            lemma_listed_count_grows(index, asked, 0, j);
        }
    }
    assert forall|p: int| 0 <= p < asked.len() implies scene_position(index, #[trigger] asked[p])
        is Some && renumbered[scene_position(index, asked[p])->Some_0].order == p by {
        let j = scene_position(index, asked[p])->Some_0;
        lemma_scene_position(index, asked[p], 0);
        assert(asked.contains(asked[p]));
        assert(renumbered[j] == listed.index[j]);
    }
    assert forall|a: int, b: int| 0 <= a < b < index.len() implies (#[trigger] renumbered[a]).order
        != (#[trigger] renumbered[b]).order by {
        lemma_order_of_asked(index, ids, a);
        lemma_order_of_asked(index, ids, b);
    }
}

/// A scene that was asked for has the order of its id among those asked
/// for, which is below their number.
proof fn lemma_order_of_asked(index: Seq<SceneSummaryView>, ids: Seq<Seq<char>>, j: int)
    requires
        has_distinct_ids(index),
        index.len() + ids.len() <= i32::MAX,
        0 <= j < index.len(),
    ensures
        ({
            let asked = asked_ids(index, ids, ids.len() as int);
            let listed = renumber_listed(index, ids, ids.len() as int);
            let renumbered = renumber_rest(listed, index.len() as int).index;
            asked.contains(index[j].id) ==> 0 <= renumbered[j].order < asked.len() && asked[renumbered[j].order as int]
                == index[j].id
        }),
{
    let asked = asked_ids(index, ids, ids.len() as int);
    let listed = renumber_listed(index, ids, ids.len() as int);
    let renumbered = renumber_rest(listed, index.len() as int).index;
    lemma_listed_renumbering(index, ids, ids.len() as int);
    lemma_rest_renumbering(index, ids, index.len() as int);
    if asked.contains(index[j].id) {
        let p = choose|p: int| 0 <= p < asked.len() && asked[p] == index[j].id;
        lemma_scene_position(index, asked[p], 0);
        let at = scene_position(index, asked[p])->Some_0;
        assert(at == j) by {
            if at < j {
                assert(index[at].id != index[j].id);
            } else if j < at {
                assert(index[j].id != index[at].id);
            }
        }
        assert(renumbered[j] == listed.index[j]);
    }
}

/// An index in order holds the scenes of the index, each once, by ascending
/// order; and if no two scenes of the index share an id, none of it do.
pub proof fn lemma_index_order(index: Seq<SceneSummaryView>)
    requires
        index.len() <= usize::MAX,
    ensures
        in_index_order(index).len() == index.len(),
        exists|order: Seq<usize>|
            is_stable_order(order_keys(index), false, order) && in_index_order(index) == arranged(
                index,
                order,
            ),
        forall|x: int, y: int|
            0 <= x < y < index.len() ==> (#[trigger] in_index_order(index)[x]).order <= (
            #[trigger] in_index_order(index)[y]).order,
        has_distinct_ids(index) ==> has_distinct_ids(in_index_order(index)),
{
    let keys = order_keys(index);
    lemma_stable_order_exists(keys, false);
    let order = choose|order: Seq<usize>| is_stable_order(keys, false, order);
    let sorted = in_index_order(index);
    assert(sorted == arranged(index, order));
    lemma_stable_order_is_unique(keys, false, order, order);
    assert forall|x: int, y: int| 0 <= x < y < index.len() implies (#[trigger] sorted[x]).order <= (
    #[trigger] sorted[y]).order by {
        assert(comes_before(keys, false, order[x] as int, order[y] as int));
    }
    if has_distinct_ids(index) {
        assert forall|a: int, b: int| 0 <= a < b < sorted.len() implies (#[trigger] sorted[a]).id
            != (#[trigger] sorted[b]).id by {
            assert(order[a] != order[b]);
            if order[a] < order[b] {
                assert(index[order[a] as int].id != index[order[b] as int].id);
            } else {
                assert(index[order[b] as int].id != index[order[a] as int].id);
            }
        }
    }
}

/// What [`lemma_reordered_listing`] says of two scenes, but for the orders
/// being the places.
proof fn lemma_listing_pair(
    index: Seq<SceneSummaryView>,
    ids: Seq<Seq<char>>,
    x: int,
    y: int,
)
    requires
        has_distinct_ids(index),
        index.len() + ids.len() <= i32::MAX,
        0 <= x < y < index.len(),
    ensures
        ({
            let sorted = in_index_order(index);
            let asked = asked_ids(sorted, ids, ids.len() as int);
            let listing = reordered(index, ids);
            &&& listing.len() == index.len()
            &&& listing[x].order < listing[y].order
            &&& 0 <= listing[x].order < index.len()
            &&& 0 <= listing[y].order < index.len()
            &&& exists|j: int|
                0 <= j < sorted.len() && listing[x] == with_order(
                    #[trigger] sorted[j],
                    listing[x].order as int,
                )
            &&& asked.contains(listing[y].id) ==> asked.contains(listing[x].id)
            &&& asked.contains(listing[x].id) ==> 0 <= listing[x].order < asked.len()
                && asked[listing[x].order as int] == listing[x].id
            &&& asked.contains(listing[y].id) ==> 0 <= listing[y].order < asked.len()
                && asked[listing[y].order as int] == listing[y].id
            &&& !asked.contains(listing[x].id) && !asked.contains(listing[y].id) ==> {
                &&& scene_position(sorted, listing[x].id) is Some
                &&& scene_position(sorted, listing[y].id) is Some
                &&& scene_position(sorted, listing[x].id)->Some_0 < scene_position(
                    sorted,
                    listing[y].id,
                )->Some_0
            }
        }),
{
    lemma_index_order(index);
    let sorted = in_index_order(index);
    let asked = asked_ids(sorted, ids, ids.len() as int);
    let renumbered = renumber_rest(
        renumber_listed(sorted, ids, ids.len() as int),
        sorted.len() as int,
    ).index;
    lemma_renumbering(sorted, ids);
    lemma_index_order(renumbered);
    let listing = reordered(index, ids);
    assert(listing == in_index_order(renumbered));
    let keys = order_keys(renumbered);
    let order = choose|order: Seq<usize>|
        is_stable_order(keys, false, order) && listing == arranged(renumbered, order);
    lemma_stable_order_is_unique(keys, false, order, order);
    let jx = order[x] as int;
    let jy = order[y] as int;
    assert(listing[x] == renumbered[jx]);
    assert(listing[y] == renumbered[jy]);
    assert(comes_before(keys, false, jx, jy));
    assert(jx != jy);
    if jx < jy {
        assert(renumbered[jx].order != renumbered[jy].order);
    } else {
        assert(renumbered[jy].order != renumbered[jx].order);
    }
    assert(renumbered[jx] == with_order(sorted[jx], renumbered[jx].order as int));
    assert(renumbered[jy] == with_order(sorted[jy], renumbered[jy].order as int));
    lemma_order_of_asked(sorted, ids, jx);
    lemma_order_of_asked(sorted, ids, jy);
    lemma_scene_position(sorted, listing[x].id, 0);
    lemma_scene_position(sorted, listing[y].id, 0);
    assert(scene_position(sorted, listing[x].id) == Some(jx)) by {
        let at = scene_position(sorted, listing[x].id)->Some_0;
        if at < jx {
            assert(sorted[at].id != sorted[jx].id);
        } else if jx < at {
            assert(sorted[jx].id != sorted[at].id);
        }
    }
    assert(scene_position(sorted, listing[y].id) == Some(jy)) by {
        let at = scene_position(sorted, listing[y].id)->Some_0;
        if at < jy {
            assert(sorted[at].id != sorted[jy].id);
        } else if jy < at {
            assert(sorted[jy].id != sorted[at].id);
        }
    }
    if !asked.contains(listing[x].id) && !asked.contains(listing[y].id) {
        if jy < jx {
            assert(renumbered[jy].order < renumbered[jx].order);
        }
    }
}

/// Orders that rise from each place to the next and stay below the number
/// of places are the places themselves.
proof fn lemma_rising_orders(orders: Seq<int>, k: int)
    requires
        forall|a: int, b: int| 0 <= a < b < orders.len() ==> orders[a] < orders[b],
        forall|a: int| 0 <= a < orders.len() ==> 0 <= #[trigger] orders[a] < orders.len(),
        0 <= k < orders.len(),
    ensures
        orders[k] == k,
{
    lemma_orders_not_below(orders, k);
    lemma_orders_not_above(orders, k);
}

proof fn lemma_orders_not_below(orders: Seq<int>, k: int)
    requires
        forall|a: int, b: int| 0 <= a < b < orders.len() ==> orders[a] < orders[b],
        forall|a: int| 0 <= a < orders.len() ==> 0 <= #[trigger] orders[a] < orders.len(),
        0 <= k < orders.len(),
    ensures
        orders[k] >= k,
    decreases k,
{
    if k > 0 {
        lemma_orders_not_below(orders, k - 1);
        assert(orders[k - 1] < orders[k]);
    }
}

proof fn lemma_orders_not_above(orders: Seq<int>, k: int)
    requires
        forall|a: int, b: int| 0 <= a < b < orders.len() ==> orders[a] < orders[b],
        forall|a: int| 0 <= a < orders.len() ==> 0 <= #[trigger] orders[a] < orders.len(),
        0 <= k < orders.len(),
    ensures
        orders[k] <= k,
    decreases orders.len() - k,
{
    if k < orders.len() - 1 {
        lemma_orders_not_above(orders, k + 1);
        assert(orders[k] < orders[k + 1]);
    }
}

/// How the scenes of an index stand once they were put in the order asked
/// for, where no two scenes share an id.
///
/// The listing holds the scenes of the index, changed in nothing but their
/// order, and the order of each scene is its place in the listing: 0 for the
/// first, 1 for the next, and so on. The scenes asked for, which are those
/// of [`asked_ids`], stand first, in the order in which they were asked for.
/// The other scenes follow, as they stood in the index in order.
pub proof fn lemma_reordered_listing(
    index: Seq<SceneSummaryView>,
    ids: Seq<Seq<char>>,
    x: int,
    y: int,
)
    requires
        has_distinct_ids(index),
        index.len() + ids.len() <= i32::MAX,
        0 <= x < y < index.len(),
    ensures
        ({
            let sorted = in_index_order(index);
            let asked = asked_ids(sorted, ids, ids.len() as int);
            let listing = reordered(index, ids);
            &&& listing.len() == index.len()
            &&& listing[x].order == x
            &&& listing[y].order == y
            &&& exists|j: int|
                0 <= j < sorted.len() && listing[x] == with_order(#[trigger] sorted[j], x)
            &&& asked.len() <= index.len()
            &&& asked.contains(listing[x].id) <==> x < asked.len()
            &&& asked.contains(listing[y].id) <==> y < asked.len()
            &&& x < asked.len() ==> asked[x] == listing[x].id
            &&& y < asked.len() ==> asked[y] == listing[y].id
            &&& asked.len() <= x ==> {
                &&& scene_position(sorted, listing[x].id) is Some
                &&& scene_position(sorted, listing[y].id) is Some
                &&& scene_position(sorted, listing[x].id)->Some_0 < scene_position(
                    sorted,
                    listing[y].id,
                )->Some_0
            }
        }),
{
    let sorted = in_index_order(index);
    let asked = asked_ids(sorted, ids, ids.len() as int);
    let listing = reordered(index, ids);
    let n = index.len() as int;
    lemma_listing_pair(index, ids, x, y);
    let orders = Seq::new(listing.len(), |k: int| listing[k].order as int);
    assert forall|a: int, b: int| 0 <= a < b < orders.len() implies orders[a] < orders[b] by {
        lemma_listing_pair(index, ids, a, b);
    }
    assert forall|a: int| 0 <= a < orders.len() implies 0 <= #[trigger] orders[a]
        < orders.len() by {
        if a > 0 {
            lemma_listing_pair(index, ids, 0, a);
        } else {
            lemma_listing_pair(index, ids, 0, 1);
        }
    }
    lemma_rising_orders(orders, x);
    lemma_rising_orders(orders, y);
    assert(orders[x] == listing[x].order);
    assert(orders[y] == listing[y].order);
    // The scenes asked for are those on the first places: each has the
    // order of its id among the ids asked for, and no other scene has an
    // order below their number.
    lemma_index_order(index);
    lemma_asked_are_counted(sorted, ids, ids.len() as int);
    lemma_listed_count_grows(sorted, asked, 0, n);
    lemma_place_is_asked(index, ids, x);
    lemma_place_is_asked(index, ids, y);
}

/// A scene of the listing is asked for just when it stands on one of the
/// first places, as many as ids are asked for.
proof fn lemma_place_is_asked(index: Seq<SceneSummaryView>, ids: Seq<Seq<char>>, x: int)
    requires
        has_distinct_ids(index),
        index.len() + ids.len() <= i32::MAX,
        0 <= x < index.len(),
        2 <= index.len(),
        reordered(index, ids).len() == index.len(),
        reordered(index, ids)[x].order == x,
    ensures
        ({
            let sorted = in_index_order(index);
            let asked = asked_ids(sorted, ids, ids.len() as int);
            asked.contains(reordered(index, ids)[x].id) <==> x < asked.len()
        }),
{
    let sorted = in_index_order(index);
    let asked = asked_ids(sorted, ids, ids.len() as int);
    let listing = reordered(index, ids);
    if x > 0 {
        lemma_listing_pair(index, ids, 0, x);
    } else {
        lemma_listing_pair(index, ids, 0, 1);
    }
    if !asked.contains(listing[x].id) {
        // The scene is one of the renumbered index that was not asked for,
        // and those have orders from the number of ids asked for on.
        lemma_index_order(index);
        lemma_renumbering(sorted, ids);
        let renumbered = renumber_rest(
            renumber_listed(sorted, ids, ids.len() as int),
            sorted.len() as int,
        ).index;
        lemma_index_order(renumbered);
        let keys = order_keys(renumbered);
        let order = choose|order: Seq<usize>|
            is_stable_order(keys, false, order) && listing == arranged(renumbered, order);
        let j = order[x] as int;
        assert(listing[x] == renumbered[j]);
        assert(renumbered[j] == with_order(sorted[j], renumbered[j].order as int));
        assert(!asked.contains(sorted[j].id));
    }
}

/// What is left of a text once the white space around it is gone starts
/// and ends with a character that is none, unless nothing is left.
pub proof fn lemma_trimmed_ends(s: Seq<char>)
    ensures
        trimmed(s).len() > 0 ==> !is_space(trimmed(s)[0]) && !is_space(trimmed(s).last()),
{
    lemma_trim_start_first(s);
    lemma_trim_end_last(trim_start_of(s));
}

proof fn lemma_trim_start_first(s: Seq<char>)
    ensures
        trim_start_of(s).len() > 0 ==> !is_space(trim_start_of(s)[0]),
    decreases s.len(),
{
    if s.len() > 0 && is_space(s[0]) {
        lemma_trim_start_first(s.drop_first());
    }
}

proof fn lemma_trim_end_last(s: Seq<char>)
    ensures
        trim_end_of(s).len() > 0 ==> !is_space(trim_end_of(s).last()) && trim_end_of(s)[0]
            == s[0],
        trim_end_of(s).len() <= s.len(),
    decreases s.len(),
{
    if s.len() > 0 && is_space(s.last()) {
        lemma_trim_end_last(s.drop_last());
    }
}

/// A text that starts and ends with a character that is no white space has
/// none around it.
pub proof fn lemma_trimmed_keeps(s: Seq<char>)
    requires
        s.len() > 0,
        !is_space(s[0]),
        !is_space(s.last()),
    ensures
        trimmed(s) == s,
        trim_end_of(s) == s,
{
}

/// What the length of the first line says: no character of the line is a
/// line feed, and the line ends at a line feed or at the end of the text.
pub proof fn lemma_first_line(s: Seq<char>)
    ensures
        0 <= line_len(s) <= s.len(),
        forall|j: int| 0 <= j < line_len(s) ==> #[trigger] s[j] != '\n',
        line_len(s) < s.len() ==> s[line_len(s) as int] == '\n',
    decreases s.len(),
{
    if s.len() > 0 && s[0] != '\n' {
        let rest = s.drop_first();
        lemma_first_line(rest);
        assert forall|j: int| 0 <= j < line_len(s) implies #[trigger] s[j] != '\n' by {
            if j > 0 {
                assert(s[j] == rest[j - 1]);
            }
        }
    }
}

/// The lines of a text whose first line is `head`: that line, without the
/// carriage return at its end, and then the lines of the rest.
pub proof fn lemma_lines_of_first(head: Seq<char>, rest: Seq<char>)
    requires
        !head.contains('\n'),
    ensures
        lines_of(head + seq!['\n'] + rest) == seq![strip_cr(head)] + lines_of(rest),
{
    let s = head + seq!['\n'] + rest;
    assert forall|j: int| 0 <= j < head.len() implies #[trigger] s[j] != '\n' by {
        assert(s[j] == head[j]);
        assert(head.contains(head[j]));
    }
    assert(s[head.len() as int] == '\n');
    lemma_line_len(s, head.len() as int);
    assert(s.take(head.len() as int) =~= head);
    assert(s.skip(head.len() as int + 1) =~= rest);
}

/// Joining a first part and more parts puts the separator behind the first.
pub proof fn lemma_join_first(first: Seq<char>, more: Seq<Seq<char>>, sep: Seq<char>)
    requires
        more.len() > 0,
    ensures
        join_texts(seq![first] + more, sep) == first + sep + join_texts(more, sep),
    decreases more.len(),
{
    let all = seq![first] + more;
    assert(all.last() == more.last());
    if more.len() == 1 {
        assert(all.drop_last() =~= seq![first]);
        assert(join_texts(seq![first], sep) == first);
        assert(join_texts(more, sep) == more[0]);
        assert(join_texts(all, sep) =~= first + sep + join_texts(more, sep));
    } else {
        assert(all.drop_last() =~= seq![first] + more.drop_last());
        lemma_join_first(first, more.drop_last(), sep);
        assert(join_texts(all, sep) =~= first + sep + join_texts(more, sep));
    }
}

/// A text without carriage returns is the lines of itself and a line feed,
/// joined by line feeds.
pub proof fn lemma_lines_join_back(text: Seq<char>)
    requires
        !text.contains('\r'),
    ensures
        lines_of(text + seq!['\n']).len() > 0,
        join_texts(lines_of(text + seq!['\n']), seq!['\n']) == text,
    decreases text.len(),
{
    let nl = seq!['\n'];
    lemma_first_line(text);
    let k = line_len(text) as int;
    let head = text.take(k);
    assert forall|j: int| 0 <= j < head.len() implies head[j] != '\n' by {
        assert(head[j] == text[j]);
    }
    assert(!head.contains('\n'));
    if head.len() > 0 && head.last() == '\r' {
        assert(text[k - 1] == '\r');
        assert(text.contains('\r'));
    }
    assert(strip_cr(head) == head);
    if k == text.len() {
        assert(head =~= text);
        lemma_lines_of_first(text, Seq::<char>::empty());
        assert(text + nl + Seq::<char>::empty() =~= text + nl);
        assert(lines_of(Seq::<char>::empty()) =~= Seq::<Seq<char>>::empty());
        assert(lines_of(text + nl) =~= seq![text]);
    } else {
        let rest = text.skip(k + 1);
        assert forall|j: int| 0 <= j < rest.len() implies rest[j] != '\r' by {
            assert(rest[j] == text[k + 1 + j]);
            assert(text.contains(text[k + 1 + j]));
        }
        assert(!rest.contains('\r'));
        lemma_lines_join_back(rest);
        lemma_lines_of_first(head, rest + nl);
        assert(head + nl + (rest + nl) =~= text + nl);
        lemma_join_first(head, lines_of(rest + nl), nl);
        assert(head + nl + rest =~= text);
    }
}

/// A scene file that the library writes, it reads back: title and duration
/// without the white space around them, and the description without the
/// white space around it. Title and duration must be there and stand on one
/// line each, and the description must hold no carriage return, which no
/// line keeps at its end.
pub proof fn lemma_scene_file_reads_back(
    title: Seq<char>,
    duration: Seq<char>,
    description: Seq<char>,
)
    requires
        trimmed(title).len() > 0,
        trimmed(duration).len() > 0,
        !trimmed(title).contains('\n'),
        !trimmed(duration).contains('\n'),
        !trim_end_of(description).contains('\r'),
    ensures
        parsed_scene(scene_markdown(title, duration, description)) == Ok::<
            (Seq<char>, Seq<char>, Seq<char>),
            Seq<char>,
        >((trimmed(title), trimmed(duration), trimmed(trim_end_of(description)))),
{
    reveal_strlit("# ");
    reveal_strlit("\n\nDuration: ");
    reveal_strlit("\n\n");
    reveal_strlit("\n");
    reveal_strlit("duration:");
    let t = trimmed(title);
    let d = trimmed(duration);
    let e = trim_end_of(description);
    let nl = seq!['\n'];
    let empty = Seq::<char>::empty();
    lemma_trimmed_ends(title);
    lemma_trimmed_ends(duration);
    let heading = seq!['#', ' '] + t;
    let length = seq!['D', 'u', 'r', 'a', 't', 'i', 'o', 'n', ':', ' '] + d;
    let text = scene_markdown(title, duration, description);
    let tail4 = e + nl;
    let tail3 = empty + nl + tail4;
    let tail2 = length + nl + tail3;
    let tail1 = empty + nl + tail2;
    assert(text =~= heading + nl + tail1);
    // The lines.
    assert(!heading.contains('\n')) by {
        if heading.contains('\n') {
            let j = choose|j: int| 0 <= j < heading.len() && heading[j] == '\n';
            assert(heading[j] == t[j - 2]);
            assert(t.contains(t[j - 2]));
        }
    }
    assert(!length.contains('\n')) by {
        if length.contains('\n') {
            let j = choose|j: int| 0 <= j < length.len() && length[j] == '\n';
            assert(length[j] == d[j - 10]);
            assert(d.contains(d[j - 10]));
        }
    }
    assert(!empty.contains('\n'));
    lemma_lines_of_first(heading, tail1);
    lemma_lines_of_first(empty, tail2);
    lemma_lines_of_first(length, tail3);
    lemma_lines_of_first(empty, tail4);
    lemma_lines_join_back(e);
    assert(heading.last() == t.last());
    assert(length.last() == d.last());
    assert(strip_cr(heading) == heading);
    assert(strip_cr(length) == length);
    assert(strip_cr(empty) == empty);
    let body = lines_of(tail4);
    let lines = lines_of(text);
    assert(lines =~= seq![heading, empty, length, empty] + body);
    assert(lines[0] == heading);
    assert(lines[1] == empty);
    assert(lines[2] == length);
    // The heading gives the title.
    lemma_trimmed_keeps(heading);
    assert(is_heading(heading));
    let spaced_title = seq![' '] + t;
    assert(heading.drop_first() =~= spaced_title);
    assert(strip_hashes(spaced_title) == spaced_title);
    assert(strip_hashes(heading) == spaced_title);
    assert(spaced_title.drop_first() =~= t);
    assert(trim_start_of(spaced_title) == trim_start_of(t));
    lemma_trimmed_keeps(t);
    assert(heading_text(heading) == t);
    // The empty line is passed over, and the next gives the duration.
    assert(trimmed(empty).len() == 0);
    lemma_trimmed_keeps(length);
    let lowered = length.take(9).map_values(|c: char| ascii_lower(c));
    assert(lowered =~= "duration:"@) by {
        assert(ascii_lower('D') == 'd');
        assert(lowered[0] == ascii_lower(length[0]));
        assert(lowered[1] == ascii_lower(length[1]));
        assert(lowered[2] == ascii_lower(length[2]));
        assert(lowered[3] == ascii_lower(length[3]));
        assert(lowered[4] == ascii_lower(length[4]));
        assert(lowered[5] == ascii_lower(length[5]));
        assert(lowered[6] == ascii_lower(length[6]));
        assert(lowered[7] == ascii_lower(length[7]));
        assert(lowered[8] == ascii_lower(length[8]));
    }
    assert(is_duration_line(length));
    let spaced_duration = seq![' '] + d;
    assert(length.skip(9) =~= spaced_duration);
    assert(spaced_duration.drop_first() =~= d);
    assert(trim_start_of(spaced_duration) == trim_start_of(d));
    lemma_trimmed_keeps(d);
    assert(duration_value(length) == d);
    assert(scene_head(lines, 2, Some(t)) == Ok::<(Seq<char>, Seq<char>, int), Seq<char>>(
        (t, d, 2),
    ));
    assert(scene_head(lines, 1, Some(t)) == scene_head(lines, 2, Some(t)));
    assert(scene_head(lines, 0, None) == scene_head(lines, 1, Some(t)));
    // What follows is the description behind an empty line.
    assert(lines.skip(3) =~= seq![empty] + body);
    lemma_join_first(empty, body, nl);
    assert(join_texts(lines.skip(3), nl) =~= nl + e);
    assert((nl + e).drop_first() =~= e);
    assert(trim_start_of(nl + e) == trim_start_of(e));
    assert("\n"@ =~= nl);
}

} // verus!
