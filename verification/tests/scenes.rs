use sixsevenstudio::projects::filesystem::{
    current_timestamp, default_project_meta, is_project_directory, sanitize_project_name,
};
use sixsevenstudio::projects::scenes::{
    build_details_from_disk, create_scene_markdown, ensure_summary_for_scene, find_scene,
    greatest_order, index_after_delete, index_after_write, list_scenes, parse_scene_markdown,
    read_scene, reorder_scenes, scene_reference_image_name, sort_scene_index, split_lines,
    to_ascii_lower, validate_duration, write_scene, SceneDirectory, SceneFile,
};
use sixsevenstudio::projects::types::{SceneDetails, SceneSummary};
use sixsevenstudio::sorting::stable_order;
use sixsevenstudio::text::{is_whitespace, same_text, to_chars, trim, trim_end};

fn summary(id: &str, order: i32) -> SceneSummary {
    SceneSummary {
        id: id.to_string(),
        title: format!("Title {}", id),
        duration: "4s".to_string(),
        has_reference_image: false,
        order,
    }
}

fn ids(index: &[SceneSummary]) -> Vec<(String, i32)> {
    index.iter().map(|s| (s.id.clone(), s.order)).collect()
}

fn pairs(items: &[(&str, i32)]) -> Vec<(String, i32)> {
    items.iter().map(|(id, order)| (id.to_string(), *order)).collect()
}

fn parsed(title: &str, duration: &str, description: &str) -> Result<(String, String, String), String> {
    Ok((title.to_string(), duration.to_string(), description.to_string()))
}

const SAMPLES: [&str; 16] = [
    "",
    " ",
    "a",
    "  a  ",
    "\t\n a b \r\n",
    "\u{a0}x\u{3000}",
    "\u{2028}\u{2029}\u{85}",
    "\u{200b}zero width\u{200b}",
    "line1\nline2",
    "line1\r\nline2\r\n",
    "line1\n\nline3\n",
    "\n",
    "\r\n\r\n",
    "bare\rreturn\r",
    "ends with cr lf\r\n",
    "a\r\r\nb\n\r",
];

#[test]
fn trimming_agrees_with_the_standard_library() {
    for sample in SAMPLES {
        assert_eq!(trim(sample), sample.trim(), "trim of {:?}", sample);
        assert_eq!(trim_end(sample), sample.trim_end(), "trim_end of {:?}", sample);
    }
}

#[test]
fn white_space_agrees_with_the_standard_library() {
    for code in 0u32..0x3100 {
        if let Some(c) = char::from_u32(code) {
            assert_eq!(is_whitespace(c), c.is_whitespace(), "U+{:04X}", code);
            assert_eq!(to_ascii_lower(c), c.to_ascii_lowercase(), "U+{:04X}", code);
        }
    }
    assert!(!is_whitespace('\u{feff}'));
    assert!(!is_whitespace('\u{10ffff}'));
}

#[test]
fn lines_agree_with_the_standard_library() {
    for sample in SAMPLES {
        let chars = to_chars(sample);
        let lines: Vec<String> = split_lines(&chars)
            .into_iter()
            .map(|(from, to)| chars[from..to].iter().collect())
            .collect();
        let expected: Vec<String> = sample.lines().map(|l| l.to_string()).collect();
        assert_eq!(lines, expected, "lines of {:?}", sample);
    }
}

#[test]
fn texts_are_compared_by_their_characters() {
    assert!(same_text("index.json", "index.json"));
    assert!(!same_text("index.json", "index.jso"));
    assert!(!same_text("a", "b"));
    assert!(same_text("", ""));
}

#[test]
fn project_names_are_trimmed() {
    assert_eq!(sanitize_project_name("  My Film \n"), Ok("My Film".to_string()));
    assert_eq!(sanitize_project_name("demo"), Ok("demo".to_string()));
    assert_eq!(sanitize_project_name("a.b"), Ok("a.b".to_string()));
    assert_eq!(sanitize_project_name("."), Ok(".".to_string()));
}

#[test]
fn empty_project_names_are_refused() {
    assert_eq!(sanitize_project_name(""), Err("Project name cannot be empty".to_string()));
    assert_eq!(sanitize_project_name(" \t\n"), Err("Project name cannot be empty".to_string()));
}

#[test]
fn project_names_that_leave_the_workspace_are_refused() {
    for name in ["a/b", "/etc", "a\\b", "..", "../x", "a..b", " x/ ", "trailing/"] {
        assert_eq!(sanitize_project_name(name), Err("Invalid project name".to_string()), "{:?}", name);
    }
}

#[test]
fn timestamps_come_from_the_clock() {
    assert_eq!(current_timestamp(None), 0);
    assert_eq!(current_timestamp(Some(0)), 0);
    assert_eq!(current_timestamp(Some(1_700_000_000)), 1_700_000_000);
    assert_eq!(current_timestamp(Some(i64::MAX as u64)), i64::MAX);
    assert_eq!(current_timestamp(Some(i64::MAX as u64 + 1)), i64::MIN);
    assert_eq!(current_timestamp(Some(u64::MAX)), -1);
}

#[test]
fn project_without_metadata() {
    let meta = default_project_meta("/ws/demo", 42);
    assert!(meta.videos.is_empty());
    assert_eq!(meta.path, "/ws/demo");
    assert_eq!(meta.created_at, 42);
    assert_eq!(meta.storyboard_response_id, None);
}

#[test]
fn hidden_entries_and_files_are_no_projects() {
    assert!(is_project_directory("demo", true));
    assert!(!is_project_directory("demo", false));
    assert!(!is_project_directory(".git", true));
    assert!(!is_project_directory("", true));
}

#[test]
fn reference_image_name() {
    assert_eq!(scene_reference_image_name("s1"), "scene_s1_reference.jpg");
    assert_eq!(scene_reference_image_name(""), "scene__reference.jpg");
}

#[test]
fn scene_file_text() {
    assert_eq!(
        create_scene_markdown("  Opening ", " 8s\n", "A street at night.\n\n"),
        "# Opening\n\nDuration: 8s\n\nA street at night.\n"
    );
    assert_eq!(create_scene_markdown("", "", "  indented"), "# \n\nDuration: \n\n  indented\n");
}

#[test]
fn scene_lengths() {
    assert_eq!(validate_duration("4s"), Ok(()));
    assert_eq!(validate_duration("8s"), Ok(()));
    assert_eq!(validate_duration("12s"), Ok(()));
    assert_eq!(
        validate_duration("5s"),
        Err("Invalid duration '5s': must be 4s, 8s, or 12s".to_string())
    );
    assert_eq!(validate_duration(""), Err("Invalid duration '': must be 4s, 8s, or 12s".to_string()));
    assert_eq!(
        validate_duration(" 4s"),
        Err("Invalid duration ' 4s': must be 4s, 8s, or 12s".to_string())
    );
}

#[test]
fn scene_file_is_read_back() {
    let text = create_scene_markdown("Opening", "8s", "A street at night.\nRain.");
    assert_eq!(parse_scene_markdown(&text), parsed("Opening", "8s", "A street at night.\nRain."));
    let samples = [
        ("  # Title with a hash ", " 12s ", "\n\n  indented\n\nlast line  \n\n"),
        ("T", "4s", ""),
        ("Duration: 8s", "duration: 4s", "# heading\nDuration: 12s"),
        ("\u{a0}wide\u{3000}", "8s\t", " \t"),
    ];
    for (title, duration, description) in samples {
        let text = create_scene_markdown(title, duration, description);
        assert_eq!(
            parse_scene_markdown(&text),
            parsed(title.trim(), duration.trim(), description.trim()),
            "{:?}",
            text
        );
    }
}

#[test]
fn scene_file_with_loose_layout() {
    let text = "\n\n  ## The Title ##  \nsome note\n#ignored heading\n  DURATION:  12s  \n\n  first\r\nsecond  \n\n";
    assert_eq!(parse_scene_markdown(text), parsed("The Title ##", "12s", "first\nsecond"));
    assert_eq!(parse_scene_markdown("#T\nduration:4s:x"), parsed("T", "4s:x", ""));
    assert_eq!(
        parse_scene_markdown("# T\nDuration: 8s\n# not a title\nDuration: 4s"),
        parsed("T", "8s", "# not a title\nDuration: 4s")
    );
}

#[test]
fn scene_file_failures() {
    let missing_title = Err("Scene file missing title".to_string());
    let missing_duration = Err("Scene file missing duration".to_string());
    assert_eq!(parse_scene_markdown(""), missing_title);
    assert_eq!(parse_scene_markdown("no heading here"), missing_title);
    assert_eq!(parse_scene_markdown("#\nDuration: 4s"), missing_title);
    assert_eq!(parse_scene_markdown("##  \nDuration: 4s"), missing_title);
    assert_eq!(parse_scene_markdown("Duration: 4s\n# Late title"), missing_title);
    assert_eq!(parse_scene_markdown("# T"), missing_duration);
    assert_eq!(parse_scene_markdown("# T\nDuration:"), missing_duration);
    assert_eq!(parse_scene_markdown("# T\nDuration:   \nDuration: 4s"), missing_duration);
    assert_eq!(parse_scene_markdown("Duration:\n# T"), missing_duration);
    assert_eq!(parse_scene_markdown("# T\nDuration 4s"), missing_duration);
}

#[test]
fn scene_details_from_disk() {
    let text = SceneFile::Text("# Opening\n\nDuration: 8s\n\nNight.\n".to_string());
    assert_eq!(
        build_details_from_disk("s1", &text, true).map(|d| {
            (d.id, d.title, d.duration, d.description, d.has_reference_image, d.order)
        }),
        Ok(("s1".to_string(), "Opening".to_string(), "8s".to_string(), "Night.".to_string(), true, 0))
    );
    assert_eq!(
        build_details_from_disk("s1", &SceneFile::Missing, false).err(),
        Some("Scene 's1' does not exist".to_string())
    );
    assert_eq!(
        build_details_from_disk("s1", &SceneFile::Unreadable("denied".to_string()), false).err(),
        Some("Failed to read scene: denied".to_string())
    );
    assert_eq!(
        build_details_from_disk("s1", &SceneFile::Text("# T\nDuration: 5s".to_string()), false).err(),
        Some("Invalid duration '5s': must be 4s, 8s, or 12s".to_string())
    );
    assert_eq!(
        build_details_from_disk("s1", &SceneFile::Text("nothing".to_string()), false).err(),
        Some("Scene file missing title".to_string())
    );
}

#[test]
fn reading_a_scene_takes_order_and_image_from_the_index() {
    let file = SceneFile::Text("# Opening\nDuration: 8s\nNight.".to_string());
    let mut listed = summary("s1", 7);
    listed.has_reference_image = true;
    let index = vec![summary("s0", 9), listed];
    let details = read_scene("s1", &file, false, Ok(index)).unwrap();
    assert_eq!(details.order, 7);
    assert!(details.has_reference_image);
    assert_eq!(details.title, "Opening");
    let unlisted = read_scene("s1", &file, true, Ok(vec![summary("s0", 9)])).unwrap();
    assert_eq!(unlisted.order, 0);
    assert!(unlisted.has_reference_image);
}

#[test]
fn reading_a_scene_reports_the_first_failure() {
    let file = SceneFile::Text("# Opening\nDuration: 8s\nNight.".to_string());
    assert_eq!(
        read_scene("../s1", &SceneFile::Missing, false, Err("index broken".to_string())).err(),
        Some("Invalid project name".to_string())
    );
    assert_eq!(
        read_scene("s1", &SceneFile::Missing, false, Err("index broken".to_string())).err(),
        Some("Scene 's1' does not exist".to_string())
    );
    assert_eq!(
        read_scene("s1", &file, false, Err("Failed to parse scene index: eof".to_string())).err(),
        Some("Failed to parse scene index: eof".to_string())
    );
}

#[test]
fn of_two_entries_with_one_id_the_first_by_order_counts() {
    let file = SceneFile::Text("# Opening\nDuration: 8s".to_string());
    let index = vec![summary("s1", 5), summary("s1", 2)];
    assert_eq!(read_scene("s1", &file, false, Ok(index)).unwrap().order, 2);
}

#[test]
fn stable_order_of_keys() {
    assert_eq!(stable_order(&vec![], false), Vec::<usize>::new());
    assert_eq!(stable_order(&vec![3, 1, 2], false), vec![1, 2, 0]);
    assert_eq!(stable_order(&vec![3, 1, 2], true), vec![0, 2, 1]);
    assert_eq!(stable_order(&vec![2, 1, 2, 1, 2], false), vec![1, 3, 0, 2, 4]);
    assert_eq!(stable_order(&vec![2, 1, 2, 1, 2], true), vec![0, 2, 4, 1, 3]);
    assert_eq!(stable_order(&vec![i64::MIN, i64::MAX, 0], false), vec![0, 2, 1]);
    let keys: Vec<i64> = (0..200).map(|i| (i * 7919) % 13).collect();
    let mut expected: Vec<usize> = (0..keys.len()).collect();
    expected.sort_by(|a, b| keys[*a].cmp(&keys[*b]));
    assert_eq!(stable_order(&keys, false), expected);
    let mut expected: Vec<usize> = (0..keys.len()).collect();
    expected.sort_by(|a, b| keys[*b].cmp(&keys[*a]));
    assert_eq!(stable_order(&keys, true), expected);
}

#[test]
fn index_is_put_in_order() {
    let index = vec![summary("c", 2), summary("a", 0), summary("d", 2), summary("b", 1)];
    assert_eq!(ids(&sort_scene_index(index)), pairs(&[("a", 0), ("b", 1), ("c", 2), ("d", 2)]));
    assert_eq!(greatest_order(&vec![]), 0);
    assert_eq!(greatest_order(&vec![summary("a", -3), summary("b", -7)]), -3);
    assert_eq!(greatest_order(&vec![summary("a", 3), summary("b", 7), summary("c", 5)]), 7);
}

#[test]
fn summaries_are_replaced_or_appended() {
    let mut index = vec![summary("a", 0), summary("b", 1), summary("a", 2)];
    let details = SceneDetails {
        id: "a".to_string(),
        title: "New".to_string(),
        duration: "12s".to_string(),
        description: "ignored".to_string(),
        has_reference_image: true,
        order: 9,
    };
    ensure_summary_for_scene(&mut index, &details);
    assert_eq!(ids(&index), pairs(&[("a", 9), ("b", 1), ("a", 2)]));
    assert_eq!(index[0].title, "New");
    assert_eq!(index[0].duration, "12s");
    assert!(index[0].has_reference_image);
    let other = SceneDetails { id: "z".to_string(), order: -1, ..details };
    ensure_summary_for_scene(&mut index, &other);
    assert_eq!(ids(&index), pairs(&[("a", 9), ("b", 1), ("a", 2), ("z", -1)]));
    assert_eq!(find_scene(&index, "a"), Some(0));
    assert_eq!(find_scene(&index, "z"), Some(3));
    assert_eq!(find_scene(&index, "q"), None);
}

fn directory(name: &str, is_dir: bool, file: SceneFile) -> SceneDirectory {
    SceneDirectory { name: name.to_string(), is_dir, file, has_reference_image: false }
}

#[test]
fn scenes_on_disk_are_appended_to_the_listing() {
    let good = SceneFile::Text("# Found\nDuration: 4s\n".to_string());
    let found = vec![
        directory("b", true, good.clone()),
        directory("notes.txt", false, good.clone()),
        directory("index.json", true, good.clone()),
        directory("new1", true, good.clone()),
        directory("broken", true, SceneFile::Text("nothing".to_string())),
        directory("empty", true, SceneFile::Missing),
        directory("new2", true, good.clone()),
        directory("new1", true, good),
    ];
    let index = vec![summary("b", 5), summary("a", 1)];
    let listing = list_scenes(index, &found);
    assert_eq!(ids(&listing), pairs(&[("a", 1), ("b", 5), ("new1", 6), ("new2", 7)]));
    assert_eq!(listing[2].title, "Found");
    assert_eq!(ids(&list_scenes(vec![], &found[3..4].to_vec())), pairs(&[("new1", 1)]));
    assert_eq!(ids(&list_scenes(vec![summary("x", -5)], &found[3..4].to_vec())), pairs(&[("x", -5), ("new1", -4)]));
}

#[test]
fn written_scene_is_checked_first() {
    assert_eq!(
        write_scene("s1", " Title ", "Text\n", "8s"),
        Ok("# Title\n\nDuration: 8s\n\nText\n".to_string())
    );
    assert_eq!(write_scene("a/b", "T", "D", "5s"), Err("Invalid project name".to_string()));
    assert_eq!(write_scene(" ", "T", "D", "8s"), Err("Project name cannot be empty".to_string()));
    assert_eq!(
        write_scene("s1", "T", "D", "5s"),
        Err("Invalid duration '5s': must be 4s, 8s, or 12s".to_string())
    );
}

#[test]
fn written_scene_enters_the_index() {
    let index = vec![summary("b", 5), summary("a", 1)];
    let appended = index_after_write(index.clone(), "c", "C", "4s", true, None);
    assert_eq!(ids(&appended), pairs(&[("a", 1), ("b", 5), ("c", 6)]));
    assert!(appended[2].has_reference_image);
    let placed = index_after_write(index.clone(), "c", "C", "4s", false, Some(3));
    assert_eq!(ids(&placed), pairs(&[("a", 1), ("c", 3), ("b", 5)]));
    let replaced = index_after_write(index.clone(), "a", "A2", "12s", false, Some(9));
    assert_eq!(ids(&replaced), pairs(&[("b", 5), ("a", 9)]));
    assert_eq!(replaced[1].title, "A2");
    let moved_behind = index_after_write(index, "a", "A2", "12s", false, None);
    assert_eq!(ids(&moved_behind), pairs(&[("b", 5), ("a", 6)]));
    let first = index_after_write(vec![], "a", "A", "4s", false, None);
    assert_eq!(ids(&first), pairs(&[("a", 0)]));
}

#[test]
fn deleted_scene_leaves_the_index() {
    let index = vec![summary("c", 2), summary("a", 0), summary("c", 1), summary("b", 1)];
    assert_eq!(ids(&index_after_delete(index.clone(), "c")), pairs(&[("a", 0), ("b", 1)]));
    assert_eq!(
        ids(&index_after_delete(index, "zz")),
        pairs(&[("a", 0), ("c", 1), ("b", 1), ("c", 2)])
    );
    assert!(index_after_delete(vec![], "a").is_empty());
}

#[test]
fn scenes_are_put_in_the_order_asked_for() {
    let index = vec![summary("a", 0), summary("b", 1), summary("c", 2), summary("d", 3)];
    let asked: Vec<String> = ["c", "a", "zz", "c"].iter().map(|s| s.to_string()).collect();
    let reordered = reorder_scenes(index.clone(), &asked).unwrap();
    assert_eq!(ids(&reordered), pairs(&[("c", 0), ("a", 1), ("b", 2), ("d", 3)]));
    let unchanged = reorder_scenes(index.clone(), &[]).unwrap();
    assert_eq!(ids(&unchanged), pairs(&[("a", 0), ("b", 1), ("c", 2), ("d", 3)]));
    let reversed: Vec<String> = ["d", "c", "b", "a"].iter().map(|s| s.to_string()).collect();
    assert_eq!(
        ids(&reorder_scenes(index, &reversed).unwrap()),
        pairs(&[("d", 0), ("c", 1), ("b", 2), ("a", 3)])
    );
    assert_eq!(reorder_scenes(vec![], &asked), None);
}

#[test]
fn reordering_numbers_scenes_from_zero() {
    let index = vec![summary("x", 40), summary("y", -3), summary("z", 40)];
    let asked = vec!["z".to_string()];
    assert_eq!(
        ids(&reorder_scenes(index, &asked).unwrap()),
        pairs(&[("z", 0), ("y", 1), ("x", 2)])
    );
}
