use sixsevenstudio::image::{
    can_encode, decode_failure_message, get_image_mime_type, get_image_path, needs_resize,
    read_image_as_data_url, save_image, DecodeFailure,
};
use sixsevenstudio::json::Json;
use sixsevenstudio::projects::paths::ProjectPaths;
use sixsevenstudio::text::{ends_with, holds_text, starts_with};
use sixsevenstudio::video_editor::imports::{
    copy_failure, delete_imported_video, deletion_outcome, export_failure, export_video,
    import_video, import_video_as, imported_display_name, imported_video_id,
    list_imported_videos, new_imported_video_id, videos_dir_failure, ImportedVideo, VideoFile,
};
use sixsevenstudio::video_editor::probe::{build_probe_args, get_video_duration, parse_seconds};

fn object(members: Vec<(&str, Json)>) -> Json {
    Json::Object(members.into_iter().map(|(k, v)| (k.to_string(), v)).collect())
}

fn text(s: &str) -> Json {
    Json::String(s.to_string())
}

#[test]
fn kinds_of_images_by_extension() {
    assert_eq!(get_image_mime_type("a.png"), "image/png");
    assert_eq!(get_image_mime_type("/x/y/a.PNG"), "image/png");
    assert_eq!(get_image_mime_type("a.jpg"), "image/jpeg");
    assert_eq!(get_image_mime_type("a.JpEg"), "image/jpeg");
    assert_eq!(get_image_mime_type("a.gif"), "image/gif");
    assert_eq!(get_image_mime_type("a.webp"), "image/webp");
    assert_eq!(get_image_mime_type("a.tar.WEBP"), "image/webp");
    assert_eq!(get_image_mime_type("a.bmp"), "image/png");
    assert_eq!(get_image_mime_type("noextension"), "image/png");
    assert_eq!(get_image_mime_type(".gif"), "image/png");
    assert_eq!(get_image_mime_type("dir.gif/file"), "image/png");
    assert_eq!(get_image_mime_type("dir/.."), "image/png");
    assert_eq!(get_image_mime_type("a.gif."), "image/png");
    assert_eq!(get_image_mime_type(""), "image/png");
}

#[test]
fn kinds_of_images_agree_with_path_extensions() {
    for path in ["a.png", "b/c.d.JPG", ".hidden", "..", "x/..", "a.", "a..gif", "/", "", "a/b.c/d"] {
        let ext = std::path::Path::new(path).extension().and_then(|e| e.to_str()).map(|e| e.to_lowercase());
        let expected = match ext.as_deref() {
            Some("png") => "image/png",
            Some("jpg") | Some("jpeg") => "image/jpeg",
            Some("gif") => "image/gif",
            Some("webp") => "image/webp",
            _ => "image/png",
        };
        assert_eq!(get_image_mime_type(path), expected, "{:?}", path);
    }
}

#[test]
fn image_as_data_url() {
    assert_eq!(
        read_image_as_data_url("pic.jpg", Ok(b"hello".to_vec())),
        Ok("data:image/jpeg;base64,aGVsbG8=".to_string())
    );
    assert_eq!(
        read_image_as_data_url("pic", Ok(vec![])),
        Ok("data:image/png;base64,".to_string())
    );
    assert_eq!(
        read_image_as_data_url("pic.webp", Ok(vec![0xfb, 0xff, 0xfe])),
        Ok("data:image/webp;base64,+//+".to_string())
    );
    assert_eq!(
        read_image_as_data_url("pic.png", Err("No such file".to_string())),
        Err("Failed to read image file: No such file".to_string())
    );
    assert!(can_encode(0));
    assert!(can_encode(1 << 20));
    assert!(!can_encode(usize::MAX));
}

#[test]
fn image_is_saved_from_base64() {
    let saved = save_image(Ok(ProjectPaths::new("/p")), "shot.png", "aGVsbG8=").unwrap();
    assert_eq!(saved.dir, "/p/images");
    assert_eq!(saved.path, "/p/images/shot.png");
    assert_eq!(saved.bytes, b"hello".to_vec());
}

#[test]
fn image_data_that_is_no_base64_is_refused() {
    let refused = |data: &str| save_image(Ok(ProjectPaths::new("/p")), "x.png", data).err().unwrap();
    assert_eq!(refused("aGVsbG8"), "Failed to decode base64 image: Invalid padding");
    assert_eq!(refused("a*b="), "Failed to decode base64 image: Invalid symbol 42, offset 1.");
    assert_eq!(refused("a"), "Failed to decode base64 image: Invalid input length: 1");
    assert_eq!(refused("aGVsbG9="), "Failed to decode base64 image: Invalid last symbol 57, offset 6.");
    assert_eq!(
        save_image(Err("Project 'x' does not exist".to_string()), "x.png", "***").err().unwrap(),
        "Project 'x' does not exist"
    );
}

#[test]
fn decoding_failures_in_words() {
    assert_eq!(decode_failure_message(DecodeFailure::InvalidByte(3, 61)), "Invalid symbol 61, offset 3.");
    assert_eq!(decode_failure_message(DecodeFailure::InvalidLength(5)), "Invalid input length: 5");
    assert_eq!(
        decode_failure_message(DecodeFailure::InvalidLastSymbol(0, 255)),
        "Invalid last symbol 255, offset 0."
    );
    assert_eq!(decode_failure_message(DecodeFailure::InvalidPadding), "Invalid padding");
}

#[test]
fn image_path_only_if_the_image_is_there() {
    assert_eq!(get_image_path("/p", "a.jpg", true), Ok(Some("/p/images/a.jpg".to_string())));
    assert_eq!(get_image_path("/p", "a.jpg", false), Ok(None));
}

#[test]
fn resizing_only_where_the_size_differs() {
    assert!(!needs_resize((1280, 720), (1280, 720)));
    assert!(needs_resize((1280, 720), (1280, 721)));
    assert!(needs_resize((1279, 720), (1280, 720)));
}

#[test]
fn json_lookups() {
    let value = object(vec![
        ("a", text("x")),
        ("b", Json::Array(vec![Json::Null, Json::Bool(true)])),
        ("a", text("second")),
    ]);
    assert_eq!(value.get("a"), Some(&text("x")));
    assert_eq!(value.get("b").and_then(|b| b.as_array()).map(|v| v.len()), Some(2));
    assert_eq!(value.get("c"), None);
    assert_eq!(text("x").get("a"), None);
    assert_eq!(text("x").as_str(), Some("x"));
    assert_eq!(Json::Number("1".to_string()).as_str(), None);
    assert_eq!(Json::Null.as_array(), None);
}

#[test]
fn seconds_are_read_as_decimal_numbers() {
    assert_eq!(parse_seconds("12.345000"), Some(12_345_000));
    assert_eq!(parse_seconds("0"), Some(0));
    assert_eq!(parse_seconds("5"), Some(5_000_000));
    assert_eq!(parse_seconds("5."), Some(5_000_000));
    assert_eq!(parse_seconds(".5"), Some(500_000));
    assert_eq!(parse_seconds("+1.25"), Some(1_250_000));
    assert_eq!(parse_seconds("-1.25"), Some(-1_250_000));
    assert_eq!(parse_seconds("-0"), Some(0));
    assert_eq!(parse_seconds("0.0000019"), Some(1));
    assert_eq!(parse_seconds("0.1234567"), Some(123_456));
    assert_eq!(parse_seconds("007.5"), Some(7_500_000));
    assert_eq!(parse_seconds("9223372036854.775807"), Some(i64::MAX));
    assert_eq!(parse_seconds("-9223372036854.775808"), Some(i64::MIN));
}

#[test]
fn what_is_no_decimal_number_is_no_time() {
    for s in ["", "+", "-", ".", "-.", "1e3", "N/A", "1.2.3", "1,5", " 1", "1 ", "--1", "inf", "٣"] {
        assert_eq!(parse_seconds(s), None, "{:?}", s);
    }
    assert_eq!(parse_seconds("9223372036854.775808"), None);
    assert_eq!(parse_seconds("-9223372036854.775809"), None);
    assert_eq!(parse_seconds("9300000000001"), None);
    assert_eq!(parse_seconds("100000000000000000000000000000000000000000000"), None);
    assert_eq!(parse_seconds("100000000000000000000000000000000000000000000x"), None);
}

#[test]
fn duration_from_the_probe() {
    let printed = Ok(object(vec![(
        "format",
        object(vec![("filename", text("a.mp4")), ("duration", text("8.040000"))]),
    )]));
    assert_eq!(get_video_duration(true, "", &printed), Ok(8_040_000));
    assert_eq!(
        get_video_duration(false, "a.mp4: No such file", &printed),
        Err("FFprobe failed: a.mp4: No such file".to_string())
    );
    assert_eq!(
        get_video_duration(true, "", &Err("expected value at line 1 column 1".to_string())),
        Err("Failed to parse ffprobe JSON output: expected value at line 1 column 1".to_string())
    );
    let not_found = Err("Duration not found in ffprobe output".to_string());
    assert_eq!(get_video_duration(true, "", &Ok(object(vec![]))), not_found);
    assert_eq!(get_video_duration(true, "", &Ok(object(vec![("format", object(vec![]))]))), not_found);
    assert_eq!(
        get_video_duration(
            true,
            "",
            &Ok(object(vec![("format", object(vec![("duration", Json::Number("8.04".to_string()))]))]))
        ),
        not_found
    );
    assert_eq!(get_video_duration(true, "", &Ok(Json::Array(vec![]))), not_found);
    let bad = |s: &str| Ok(object(vec![("format", object(vec![("duration", text(s))]))]));
    assert_eq!(
        get_video_duration(true, "", &bad("N/A")),
        Err("Failed to parse duration 'N/A': invalid float literal".to_string())
    );
    assert_eq!(
        get_video_duration(true, "", &bad("")),
        Err("Failed to parse duration '': cannot parse float from empty string".to_string())
    );
    assert_eq!(
        build_probe_args("/v/a.mp4"),
        vec!["-v", "quiet", "-print_format", "json", "-show_format", "/v/a.mp4"]
    );
}

#[test]
fn ids_of_imported_videos() {
    assert_eq!(
        imported_video_id("67e55044-10b1-426f-9247-bb680e5fe0c8"),
        "imported_67e5504410b1426f9247bb680e5fe0c8"
    );
    assert_eq!(imported_video_id(""), "imported_");
    assert_eq!(imported_video_id("---"), "imported_");
    assert_eq!(imported_video_id("-a--b-"), "imported_ab");
    let one = new_imported_video_id();
    let two = new_imported_video_id();
    assert_ne!(one, two);
    for id in [one, two] {
        assert!(starts_with(&id, "imported_"));
        assert_eq!(id.len(), 9 + 32);
        assert!(id[9..].chars().all(|c| c.is_ascii_hexdigit() && !c.is_ascii_uppercase()));
    }
}

#[test]
fn names_of_imported_videos() {
    assert_eq!(imported_display_name("/home/u/clip.mp4"), "clip");
    assert_eq!(imported_display_name("/home/u/my.holiday.clip.mp4"), "clip");
    assert_eq!(imported_display_name("clip"), "clip");
    assert_eq!(imported_display_name("/home/u/.hidden"), "");
    assert_eq!(imported_display_name("/home/u/"), "Imported Video");
    assert_eq!(imported_display_name(""), "Imported Video");
    assert_eq!(imported_display_name("/home/u/.."), "Imported Video");
    assert_eq!(imported_display_name("a.b/c"), "c");
    for name in ["clip.mp4", "a.b.c", "noext", ".x", "x.", "a..b"] {
        let expected = name.rsplit('.').nth(1).unwrap_or(name);
        assert_eq!(imported_display_name(name), expected, "{:?}", name);
    }
}

#[test]
fn import_of_a_video() {
    let import = import_video_as(
        "imported_abc".to_string(),
        true,
        true,
        Some("/downloads/holiday.mp4"),
        Ok(8_040_000),
        Ok(ProjectPaths::new("/p")),
        1_700_000_000,
    )
    .unwrap();
    assert_eq!(import.videos_dir, "/p/videos");
    assert_eq!(import.source, "/downloads/holiday.mp4");
    assert_eq!(import.destination, "/p/videos/imported_abc");
    assert_eq!(
        import.video,
        ImportedVideo {
            id: "imported_abc".to_string(),
            name: "holiday".to_string(),
            video_path: "/p/videos/imported_abc".to_string(),
            original_duration: 8_040_000,
            created_at: 1_700_000_000,
        }
    );
    let fresh =
        import_video(true, true, Some("/d/a.mov"), Ok(1), Ok(ProjectPaths::new("/p")), 5).unwrap();
    assert!(starts_with(&fresh.video.id, "imported_"));
    assert_eq!(fresh.destination, format!("/p/videos/{}", fresh.video.id));
    assert_eq!(fresh.video.video_path, fresh.destination);
    assert_eq!(fresh.video.name, "a");
}

#[test]
fn import_reports_what_stands_in_the_way() {
    let project = || Err::<ProjectPaths, String>("no project".to_string());
    let refused = |host, tool, source: Option<&str>, duration: Result<i64, String>| {
        import_video(host, tool, source, duration, project(), 0).err().unwrap()
    };
    assert_eq!(refused(false, true, None, Err("probe".to_string())), "AppHandle not available");
    assert_eq!(
        refused(true, false, None, Err("probe".to_string())),
        "FFmpeg sidecar not found. Please ensure it's bundled with the app."
    );
    assert_eq!(refused(true, true, None, Err("probe".to_string())), "File selection cancelled");
    assert_eq!(refused(true, true, Some("/a"), Err("probe".to_string())), "probe");
    assert_eq!(refused(true, true, Some("/a"), Ok(1)), "no project");
    assert_eq!(videos_dir_failure("denied"), "Failed to create videos directory: denied");
    assert_eq!(copy_failure("disk full"), "Failed to copy video file: disk full");
}

fn file(name: &str, is_file: bool, duration: Result<i64, String>, created_at: Result<i64, String>) -> VideoFile {
    VideoFile {
        file_name: name.to_string(),
        path: format!("/p/videos/{}", name),
        is_file,
        duration,
        created_at,
    }
}

#[test]
fn imported_videos_are_listed_newest_first() {
    let files = vec![
        file("imported_0123456789abcdef.mp4", true, Ok(4_000_000), Ok(100)),
        file("generated_1.mp4", true, Ok(4_000_000), Ok(500)),
        file("imported_aaaaaaaabbbb", true, Ok(1), Ok(300)),
        file("imported_dir", false, Ok(1), Ok(900)),
        file("imported_unreadable.mp4", true, Err("probe failed".to_string()), Err("no time".to_string())),
        file("imported_short", true, Ok(2), Ok(300)),
        file("imported_", true, Ok(3), Ok(50)),
    ];
    let listed = list_imported_videos(true, true, Ok(()), true, &files).unwrap();
    let summary: Vec<(&str, &str, &str, i64, i64)> = listed
        .iter()
        .map(|v| (v.id.as_str(), v.name.as_str(), v.video_path.as_str(), v.original_duration, v.created_at))
        .collect();
    assert_eq!(
        summary,
        vec![
            ("imported_aaaaaaaabbbb", "Imported Video (aaaaaaaa)", "/p/videos/imported_aaaaaaaabbbb", 1, 300),
            ("imported_short", "Imported Video", "/p/videos/imported_short", 2, 300),
            (
                "imported_0123456789abcdef",
                "Imported Video (01234567)",
                "/p/videos/imported_0123456789abcdef.mp4",
                4_000_000,
                100
            ),
            ("imported_", "Imported Video", "/p/videos/imported_", 3, 50),
        ]
    );
}

#[test]
fn listing_of_imported_videos_can_fail() {
    let files = vec![
        file("imported_a", true, Ok(1), Ok(1)),
        file("imported_b", true, Ok(1), Err("Failed to read file metadata: denied".to_string())),
        file("imported_c", true, Ok(1), Err("later".to_string())),
    ];
    assert_eq!(
        list_imported_videos(true, true, Ok(()), true, &files),
        Err("Failed to read file metadata: denied".to_string())
    );
    assert_eq!(list_imported_videos(true, true, Ok(()), false, &files), Ok(vec![]));
    assert_eq!(
        list_imported_videos(true, true, Err("no project".to_string()), true, &files),
        Err("no project".to_string())
    );
    assert_eq!(
        list_imported_videos(false, true, Ok(()), true, &files),
        Err("AppHandle not available".to_string())
    );
    assert_eq!(list_imported_videos(true, true, Ok(()), true, &vec![]), Ok(vec![]));
}

#[test]
fn only_imported_videos_are_deleted() {
    assert_eq!(
        delete_imported_video("imported_abc", Ok(ProjectPaths::new("/p"))),
        Ok("/p/videos/imported_abc".to_string())
    );
    assert_eq!(
        delete_imported_video("video_abc", Err("no project".to_string())),
        Err("Can only delete imported videos".to_string())
    );
    assert_eq!(
        delete_imported_video("imported_abc", Err("no project".to_string())),
        Err("no project".to_string())
    );
    assert_eq!(deletion_outcome(true, None), Ok(()));
    assert_eq!(deletion_outcome(false, None), Err("Video not found".to_string()));
    assert_eq!(deletion_outcome(false, Some("x")), Err("Video not found".to_string()));
    assert_eq!(
        deletion_outcome(true, Some("denied")),
        Err("Failed to delete imported video: denied".to_string())
    );
}

#[test]
fn export_needs_a_preview_and_a_target() {
    assert_eq!(export_video(true, Some("/out/film.mp4".to_string())), Ok("/out/film.mp4".to_string()));
    assert_eq!(
        export_video(false, Some("/out/film.mp4".to_string())),
        Err("Preview video not found. Please generate a preview first.".to_string())
    );
    assert_eq!(export_video(true, None), Err("Export cancelled by user".to_string()));
    assert_eq!(export_failure("denied"), "Failed to export video: denied");
}

#[test]
fn prefixes_and_suffixes() {
    assert!(starts_with("imported_x", "imported_"));
    assert!(starts_with("imported_", "imported_"));
    assert!(!starts_with("imported", "imported_"));
    assert!(starts_with("x", ""));
    assert!(ends_with("a.mp4", ".mp4"));
    assert!(!ends_with("mp4", ".mp4"));
    assert!(ends_with("", ""));
    assert!(holds_text(&vec!["a".to_string(), "b".to_string()], "b"));
    assert!(!holds_text(&vec!["a".to_string()], "b"));
}
