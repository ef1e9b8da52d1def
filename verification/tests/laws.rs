use sixsevenstudio::projects::filesystem::sanitize_project_name;
use sixsevenstudio::projects::paths::{join_path, ProjectPaths};
use sixsevenstudio::text::format_seconds;
use sixsevenstudio::video_editor::ffmpeg::{build_manifest_path, build_temp_clip_path, build_temp_clip_paths};
use sixsevenstudio::video_editor::probe::parse_seconds;
use sixsevenstudio::video_editor::sprite::compute_sprite_layout;
use sixsevenstudio::video_editor::timeline::{
    calculate_audio_padding, calculate_cumulative_offset, check_timeline,
};
use sixsevenstudio::video_editor::types::TimelineClip;

fn clip(duration: i64, transition_duration: Option<i64>) -> TimelineClip {
    TimelineClip {
        id: "c".to_string(),
        name: "c".to_string(),
        video_path: "/c.mp4".to_string(),
        thumbnail: None,
        original_duration: duration,
        created_at: 0,
        position: 0,
        trim_start: 0,
        trim_end: duration,
        duration,
        transition_type: None,
        transition_duration,
    }
}

#[test]
fn times_are_read_back_as_written() {
    let samples = [
        0,
        1,
        -1,
        999_999,
        1_000_000,
        1_000_001,
        -1_000_001,
        12_345_678,
        100_000,
        10,
        7_050_000,
        i64::MAX,
        i64::MIN,
        i64::MAX - 1,
        i64::MIN + 1,
    ];
    for micros in samples {
        assert_eq!(parse_seconds(&format_seconds(micros as i128)), Some(micros), "{}", micros);
    }
}

#[test]
fn intermediate_files_are_all_different() {
    let paths = build_temp_clip_paths("/tmp/work", 120);
    assert_eq!(paths.len(), 120);
    let mut seen = std::collections::HashSet::new();
    for (i, path) in paths.iter().enumerate() {
        assert_eq!(*path, build_temp_clip_path("/tmp/work", i));
        assert_eq!(*path, format!("/tmp/work/clip_{}.mp4", i));
        assert!(seen.insert(path.clone()));
    }
    assert!(!seen.contains(&build_manifest_path("/tmp/work")));
    assert_eq!(build_manifest_path("/tmp/work/"), "/tmp/work/concat_list.txt");
}

#[test]
fn cached_images_are_kept_apart() {
    let paths = ProjectPaths::new("/p");
    let requests = [("a", 1u32), ("a", 12), ("a_1", 2), ("a", 120), ("a_12", 0), ("a_1", 20), ("", 5)];
    let mut seen = std::collections::HashSet::new();
    for (id, width) in requests {
        assert!(seen.insert(paths.sprite_file(id, width)), "{} {}", id, width);
        assert_ne!(paths.sprite_file(id, width), paths.waveform_file(id, width));
    }
    assert_eq!(paths.sprite_file("a_1", 2), "/p/.sixseven/sprites/a_1_2.png");
}

#[test]
fn modest_timelines_fit() {
    let clips: Vec<TimelineClip> = (0..1000)
        .map(|i| clip(1_000_000_000_000 - i, Some(-1_000_000_000_000 + i)))
        .collect();
    assert!(check_timeline(&clips));
    assert_eq!(calculate_cumulative_offset(&clips, 999), 999 * 2_000_000_000_000 - 999 * 998);
    let negative: Vec<TimelineClip> =
        (0..1000).map(|_| clip(-1_000_000_000_000, Some(1_000_000_000_000))).collect();
    assert!(check_timeline(&negative));
    assert_eq!(calculate_cumulative_offset(&negative, 999), -999 * 2_000_000_000_000);
}

#[test]
fn clips_start_in_order_where_transitions_are_shorter_than_clips() {
    let clips = vec![
        clip(5_000_000, Some(1_000_000)),
        clip(2_000_000, Some(1_999_999)),
        clip(3_000_000, None),
        clip(0, Some(50_000_000)),
    ];
    assert!(check_timeline(&clips));
    for i in 1..clips.len() {
        assert!(calculate_cumulative_offset(&clips, i - 1) < calculate_cumulative_offset(&clips, i));
    }
    for i in 0..clips.len() {
        assert!(calculate_audio_padding(&clips, i) >= 0);
    }
}

#[test]
fn frames_stay_legible_however_long_the_clip() {
    for width in [50u32, 99, 100, 500, 1999, 4000, u32::MAX] {
        let most = (width / 50).max(1);
        for duration in [
            1i64,
            99_999,
            100_000,
            1_000_000,
            3_333_333,
            2_000_000 * most as i64,
            2_000_000 * most as i64 + 1,
            100_000_000,
            1_001_000_000,
            i64::MAX,
        ] {
            let layout = compute_sprite_layout(width, 0, duration);
            assert!(layout.num_frames >= 1);
            assert!(layout.num_frames <= most, "{} {}", width, duration);
            assert!(layout.frame_width >= 50, "{} {}", width, duration);
            assert_eq!(layout.frame_width, width / layout.num_frames);
            if most as i128 * 1_000_000 <= 10 * duration as i128 {
                assert_eq!(layout.num_frames, most);
            }
        }
    }
    for width in [0u32, 1, 49] {
        for duration in [1i64, 1_000_000, i64::MAX] {
            let layout = compute_sprite_layout(width, 0, duration);
            assert_eq!(layout.num_frames, 1);
            assert_eq!(layout.frame_width, width);
        }
    }
}

#[test]
fn sanitized_names_stay_inside_the_workspace() {
    for name in ["demo", " my film ", ".", "a.b", "x y"] {
        let clean = sanitize_project_name(name).unwrap();
        assert!(!clean.is_empty());
        assert!(!clean.contains('/'));
        assert!(!clean.contains('\\'));
        assert_eq!(join_path("/ws", &clean), format!("/ws/{}", clean));
        assert_eq!(join_path("/ws/", &clean), format!("/ws/{}", clean));
    }
}
