use sixsevenstudio::video_editor::filters::{
    build_audio_sync_filters, build_transition_filter, build_video_transition_filters,
};
use sixsevenstudio::video_editor::timeline::{
    calculate_audio_padding, calculate_clip_end_time, calculate_cumulative_offset,
    calculate_total_duration, calculate_transition_offset, calculate_trimmed_duration,
    check_offsets, check_timeline, place_clip, plan_timeline,
};
use sixsevenstudio::video_editor::types::TimelineClip;

const SECOND: i64 = 1_000_000;

fn clip(id: &str, duration: i64, transition: Option<&str>, transition_duration: Option<i64>) -> TimelineClip {
    TimelineClip {
        id: id.to_string(),
        name: format!("Clip {}", id),
        video_path: format!("/videos/{}.mp4", id),
        thumbnail: None,
        original_duration: duration,
        created_at: 0,
        position: 0,
        trim_start: 0,
        trim_end: duration,
        duration,
        transition_type: transition.map(|s| s.to_string()),
        transition_duration,
    }
}

fn three_clips() -> Vec<TimelineClip> {
    vec![
        clip("a", 5 * SECOND, Some("fade"), Some(SECOND)),
        clip("b", 4 * SECOND, Some("wipe"), Some(SECOND)),
        clip("c", 3 * SECOND, None, None),
    ]
}

#[test]
fn three_clip_timeline_offsets_and_total() {
    let clips = three_clips();
    assert!(check_timeline(&clips));
    assert_eq!(calculate_transition_offset(&clips, 0), 4 * SECOND);
    assert_eq!(calculate_cumulative_offset(&clips, 1), 4 * SECOND);
    assert_eq!(calculate_transition_offset(&clips, 1), 7 * SECOND);
    assert_eq!(calculate_total_duration(&clips), 10 * SECOND);
    assert_eq!(calculate_cumulative_offset(&clips, 0), 0);
    assert_eq!(calculate_cumulative_offset(&clips, 2), 7 * SECOND);
}

#[test]
fn three_clip_timeline_audio_placements() {
    let clips = three_clips();
    let first = place_clip(&clips, 0);
    assert_eq!(first.audio_trim, Some(4 * SECOND));
    assert_eq!(first.audio_delay_ms, None);
    assert_eq!(first.audio_pad, Some(6 * SECOND));
    let second = place_clip(&clips, 1);
    assert_eq!(second.audio_trim, Some(3 * SECOND));
    assert_eq!(second.audio_delay_ms, Some(4000));
    assert_eq!(second.audio_pad, Some(3 * SECOND));
    let last = place_clip(&clips, 2);
    assert_eq!(last.audio_trim, None);
    assert_eq!(last.audio_delay_ms, Some(7000));
    assert_eq!(last.audio_pad, None);
    assert_eq!(last.start, 7 * SECOND);
    assert_eq!(last.end, 10 * SECOND);
}

#[test]
fn three_clip_video_filters() {
    let clips = three_clips();
    let filters = build_video_transition_filters(&clips);
    assert_eq!(
        filters,
        vec![
            "[0:v][1:v]xfade=transition=fade:duration=1:offset=4[v0]".to_string(),
            "[v0][2:v]xfade=transition=wipe:duration=1:offset=7[out]".to_string(),
        ]
    );
}

#[test]
fn three_clip_audio_filters() {
    let clips = three_clips();
    let filters = build_audio_sync_filters(&clips);
    assert_eq!(
        filters,
        vec![
            "[0:a]atrim=0:4[atrim0]".to_string(),
            "[atrim0]apad=pad_dur=6[apadend0]".to_string(),
            "[1:a]atrim=0:3[atrim1]".to_string(),
            "[atrim1]adelay=4000|4000[adelay1]".to_string(),
            "[adelay1]apad=pad_dur=3[apadend1]".to_string(),
            "[2:a]adelay=7000|7000[adelay2]".to_string(),
            "[apadend0][apadend1][adelay2]amix=inputs=3:duration=longest:dropout_transition=0[outa]"
                .to_string(),
        ]
    );
}

#[test]
fn three_clip_graph_is_joined_with_semicolons() {
    let clips = three_clips();
    let graph = build_transition_filter(&clips).unwrap();
    assert_eq!(
        graph,
        "[0:v][1:v]xfade=transition=fade:duration=1:offset=4[v0]; \
         [v0][2:v]xfade=transition=wipe:duration=1:offset=7[out]; \
         [0:a]atrim=0:4[atrim0]; \
         [atrim0]apad=pad_dur=6[apadend0]; \
         [1:a]atrim=0:3[atrim1]; \
         [atrim1]adelay=4000|4000[adelay1]; \
         [adelay1]apad=pad_dur=3[apadend1]; \
         [2:a]adelay=7000|7000[adelay2]; \
         [apadend0][apadend1][adelay2]amix=inputs=3:duration=longest:dropout_transition=0[outa]"
    );
}

#[test]
fn graph_needs_two_clips() {
    let none: Vec<TimelineClip> = Vec::new();
    assert_eq!(
        build_transition_filter(&none),
        Err("At least two clips are required for transitions".to_string())
    );
    let one = vec![clip("a", 5 * SECOND, Some("fade"), Some(SECOND))];
    assert_eq!(
        build_transition_filter(&one),
        Err("At least two clips are required for transitions".to_string())
    );
}

#[test]
fn graph_rejects_times_out_of_range() {
    let clips = vec![
        clip("a", i64::MAX, Some("fade"), Some(-1)),
        clip("b", 4 * SECOND, None, None),
    ];
    assert!(!check_timeline(&clips));
    assert!(plan_timeline(&clips).is_none());
    assert_eq!(build_transition_filter(&clips), Err("Clip times are out of range".to_string()));
}

#[test]
fn missing_transition_fields_default_to_one_second_fade() {
    let clips = vec![clip("a", 2_500_000, None, None), clip("b", 4 * SECOND, None, None)];
    assert_eq!(calculate_trimmed_duration(&clips[0]), 1_500_000);
    assert_eq!(
        build_video_transition_filters(&clips),
        vec!["[0:v][1:v]xfade=transition=fade:duration=1:offset=1.5[out]".to_string()]
    );
}

#[test]
fn transition_name_is_forwarded_verbatim() {
    let clips = vec![
        clip("a", 3 * SECOND, Some("not a real transition!"), Some(250_000)),
        clip("b", 3 * SECOND, None, None),
    ];
    assert_eq!(
        build_video_transition_filters(&clips),
        vec![
            "[0:v][1:v]xfade=transition=not a real transition!:duration=0.25:offset=2.75[out]"
                .to_string()
        ]
    );
}

#[test]
fn transition_longer_than_clip_gives_negative_offset() {
    let clips = vec![
        clip("a", SECOND, Some("fade"), Some(3 * SECOND)),
        clip("b", 5 * SECOND, None, None),
    ];
    assert!(check_timeline(&clips));
    assert_eq!(calculate_transition_offset(&clips, 0), -2 * SECOND);
    assert_eq!(calculate_total_duration(&clips), 3 * SECOND);
    let graph = build_transition_filter(&clips).unwrap();
    assert_eq!(
        graph,
        "[0:v][1:v]xfade=transition=fade:duration=3:offset=-2[out]; \
         [0:a]atrim=0:-2[atrim0]; \
         [atrim0]apad=pad_dur=5[apadend0]; \
         [1:a]; "
            .replace("[1:a]; ", "[apadend0][1:a]amix=inputs=2:duration=longest:dropout_transition=0[outa]")
    );
}

#[test]
fn every_padded_track_is_as_long_as_the_composition() {
    let clips = vec![
        clip("a", 5 * SECOND, Some("fade"), Some(SECOND)),
        clip("b", 4 * SECOND, Some("wipe"), Some(1_500_000)),
        clip("c", 7_250_000, Some("fade"), None),
        clip("d", 3 * SECOND, None, None),
    ];
    let total = calculate_total_duration(&clips);
    assert_eq!(total, 4 * SECOND + 2_500_000 + 6_250_000 + 3 * SECOND);
    for i in 0..clips.len() {
        assert_eq!(calculate_clip_end_time(&clips, i) + calculate_audio_padding(&clips, i), total);
    }
    assert_eq!(calculate_audio_padding(&clips, 3), 0);
    let plan = plan_timeline(&clips).unwrap();
    assert_eq!(plan.total_duration, total);
    assert_eq!(plan.placements.len(), 4);
    for i in 1..clips.len() {
        assert_eq!(
            plan.placements[i].start,
            plan.placements[i - 1].start + clips[i - 1].duration
                - clips[i - 1].transition_duration.unwrap_or(SECOND)
        );
    }
    assert_eq!(plan.placements[0].start, 0);
}

#[test]
fn the_first_clip_starts_at_zero_whatever_the_list_holds() {
    let none: Vec<TimelineClip> = Vec::new();
    assert!(check_offsets(&none, 0));
    assert_eq!(calculate_cumulative_offset(&none, 0), 0);
    assert_eq!(calculate_cumulative_offset(&none, 3), 0);
    let odd = vec![clip("a", i64::MAX, Some("fade"), Some(i64::MIN))];
    assert!(check_offsets(&odd, 0));
    assert!(!check_offsets(&odd, 1));
    assert_eq!(calculate_cumulative_offset(&odd, 0), 0);
    assert_eq!(calculate_cumulative_offset(&three_clips(), 0), 0);
}

#[test]
fn each_offset_is_the_one_before_plus_the_clip_less_its_transition() {
    let clips = three_clips();
    for i in 1..=clips.len() {
        assert!(check_offsets(&clips, i));
        assert_eq!(
            calculate_cumulative_offset(&clips, i),
            calculate_cumulative_offset(&clips, i - 1) + clips[i - 1].duration
                - clips[i - 1].transition_duration.unwrap_or(SECOND)
        );
    }
    // The sum over all clips counts the last clip less its transition too,
    // and behind the list nothing is added.
    assert_eq!(calculate_cumulative_offset(&clips, 3), 9 * SECOND);
    assert_eq!(calculate_cumulative_offset(&clips, 4), 9 * SECOND);
    assert_eq!(calculate_cumulative_offset(&clips, usize::MAX), 9 * SECOND);
}

#[test]
fn an_offset_does_not_depend_on_the_clips_behind_it() {
    let clips = three_clips();
    let mut other = three_clips();
    other[1] = clip("x", 77 * SECOND, None, Some(3 * SECOND));
    other.truncate(2);
    assert_eq!(calculate_cumulative_offset(&clips, 1), calculate_cumulative_offset(&other, 1));
    assert_ne!(calculate_cumulative_offset(&clips, 2), calculate_cumulative_offset(&other, 2));
}

#[test]
fn sums_that_cannot_be_held_are_told_apart() {
    let clips = vec![
        clip("a", i64::MAX, Some("fade"), Some(0)),
        clip("b", 1, Some("fade"), Some(0)),
        clip("c", 1, None, None),
    ];
    assert!(check_offsets(&clips, 0));
    assert!(check_offsets(&clips, 1));
    assert!(!check_offsets(&clips, 2));
    assert!(!check_offsets(&clips, 3));
    assert_eq!(calculate_cumulative_offset(&clips, 1), i64::MAX);
    assert!(!check_timeline(&clips));
}
