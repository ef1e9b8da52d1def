use sixsevenstudio::projects::paths::ProjectPaths;
use sixsevenstudio::video_editor::concat::Task;
use sixsevenstudio::video_editor::job::Event;
use sixsevenstudio::video_editor::sprite::{
    build_sprite_filter, compute_gcd, compute_sprite_layout, generate_sprite_image, FrameRate,
    SpriteLayout,
};
use sixsevenstudio::video_editor::thumbnails::{
    generate_clip_sprite, generate_clip_waveform, ThumbnailEvent, ThumbnailJob, ThumbnailKind,
    ThumbnailStep,
};
use sixsevenstudio::video_editor::types::{find_clip, EditorState, TimelineClip};
use sixsevenstudio::video_editor::waveform::{
    build_waveform_filter, generate_waveform_image, has_no_audio,
};

const SECOND: i64 = 1_000_000;

fn strings(items: &[&str]) -> Vec<String> {
    items.iter().map(|s| s.to_string()).collect()
}

fn clip(id: &str, start: i64, end: i64) -> TimelineClip {
    TimelineClip {
        id: id.to_string(),
        name: id.to_string(),
        video_path: format!("/videos/{}.mp4", id),
        thumbnail: None,
        original_duration: 60 * SECOND,
        created_at: 0,
        position: 0,
        trim_start: start,
        trim_end: end,
        duration: end - start,
        transition_type: None,
        transition_duration: None,
    }
}

fn state(clips: Vec<TimelineClip>) -> EditorState {
    EditorState { clips, selected_clip_id: None, preview_video_path: None }
}

fn done() -> ThumbnailEvent {
    ThumbnailEvent::Reported(Event::Done)
}

#[test]
fn sprite_of_five_seconds_at_500_pixels() {
    let layout = compute_sprite_layout(500, 0, 5 * SECOND);
    assert_eq!(
        layout,
        SpriteLayout { fps: FrameRate { num: 2, den: 1 }, num_frames: 10, frame_width: 50 }
    );
    assert_eq!(
        build_sprite_filter(&layout, 60),
        "[0:v]fps=2,scale=-1:60,scale=50:60,tile=10x1[sprite]"
    );
}

#[test]
fn sprite_rate_is_exact_where_it_is_no_whole_number() {
    let layout = compute_sprite_layout(500, SECOND, 4 * SECOND);
    assert_eq!(layout.fps, FrameRate { num: 10, den: 3 });
    assert_eq!(layout.num_frames, 10);
    assert_eq!(layout.frame_width, 50);
    assert_eq!(
        build_sprite_filter(&layout, 48),
        "[0:v]fps=10/3,scale=-1:48,scale=50:48,tile=10x1[sprite]"
    );
}

#[test]
fn sprite_rate_is_held_below_ten_frames_a_second() {
    // 40 frames would fit, but a second of video yields ten frames at most.
    let short = compute_sprite_layout(2000, 0, SECOND);
    assert_eq!(
        short,
        SpriteLayout { fps: FrameRate { num: 10, den: 1 }, num_frames: 10, frame_width: 200 }
    );
}

#[test]
fn long_clips_get_no_more_frames_than_fit() {
    // Two frames fit, however long the clip: one frame in fifty seconds.
    let long = compute_sprite_layout(100, 0, 100 * SECOND);
    assert_eq!(
        long,
        SpriteLayout { fps: FrameRate { num: 1, den: 50 }, num_frames: 2, frame_width: 50 }
    );
    assert_eq!(
        build_sprite_filter(&long, 40),
        "[0:v]fps=1/50,scale=-1:40,scale=50:40,tile=2x1[sprite]"
    );
    let wide = compute_sprite_layout(500, 0, 100 * SECOND);
    assert_eq!(
        wide,
        SpriteLayout { fps: FrameRate { num: 1, den: 10 }, num_frames: 10, frame_width: 50 }
    );
    let longer = compute_sprite_layout(500, 0, 1001 * SECOND);
    assert_eq!(longer.fps, FrameRate { num: 10, den: 1001 });
    assert_eq!(longer.num_frames, 10);
    assert_eq!(longer.frame_width, 50);
    let uneven = compute_sprite_layout(100, 0, 4_500_001);
    assert_eq!(uneven.fps, FrameRate { num: 2_000_000, den: 4_500_001 });
    assert_eq!(uneven.num_frames, 2);
    assert_eq!(uneven.frame_width, 50);
}

#[test]
fn narrow_sprite_has_one_frame() {
    let layout = compute_sprite_layout(30, 0, SECOND);
    assert_eq!(
        layout,
        SpriteLayout { fps: FrameRate { num: 1, den: 1 }, num_frames: 1, frame_width: 30 }
    );
    let none = compute_sprite_layout(0, 0, SECOND);
    assert_eq!(none.num_frames, 1);
    assert_eq!(none.frame_width, 0);
}

#[test]
fn sprite_of_the_longest_clip() {
    let layout = compute_sprite_layout(50, i64::MIN, i64::MAX);
    assert_eq!(layout.fps, FrameRate { num: 200_000, den: 3_689_348_814_741_910_323 });
    assert_eq!(layout.num_frames, 1);
    assert_eq!(layout.frame_width, 50);
    let wide = compute_sprite_layout(u32::MAX, i64::MIN, i64::MAX);
    assert_eq!(wide.num_frames, u32::MAX / 50);
    assert_eq!(wide.frame_width, 50);
}

#[test]
fn greatest_common_divisor() {
    assert_eq!(compute_gcd(10_000_000, 5_000_000), 5_000_000);
    assert_eq!(compute_gcd(12, 18), 6);
    assert_eq!(compute_gcd(7, 0), 7);
    assert_eq!(compute_gcd(0, 7), 7);
    assert_eq!(compute_gcd(0, 0), 0);
    assert_eq!(compute_gcd(17, 5), 1);
}

#[test]
fn sprite_task() {
    let task = generate_sprite_image("/v/a.mp4", SECOND, 6 * SECOND, "/c/a_500.png", 500, 60);
    assert_eq!(
        task,
        Ok(Task::Run {
            args: strings(&[
                "-ss", "1", "-i", "/v/a.mp4", "-t", "5", "-filter_complex",
                "[0:v]fps=2,scale=-1:60,scale=50:60,tile=10x1[sprite]", "-map", "[sprite]",
                "-frames:v", "1", "-y", "/c/a_500.png",
            ]),
            op: "generate sprite".to_string(),
        })
    );
}

#[test]
fn waveform_task() {
    assert_eq!(
        build_waveform_filter(800, 64),
        "[0:a]showwavespic=s=800x64:colors=0xFFFFFF:scale=lin[v]"
    );
    let task = generate_waveform_image("/v/a.mp4", 500_000, 2 * SECOND, "/c/a_800.png", 800, 64);
    assert_eq!(
        task,
        Ok(Task::Run {
            args: strings(&[
                "-ss", "0.5", "-i", "/v/a.mp4", "-t", "1.5", "-filter_complex",
                "[0:a]showwavespic=s=800x64:colors=0xFFFFFF:scale=lin[v]", "-map", "[v]",
                "-frames:v", "1", "-y", "/c/a_800.png",
            ]),
            op: "generate waveform".to_string(),
        })
    );
}

#[test]
fn empty_intervals_are_refused() {
    let message = "Invalid duration: trim_end must be greater than trim_start".to_string();
    assert_eq!(generate_sprite_image("/a", SECOND, SECOND, "/o", 500, 60), Err(message.clone()));
    assert_eq!(generate_sprite_image("/a", 2 * SECOND, SECOND, "/o", 500, 60), Err(message.clone()));
    assert_eq!(generate_waveform_image("/a", SECOND, SECOND, "/o", 500, 60), Err(message.clone()));
    assert_eq!(generate_waveform_image("/a", 5, 4, "/o", 500, 60), Err(message));
}

#[test]
fn clips_are_found_by_id() {
    let clips = vec![clip("a", 0, SECOND), clip("b", 0, SECOND), clip("a", 0, 2 * SECOND)];
    assert_eq!(find_clip(&clips, "a"), Some(0));
    assert_eq!(find_clip(&clips, "b"), Some(1));
    assert_eq!(find_clip(&clips, "c"), None);
    assert_eq!(find_clip(&[], "a"), None);
}

#[test]
fn sprite_request_renders_into_the_cache() {
    let mut job =
        generate_clip_sprite(true, true, Ok(ProjectPaths::new("/p")), "clip-1", 500, 60).unwrap();
    assert_eq!(job.cache_file(), "/p/.sixseven/sprites/clip-1_500.png");
    assert_eq!(
        job.step(&done()),
        ThumbnailStep::CreateDir { path: "/p/.sixseven/sprites".to_string() }
    );
    assert_eq!(
        job.step(&done()),
        ThumbnailStep::Probe { path: "/p/.sixseven/sprites/clip-1_500.png".to_string() }
    );
    assert_eq!(job.step(&ThumbnailEvent::Found(false)), ThumbnailStep::LoadState);
    let loaded =
        ThumbnailEvent::Loaded(Some(state(vec![clip("other", 0, SECOND), clip("clip-1", 0, 5 * SECOND)])));
    let expected =
        generate_sprite_image("/videos/clip-1.mp4", 0, 5 * SECOND, "/p/.sixseven/sprites/clip-1_500.png", 500, 60)
            .unwrap();
    assert_eq!(job.step(&loaded), ThumbnailStep::Perform(expected));
    let finish = ThumbnailStep::Finish {
        result: Ok(Some("/p/.sixseven/sprites/clip-1_500.png".to_string())),
    };
    assert_eq!(job.step(&done()), finish);
    assert_eq!(job.step(&done()), finish);
}

#[test]
fn second_request_is_served_from_the_cache() {
    let mut steps = Vec::new();
    for cached in [false, true] {
        let mut job =
            generate_clip_sprite(true, true, Ok(ProjectPaths::new("/p")), "c", 300, 40).unwrap();
        let mut event = done();
        let mut invocations = 0;
        let result = loop {
            match job.step(&event) {
                ThumbnailStep::CreateDir { .. } => event = done(),
                ThumbnailStep::Probe { path } => {
                    assert_eq!(path, "/p/.sixseven/sprites/c_300.png");
                    event = ThumbnailEvent::Found(cached);
                }
                ThumbnailStep::LoadState => {
                    event = ThumbnailEvent::Loaded(Some(state(vec![clip("c", 0, SECOND)])));
                }
                ThumbnailStep::Perform(task) => {
                    invocations += 1;
                    match task {
                        Task::Run { args, .. } => {
                            assert_eq!(args.last().unwrap(), "/p/.sixseven/sprites/c_300.png")
                        }
                        other => panic!("unexpected task {:?}", other),
                    }
                    event = done();
                }
                ThumbnailStep::Finish { result } => break result,
            }
        };
        steps.push((invocations, result));
    }
    let path = Ok(Some("/p/.sixseven/sprites/c_300.png".to_string()));
    assert_eq!(steps, vec![(1, path.clone()), (0, path)]);
}

#[test]
fn waveform_of_a_clip_without_sound_is_no_failure() {
    let mut job =
        generate_clip_waveform(true, true, Ok(ProjectPaths::new("/p")), "c", 300, 40).unwrap();
    assert_eq!(job.cache_file(), "/p/.sixseven/waveforms/c_300.png");
    job.step(&done());
    job.step(&done());
    job.step(&ThumbnailEvent::Found(false));
    let step = job.step(&ThumbnailEvent::Loaded(Some(state(vec![clip("c", 0, SECOND)]))));
    assert!(matches!(step, ThumbnailStep::Perform(Task::Run { .. })));
    let stderr = "Stream specifier ':a' in filtergraph description \
                  [0:a]showwavespic=s=300x40:colors=0xFFFFFF:scale=lin[v] matches no streams.\n";
    assert!(has_no_audio(stderr));
    let step = job.step(&ThumbnailEvent::Reported(Event::ToolFailed(stderr.to_string())));
    assert_eq!(step, ThumbnailStep::Finish { result: Ok(None) });
    assert_eq!(job.step(&done()), ThumbnailStep::Finish { result: Ok(None) });
}

fn rendering(kind: ThumbnailKind) -> ThumbnailJob {
    let mut job = ThumbnailJob::new(kind, true, true, Ok(ProjectPaths::new("/p")), "c", 300, 40).unwrap();
    job.step(&done());
    job.step(&done());
    job.step(&ThumbnailEvent::Found(false));
    job.step(&ThumbnailEvent::Loaded(Some(state(vec![clip("c", 0, SECOND)]))));
    job
}

#[test]
fn other_waveform_failures_are_failures() {
    let mut job = rendering(ThumbnailKind::Waveform);
    assert_eq!(
        job.step(&ThumbnailEvent::Reported(Event::ToolFailed("Invalid data".to_string()))),
        ThumbnailStep::Finish {
            result: Err("Waveform generation failed (video may not have audio): \
                         FFmpeg generate waveform failed: Invalid data"
                .to_string())
        }
    );
    let mut job = rendering(ThumbnailKind::Waveform);
    assert_eq!(
        job.step(&ThumbnailEvent::Reported(Event::SpawnFailed("matches no streams".to_string()))),
        ThumbnailStep::Finish {
            result: Err("Waveform generation failed (video may not have audio): \
                         Failed to execute ffmpeg for generate waveform: matches no streams"
                .to_string())
        }
    );
    let mut job = rendering(ThumbnailKind::Waveform);
    assert_eq!(
        job.step(&ThumbnailEvent::Reported(Event::ToolMissing("gone".to_string()))),
        ThumbnailStep::Finish {
            result: Err("Waveform generation failed (video may not have audio): \
                         Failed to get ffmpeg sidecar: gone"
                .to_string())
        }
    );
}

#[test]
fn sprite_failures_carry_the_diagnostics() {
    let mut job = rendering(ThumbnailKind::Sprite);
    assert_eq!(
        job.step(&ThumbnailEvent::Reported(Event::ToolFailed("matches no streams".to_string()))),
        ThumbnailStep::Finish {
            result: Err("FFmpeg generate sprite failed: matches no streams".to_string())
        }
    );
}

#[test]
fn requests_fail_where_the_clip_cannot_be_had() {
    let fresh = |kind| {
        let mut job =
            ThumbnailJob::new(kind, true, true, Ok(ProjectPaths::new("/p")), "c", 300, 40).unwrap();
        job.step(&done());
        job
    };
    let loading = |kind| {
        let mut job = fresh(kind);
        job.step(&done());
        job.step(&ThumbnailEvent::Found(false));
        job
    };
    let failed = |message: &str| ThumbnailStep::Finish { result: Err(message.to_string()) };
    assert_eq!(
        fresh(ThumbnailKind::Waveform)
            .step(&ThumbnailEvent::Reported(Event::IoFailed("denied".to_string()))),
        failed("Failed to create waveforms cache directory: denied")
    );
    assert_eq!(
        fresh(ThumbnailKind::Sprite)
            .step(&ThumbnailEvent::Reported(Event::IoFailed("denied".to_string()))),
        failed("Failed to create sprites cache directory: denied")
    );
    assert_eq!(
        loading(ThumbnailKind::Sprite).step(&ThumbnailEvent::Loaded(None)),
        failed("Editor state not found")
    );
    assert_eq!(
        loading(ThumbnailKind::Sprite)
            .step(&ThumbnailEvent::Reported(Event::IoFailed("bad json".to_string()))),
        failed("Failed to load editor state: bad json")
    );
    assert_eq!(
        loading(ThumbnailKind::Sprite)
            .step(&ThumbnailEvent::Loaded(Some(state(vec![clip("x", 0, SECOND)])))),
        failed("Clip c not found")
    );
    assert_eq!(
        loading(ThumbnailKind::Sprite)
            .step(&ThumbnailEvent::Loaded(Some(state(vec![clip("c", SECOND, SECOND)])))),
        failed("Invalid duration: trim_end must be greater than trim_start")
    );
    assert_eq!(
        loading(ThumbnailKind::Waveform)
            .step(&ThumbnailEvent::Loaded(Some(state(vec![clip("c", SECOND, SECOND)])))),
        failed(
            "Waveform generation failed (video may not have audio): \
             Invalid duration: trim_end must be greater than trim_start"
        )
    );
}

#[test]
fn requests_need_the_tool_and_the_project() {
    let refused = |r: Result<ThumbnailJob, String>| r.err().unwrap();
    assert_eq!(
        refused(generate_clip_waveform(false, false, Err("x".to_string()), "c", 1, 1)),
        "AppHandle not available"
    );
    assert_eq!(
        refused(generate_clip_sprite(true, false, Err("x".to_string()), "c", 1, 1)),
        "FFmpeg sidecar not found. Please ensure it's bundled with the app."
    );
    assert_eq!(
        refused(generate_clip_sprite(true, true, Err("Project 'x' does not exist".to_string()), "c", 1, 1)),
        "Project 'x' does not exist"
    );
}
