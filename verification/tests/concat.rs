use sixsevenstudio::projects::paths::ProjectPaths;
use sixsevenstudio::video_editor::concat::{
    concatenate_fast, concatenate_videos_with_transitions, concatenate_with_transitions,
    create_preview_video, has_transitions, trim_segment, ConcatPlan, Task,
};
use sixsevenstudio::video_editor::ffmpeg::{
    build_manifest, run_outcome, verify_ffmpeg_available, ToolOutput,
};
use sixsevenstudio::video_editor::filters::{
    build_transition_filter, build_transition_filter_complex,
};
use sixsevenstudio::video_editor::job::{Event, Job, Step};
use sixsevenstudio::video_editor::types::TimelineClip;

const SECOND: i64 = 1_000_000;

fn strings(items: &[&str]) -> Vec<String> {
    items.iter().map(|s| s.to_string()).collect()
}

fn clip(id: &str, start: i64, end: i64, transition: Option<&str>) -> TimelineClip {
    TimelineClip {
        id: id.to_string(),
        name: id.to_string(),
        video_path: format!("/src/{}.mp4", id),
        thumbnail: None,
        original_duration: 60 * SECOND,
        created_at: 1_700_000_000,
        position: 0,
        trim_start: start,
        trim_end: end,
        duration: end - start,
        transition_type: transition.map(|s| s.to_string()),
        transition_duration: transition.map(|_| SECOND),
    }
}

fn run(plan: ConcatPlan, fail_at: Option<(usize, Event)>) -> (Vec<Step>, Result<(), String>) {
    let mut job = Job::new(plan);
    let mut steps = Vec::new();
    let mut event = Event::Start;
    let mut performed = 0;
    for _ in 0..1000 {
        let step = job.step(&event);
        match &step {
            Step::Perform(_) => {
                event = match &fail_at {
                    Some((at, failure)) if *at == performed => failure.clone(),
                    _ => Event::Done,
                };
                performed += 1;
            }
            Step::Remove { .. } => {
                event = Event::IoFailed("cannot remove".to_string());
            }
            Step::Finish { result } => {
                assert!(job.is_finished());
                let result = result.clone();
                steps.push(step);
                return (steps, result);
            }
        }
        steps.push(step);
    }
    panic!("the job did not end");
}

#[test]
fn trim_arguments_copy_the_streams() {
    let task = trim_segment("/in.mp4", 1_500_000, 4 * SECOND, "/out.mp4");
    assert_eq!(
        task,
        Task::Run {
            args: strings(&["-ss", "1.5", "-i", "/in.mp4", "-t", "2.5", "-c", "copy", "-y", "/out.mp4"]),
            op: "trim video".to_string(),
        }
    );
}

#[test]
fn fast_plan_of_two_clips() {
    let clips = vec![clip("a", 0, 5 * SECOND, None), clip("b", 2 * SECOND, 3_250_000, None)];
    let plan = concatenate_fast(&clips, "/out/final.mp4", "/tmp/work").unwrap();
    assert_eq!(plan.output, "/out/final.mp4");
    assert_eq!(
        plan.tasks,
        vec![
            Task::Run {
                args: strings(&[
                    "-ss", "0", "-i", "/src/a.mp4", "-t", "5", "-c", "copy", "-y",
                    "/tmp/work/clip_0.mp4",
                ]),
                op: "trim clip a".to_string(),
            },
            Task::Run {
                args: strings(&[
                    "-ss", "2", "-i", "/src/b.mp4", "-t", "1.25", "-c", "copy", "-y",
                    "/tmp/work/clip_1.mp4",
                ]),
                op: "trim clip b".to_string(),
            },
            Task::WriteFile {
                path: "/tmp/work/concat_list.txt".to_string(),
                contents: "file '/tmp/work/clip_0.mp4'\nfile '/tmp/work/clip_1.mp4'\n".to_string(),
            },
            Task::Run {
                args: strings(&[
                    "-f", "concat", "-safe", "0", "-i", "/tmp/work/concat_list.txt", "-c", "copy",
                    "-y", "/out/final.mp4",
                ]),
                op: "concatenate videos".to_string(),
            },
        ]
    );
    assert_eq!(
        plan.cleanup,
        strings(&["/tmp/work/clip_0.mp4", "/tmp/work/clip_1.mp4", "/tmp/work/concat_list.txt"])
    );
    assert!(plan.cleanup_on_failure.is_empty());
}

#[test]
fn fast_plan_requests_each_trimmed_length() {
    let clips = vec![
        clip("a", SECOND, 5 * SECOND, None),
        clip("b", 0, 2_500_000, None),
        clip("c", 3 * SECOND, 3_750_000, None),
    ];
    let plan = concatenate_fast(&clips, "/o.mp4", "/t").unwrap();
    let mut total = 0i64;
    for (i, c) in clips.iter().enumerate() {
        match &plan.tasks[i] {
            Task::Run { args, .. } => {
                assert_eq!(args[3], c.video_path);
                assert_eq!(args[9], format!("/t/clip_{}.mp4", i));
                let seconds: f64 = args[5].parse().unwrap();
                assert_eq!((seconds * 1e6).round() as i64, c.trim_end - c.trim_start);
                total += c.trim_end - c.trim_start;
            }
            other => panic!("unexpected task {:?}", other),
        }
    }
    assert_eq!(total, 4 * SECOND + 2_500_000 + 750_000);
}

#[test]
fn empty_lists_are_refused() {
    let none: Vec<TimelineClip> = Vec::new();
    assert_eq!(concatenate_fast(&none, "/o.mp4", "/t"), Err("No clips to concatenate".to_string()));
    assert_eq!(
        concatenate_with_transitions(&none, "/o.mp4", "/t"),
        Err("No clips to concatenate".to_string())
    );
    assert_eq!(
        create_preview_video(true, true, &none, Ok(ProjectPaths::new("/p"))),
        Err("No clips to preview".to_string())
    );
}

#[test]
fn single_clip_with_transition_is_a_plain_trim() {
    let clips = vec![clip("only", SECOND, 3 * SECOND, Some("fade"))];
    let plan = concatenate_with_transitions(&clips, "/out.mp4", "/tmp/w").unwrap();
    assert_eq!(
        plan.tasks,
        vec![trim_segment("/src/only.mp4", SECOND, 3 * SECOND, "/out.mp4")]
    );
    assert!(plan.cleanup.is_empty());
    assert!(plan.cleanup_on_failure.is_empty());
    for task in &plan.tasks {
        if let Task::Run { args, .. } = task {
            assert!(!args.contains(&"-filter_complex".to_string()));
        }
    }
    let (steps, result) = run(plan, None);
    assert_eq!(result, Ok(()));
    assert_eq!(steps.len(), 2);
}

#[test]
fn transition_plan_of_two_clips() {
    let clips = vec![clip("a", 0, 5 * SECOND, Some("fade")), clip("b", SECOND, 4 * SECOND, None)];
    let plan = concatenate_with_transitions(&clips, "/out.mp4", "/w").unwrap();
    let graph = build_transition_filter(&clips).unwrap();
    assert_eq!(
        plan.tasks,
        vec![
            Task::Run {
                args: strings(&[
                    "-ss", "0", "-i", "/src/a.mp4", "-t", "5", "-c:v", "libx264", "-preset",
                    "superfast", "-crf", "23", "-c:a", "aac", "-b:a", "128k", "-y", "/w/clip_0.mp4",
                ]),
                op: "prepare clip a".to_string(),
            },
            Task::Run {
                args: strings(&[
                    "-ss", "1", "-i", "/src/b.mp4", "-t", "3", "-c:v", "libx264", "-preset",
                    "superfast", "-crf", "23", "-c:a", "aac", "-b:a", "128k", "-y", "/w/clip_1.mp4",
                ]),
                op: "prepare clip b".to_string(),
            },
            Task::Run {
                args: strings(&[
                    "-i", "/w/clip_0.mp4", "-i", "/w/clip_1.mp4", "-filter_complex", &graph, "-map",
                    "[out]", "-map", "[outa]", "-c:v", "libx264", "-preset", "superfast", "-crf",
                    "23", "-c:a", "aac", "-b:a", "128k", "-y", "/out.mp4",
                ]),
                op: "concatenate with transitions".to_string(),
            },
        ]
    );
    assert_eq!(plan.cleanup, strings(&["/w/clip_0.mp4", "/w/clip_1.mp4"]));
    assert_eq!(
        graph,
        "[0:v][1:v]xfade=transition=fade:duration=1:offset=4[out]; [0:a]atrim=0:4[atrim0]; \
         [atrim0]apad=pad_dur=3[apadend0]; [1:a]adelay=4000|4000[adelay1]; \
         [apadend0][adelay1]amix=inputs=2:duration=longest:dropout_transition=0[outa]"
    );
}

#[test]
fn transition_plan_refuses_times_out_of_range() {
    let mut first = clip("a", 0, 5 * SECOND, Some("fade"));
    first.duration = i64::MAX;
    first.transition_duration = Some(i64::MIN);
    let clips = vec![first, clip("b", 0, SECOND, None)];
    assert_eq!(
        concatenate_with_transitions(&clips, "/o.mp4", "/t"),
        Err("Clip times are out of range".to_string())
    );
    assert_eq!(
        create_preview_video(true, true, &clips, Ok(ProjectPaths::new("/p"))),
        Err("Clip times are out of range".to_string())
    );
}

#[test]
fn preview_takes_the_fast_way_without_transitions() {
    let clips = vec![clip("a", 0, SECOND, None), clip("b", 0, SECOND, None)];
    assert!(!has_transitions(&clips));
    let plan = create_preview_video(true, true, &clips, Ok(ProjectPaths::new("/home/u/p"))).unwrap();
    let inner = concatenate_fast(&clips, "/home/u/p/temp/preview.mp4", "/home/u/p/temp").unwrap();
    assert_eq!(plan.output, "/home/u/p/temp/preview.mp4");
    assert_eq!(plan.tasks[0], Task::CreateDir { path: "/home/u/p/temp".to_string() });
    assert_eq!(plan.tasks[1..], inner.tasks[..]);
    assert_eq!(plan.cleanup, inner.cleanup);
    assert_eq!(plan.cleanup_on_failure, strings(&["/home/u/p/temp/preview.mp4"]));
}

#[test]
fn preview_takes_the_way_with_transitions_if_any_clip_asks() {
    let clips = vec![clip("a", 0, 3 * SECOND, None), clip("b", 0, 3 * SECOND, Some("wipe"))];
    assert!(has_transitions(&clips));
    let plan = create_preview_video(true, true, &clips, Ok(ProjectPaths::new("/p"))).unwrap();
    let inner = concatenate_with_transitions(&clips, "/p/temp/preview.mp4", "/p/temp").unwrap();
    assert_eq!(plan.tasks[1..], inner.tasks[..]);
    assert_eq!(plan.tasks.len(), 4);
}

#[test]
fn preview_checks_the_tool_first_then_the_list_then_the_project() {
    let none: Vec<TimelineClip> = Vec::new();
    let clips = vec![clip("a", 0, SECOND, None)];
    assert_eq!(
        create_preview_video(false, true, &none, Err("no project".to_string())),
        Err("AppHandle not available".to_string())
    );
    assert_eq!(
        create_preview_video(true, false, &none, Err("no project".to_string())),
        Err("FFmpeg sidecar not found. Please ensure it's bundled with the app.".to_string())
    );
    assert_eq!(
        create_preview_video(true, true, &none, Err("no project".to_string())),
        Err("No clips to preview".to_string())
    );
    assert_eq!(
        create_preview_video(true, true, &clips, Err("no project".to_string())),
        Err("no project".to_string())
    );
    assert_eq!(verify_ffmpeg_available(true, true), Ok(()));
}

#[test]
fn a_job_does_its_tasks_in_order_and_then_cleans_up() {
    let clips = vec![clip("a", 0, SECOND, None), clip("b", 0, SECOND, None)];
    let plan = concatenate_fast(&clips, "/o.mp4", "/t").unwrap();
    let tasks = plan.tasks.clone();
    let (steps, result) = run(plan, None);
    assert_eq!(result, Ok(()));
    let mut expected: Vec<Step> = tasks.into_iter().map(Step::Perform).collect();
    expected.push(Step::Remove { path: "/t/clip_0.mp4".to_string() });
    expected.push(Step::Remove { path: "/t/clip_1.mp4".to_string() });
    expected.push(Step::Remove { path: "/t/concat_list.txt".to_string() });
    expected.push(Step::Finish { result: Ok(()) });
    assert_eq!(steps, expected);
}

#[test]
fn a_failed_trim_stops_the_work_and_still_cleans_up() {
    let clips = vec![clip("a", 0, SECOND, None), clip("b", 0, SECOND, None), clip("c", 0, SECOND, None)];
    let plan = concatenate_fast(&clips, "/o.mp4", "/t").unwrap();
    let tasks = plan.tasks.clone();
    let (steps, result) = run(plan, Some((1, Event::ToolFailed("b.mp4: No such file".to_string()))));
    assert_eq!(result, Err("FFmpeg trim clip b failed: b.mp4: No such file".to_string()));
    assert_eq!(
        steps,
        vec![
            Step::Perform(tasks[0].clone()),
            Step::Perform(tasks[1].clone()),
            Step::Remove { path: "/t/clip_0.mp4".to_string() },
            Step::Remove { path: "/t/clip_1.mp4".to_string() },
            Step::Remove { path: "/t/clip_2.mp4".to_string() },
            Step::Remove { path: "/t/concat_list.txt".to_string() },
            Step::Finish {
                result: Err("FFmpeg trim clip b failed: b.mp4: No such file".to_string())
            },
        ]
    );
}

#[test]
fn a_failed_preview_removes_the_preview_file() {
    let clips = vec![clip("a", 0, 2 * SECOND, Some("fade")), clip("b", 0, 2 * SECOND, None)];
    let plan = create_preview_video(true, true, &clips, Ok(ProjectPaths::new("/p"))).unwrap();
    let (steps, result) = run(plan, Some((3, Event::ToolFailed("boom".to_string()))));
    assert_eq!(result, Err("FFmpeg concatenate with transitions failed: boom".to_string()));
    let removed: Vec<String> = steps
        .iter()
        .filter_map(|s| match s {
            Step::Remove { path } => Some(path.clone()),
            _ => None,
        })
        .collect();
    assert_eq!(removed, strings(&["/p/temp/clip_0.mp4", "/p/temp/clip_1.mp4", "/p/temp/preview.mp4"]));
    let performed = steps.iter().filter(|s| matches!(s, Step::Perform(_))).count();
    assert_eq!(performed, 4);
}

#[test]
fn a_successful_preview_keeps_the_preview_file() {
    let clips = vec![clip("a", 0, 2 * SECOND, Some("fade")), clip("b", 0, 2 * SECOND, None)];
    let plan = create_preview_video(true, true, &clips, Ok(ProjectPaths::new("/p"))).unwrap();
    let mut job = Job::new(plan);
    assert_eq!(job.output(), "/p/temp/preview.mp4");
    let mut event = Event::Start;
    let mut removed = Vec::new();
    loop {
        match job.step(&event) {
            Step::Perform(_) => event = Event::Done,
            Step::Remove { path } => {
                removed.push(path);
                event = Event::Done;
            }
            Step::Finish { result } => {
                assert_eq!(result, Ok(()));
                break;
            }
        }
    }
    assert_eq!(removed, strings(&["/p/temp/clip_0.mp4", "/p/temp/clip_1.mp4"]));
    assert_eq!(job.step(&Event::Done), Step::Finish { result: Ok(()) });
    assert_eq!(job.step(&Event::ToolFailed("late".to_string())), Step::Finish { result: Ok(()) });
}

#[test]
fn failure_messages_name_what_failed() {
    let clips = vec![clip("a", 0, SECOND, None)];
    let failures = vec![
        (0, Event::IoFailed("denied".to_string()), "Failed to create temp directory: denied"),
        (1, Event::ToolMissing("not bundled".to_string()), "Failed to get ffmpeg sidecar: not bundled"),
        (1, Event::SpawnFailed("ENOENT".to_string()), "Failed to execute ffmpeg for trim clip a: ENOENT"),
        (1, Event::ToolFailed("bad input".to_string()), "FFmpeg trim clip a failed: bad input"),
        (2, Event::IoFailed("disk full".to_string()), "Failed to write concat list: disk full"),
        (3, Event::ToolFailed("x".to_string()), "FFmpeg concatenate videos failed: x"),
    ];
    for (at, event, message) in failures {
        let plan = create_preview_video(true, true, &clips, Ok(ProjectPaths::new("/p"))).unwrap();
        let (steps, result) = run(plan, Some((at, event)));
        assert_eq!(result, Err(message.to_string()));
        let performed = steps.iter().filter(|s| matches!(s, Step::Perform(_))).count();
        assert_eq!(performed, at + 1);
    }
}

#[test]
fn a_failure_reported_before_any_task_is_not_one() {
    let clips = vec![clip("a", 0, SECOND, None)];
    let plan = concatenate_fast(&clips, "/o.mp4", "/t").unwrap();
    let first = plan.tasks[0].clone();
    let mut job = Job::new(plan);
    assert_eq!(job.step(&Event::ToolFailed("stale".to_string())), Step::Perform(first));
    assert!(!job.is_finished());
}

#[test]
fn exit_status_decides_the_outcome_of_a_run() {
    let ok = ToolOutput { success: true, stderr: "warnings only".to_string() };
    assert_eq!(run_outcome("trim video", &ok), Ok(()));
    let failed = ToolOutput { success: false, stderr: "Invalid data found\n".to_string() };
    assert_eq!(
        run_outcome("trim video", &failed),
        Err("FFmpeg trim video failed: Invalid data found\n".to_string())
    );
}

#[test]
fn manifest_lists_files_in_order() {
    assert_eq!(build_manifest(&vec![]), "");
    assert_eq!(
        build_manifest(&strings(&["/t/clip_0.mp4", "/t/clip_1.mp4"])),
        "file '/t/clip_0.mp4'\nfile '/t/clip_1.mp4'\n"
    );
}

#[test]
fn plain_transition_plan_of_two_clips() {
    let clips = vec![clip("a", 0, 5 * SECOND, Some("fade")), clip("b", SECOND, 4 * SECOND, None)];
    let plan = concatenate_videos_with_transitions(&clips, "/out.mp4", "/w").unwrap();
    let synced = concatenate_with_transitions(&clips, "/out.mp4", "/w").unwrap();
    let graph = build_transition_filter_complex(&clips);
    assert_eq!(
        graph,
        "[0:v][1:v]xfade=transition=fade:duration=1:offset=4[out]; \
         [0:a][1:a]concat=n=2:v=0:a=1[outa]"
    );
    assert_eq!(plan.tasks.len(), 3);
    for i in 0..2 {
        match (&plan.tasks[i], &synced.tasks[i]) {
            (Task::Run { args, op }, Task::Run { args: other, .. }) => {
                assert_eq!(args, other);
                assert_eq!(*op, format!("trim and encode clip {}", clips[i].id));
            }
            other => panic!("unexpected tasks {:?}", other),
        }
    }
    assert_eq!(
        plan.tasks[2],
        Task::Run {
            args: strings(&[
                "-i", "/w/clip_0.mp4", "-i", "/w/clip_1.mp4", "-filter_complex", &graph, "-map",
                "[out]", "-map", "[outa]", "-c:v", "libx264", "-preset", "superfast", "-crf",
                "23", "-c:a", "aac", "-b:a", "128k", "-y", "/out.mp4",
            ]),
            op: "concatenate videos with transitions".to_string(),
        }
    );
    assert_eq!(plan.cleanup, strings(&["/w/clip_0.mp4", "/w/clip_1.mp4"]));
    assert!(plan.cleanup_on_failure.is_empty());
    assert_eq!(plan.output, "/out.mp4");
}

#[test]
fn plain_transition_plan_at_its_edges() {
    let none: Vec<TimelineClip> = Vec::new();
    assert_eq!(
        concatenate_videos_with_transitions(&none, "/o.mp4", "/t"),
        Err("No clips to concatenate".to_string())
    );
    let one = vec![clip("only", SECOND, 3 * SECOND, Some("fade"))];
    let plan = concatenate_videos_with_transitions(&one, "/out.mp4", "/t").unwrap();
    assert_eq!(plan.tasks, vec![trim_segment("/src/only.mp4", SECOND, 3 * SECOND, "/out.mp4")]);
    assert!(plan.cleanup.is_empty());
    let mut first = clip("a", 0, 5 * SECOND, Some("fade"));
    first.duration = i64::MAX;
    first.transition_duration = Some(i64::MIN);
    let clips = vec![first, clip("b", 0, SECOND, None)];
    assert_eq!(
        concatenate_videos_with_transitions(&clips, "/o.mp4", "/t"),
        Err("Clip times are out of range".to_string())
    );
}
