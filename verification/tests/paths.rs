use sixsevenstudio::projects::paths::{join_path, ProjectPaths};

#[test]
fn joining_paths() {
    assert_eq!(join_path("/a/b", "c"), "/a/b/c");
    assert_eq!(join_path("/a/b/", "c"), "/a/b/c");
    assert_eq!(join_path("", "c"), "c");
    assert_eq!(join_path("/a", "/etc/passwd"), "/etc/passwd");
    assert_eq!(join_path("/a", ""), "/a/");
    assert_eq!(join_path("/", "x"), "/x");
    assert_eq!(join_path("relative", "x/y"), "relative/x/y");
}

#[test]
fn project_layout() {
    let paths = ProjectPaths::new("/home/u/sixsevenstudio/demo");
    assert_eq!(paths.root(), "/home/u/sixsevenstudio/demo");
    assert_eq!(paths.metadata_dir(), "/home/u/sixsevenstudio/demo/.sixseven");
    assert_eq!(paths.metadata_file(), "/home/u/sixsevenstudio/demo/.sixseven/metadata.json");
    assert_eq!(paths.editor_state_file(), "/home/u/sixsevenstudio/demo/.sixseven/editor_state.json");
    assert_eq!(paths.images_dir(), "/home/u/sixsevenstudio/demo/images");
    assert_eq!(paths.image_file("scene_1_reference.jpg"), "/home/u/sixsevenstudio/demo/images/scene_1_reference.jpg");
    assert_eq!(paths.videos_dir(), "/home/u/sixsevenstudio/demo/videos");
    assert_eq!(paths.video_file("v1.mp4"), "/home/u/sixsevenstudio/demo/videos/v1.mp4");
    assert_eq!(paths.storyboard_dir(), "/home/u/sixsevenstudio/demo/storyboard");
    assert_eq!(paths.context_file(), "/home/u/sixsevenstudio/demo/storyboard/context.md");
    assert_eq!(paths.scenes_dir(), "/home/u/sixsevenstudio/demo/storyboard/scenes");
    assert_eq!(paths.scenes_index(), "/home/u/sixsevenstudio/demo/storyboard/scenes/index.json");
    assert_eq!(paths.scene_dir("s1"), "/home/u/sixsevenstudio/demo/storyboard/scenes/s1");
    assert_eq!(paths.scene_file("s1"), "/home/u/sixsevenstudio/demo/storyboard/scenes/s1/scene.md");
    assert_eq!(paths.temp_dir(), "/home/u/sixsevenstudio/demo/temp");
    assert_eq!(paths.preview_file(), "/home/u/sixsevenstudio/demo/temp/preview.mp4");
    assert_eq!(paths.waveforms_dir(), "/home/u/sixsevenstudio/demo/.sixseven/waveforms");
    assert_eq!(paths.waveform_file("c1", 640), "/home/u/sixsevenstudio/demo/.sixseven/waveforms/c1_640.png");
    assert_eq!(paths.sprites_dir(), "/home/u/sixsevenstudio/demo/.sixseven/sprites");
    assert_eq!(paths.sprite_file("c1", 0), "/home/u/sixsevenstudio/demo/.sixseven/sprites/c1_0.png");
}

#[test]
fn project_at_a_root_with_trailing_separator() {
    let paths = ProjectPaths::new("/p/");
    assert_eq!(paths.metadata_file(), "/p/.sixseven/metadata.json");
    assert_eq!(paths.scene_file("a"), "/p/storyboard/scenes/a/scene.md");
}
