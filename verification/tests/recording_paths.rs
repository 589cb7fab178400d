use tsubame::paths::{sanitize_track_name, RecordingPaths};

#[test]
fn recording_paths_are_independent_from_ffmpeg_location() {
    let p = RecordingPaths::for_root("recordings/test");
    assert!(p.final_video.ends_with("recording.mp4"));
}

#[test]
fn recording_paths_keep_editor_tracks_separate() {
    let p = RecordingPaths::for_root("recordings/test");
    assert!(p.video_only.ends_with("video_only.mp4"));
    assert!(p.final_video.ends_with("recording.mp4"));
    assert!(p.microphone.ends_with("microphone.wav"));
    assert!(p.desktop_audio.ends_with("desktop.wav"));
    assert!(p.edit_json.ends_with("yaoyorozu_edit.json"));
}

#[test]
fn application_track_path_is_stable_and_safe() {
    let p = RecordingPaths::for_root("recordings/test");
    let path = p.application_audio(100, "Discord");
    assert!(path.ends_with("application_100_discord.wav"));
}

#[test]
fn paths_are_joined_with_a_single_separator() {
    let p = RecordingPaths::for_root("recordings/test/");
    assert_eq!(p.microphone, "recordings/test/microphone.wav");
    let q = RecordingPaths::for_root("");
    assert_eq!(q.edit_json, "yaoyorozu_edit.json");
    assert_eq!(
        RecordingPaths::for_root("r").application_audio(7, "  OBS  Studio!! "),
        "r/application_7_obs_studio.wav"
    );
}

#[test]
fn track_names_are_sanitized() {
    assert_eq!(sanitize_track_name("Discord"), "discord");
    assert_eq!(sanitize_track_name("__A  b__"), "a_b");
    assert_eq!(sanitize_track_name("日本語"), "audio");
    assert_eq!(sanitize_track_name("___"), "audio");
    assert_eq!(sanitize_track_name("Foo-Bar_9"), "foo-bar_9");
}

#[test]
fn timestamped_paths_live_under_base() {
    let p = RecordingPaths::timestamped("recordings");
    assert!(p.root.starts_with("recordings/"));
    assert!(p.final_video.starts_with(&p.root));
}

#[test]
fn timestamped_root_is_named_after_the_local_time() {
    let p = RecordingPaths::timestamped("recordings");
    let stamp = p.root.strip_prefix("recordings/").unwrap();
    let chars: Vec<char> = stamp.chars().collect();
    assert_eq!(chars.len(), 19);
    for (i, c) in chars.iter().enumerate() {
        match i {
            4 | 7 | 13 | 16 => assert_eq!(*c, '-'),
            10 => assert_eq!(*c, '_'),
            _ => assert!(c.is_ascii_digit()),
        }
    }
    assert_eq!(p.edit_json, format!("recordings/{stamp}/yaoyorozu_edit.json"));
}

#[test]
fn sanitizing_twice_changes_nothing() {
    for name in ["My  Game!", "__A  b__", "日本語", "Foo-Bar_9", " - "] {
        let once = sanitize_track_name(name);
        assert_eq!(sanitize_track_name(&once), once);
    }
    assert_eq!(sanitize_track_name("My  Game!"), "my_game");
    assert_eq!(sanitize_track_name("  !? _ "), "audio");
    assert_eq!(sanitize_track_name(" - "), "-");
}
