use std::time::{Duration, Instant};
use tsubame::capture::PreviewMode;
use tsubame::session::StreamPreset;
use tsubame::ui::{
    capture_restart_needed, desired_preview_mode, MIXER_CHANNELS, SCENE_LABELS, SOURCE_LABELS,
    STREAM_TOOLBAR_LABELS,
};
use tsubame::ui::{
    compact_source_name, default_bitrate, default_encoder, default_platform, default_preset,
    default_recording_preview, default_true, is_supported_bgm, is_supported_library_image,
    main_ui_repaint_ms, mixer_meter_refresh_due, mixer_ui_repaint_ms,
    prefer_selected_or_active_bgm, settings_format_version, toggle_window_open,
    RuntimeFrameCounters,
};

#[test]
fn toolbar_toggle_flips_auxiliary_window_state_both_ways() {
    let mut open = false;
    toggle_window_open(&mut open);
    assert!(open);
    toggle_window_open(&mut open);
    assert!(!open);
}

#[test]
fn deferred_preview_does_not_force_main_ui_to_30fps() {
    assert_eq!(
        main_ui_repaint_ms(false, false, false, PreviewMode::Fps15),
        100
    );
    assert_eq!(
        main_ui_repaint_ms(false, true, false, PreviewMode::Fps15),
        100
    );
}

#[test]
fn recording_and_streaming_repaint_rates() {
    assert_eq!(main_ui_repaint_ms(true, false, true, PreviewMode::Off), 33);
    assert_eq!(main_ui_repaint_ms(false, false, true, PreviewMode::Fps15), 66);
    assert_eq!(main_ui_repaint_ms(false, false, true, PreviewMode::Off), 250);
}

#[test]
fn deferred_mixer_uses_independent_meter_repaint_period() {
    assert_eq!(mixer_ui_repaint_ms(true), 33);
    assert_eq!(mixer_ui_repaint_ms(false), 250);
}

#[test]
fn mixer_meter_refresh_is_capped_at_about_30hz() {
    let start = Instant::now();
    assert!(mixer_meter_refresh_due(None, start));
    assert!(!mixer_meter_refresh_due(Some(start), start + Duration::from_millis(20)));
    assert!(mixer_meter_refresh_due(Some(start), start + Duration::from_millis(34)));
}

#[test]
fn active_bgm_controls_remain_available_when_layer_selection_changes() {
    assert_eq!(prefer_selected_or_active_bgm(Some(10_u64), Some(20_u64)), Some(10));
    assert_eq!(prefer_selected_or_active_bgm(None, Some(20_u64)), Some(20));
    assert_eq!(prefer_selected_or_active_bgm::<u64>(None, None), None);
}

#[test]
fn runtime_frame_counters_track_each_pipeline_independently() {
    let counters = RuntimeFrameCounters::default();
    counters.count_preview_ui_frame();
    counters.count_preview_ui_frame();
    counters.count_mixer_ui_frame();
    counters.count_mixer_meter_update();
    counters.count_streaming_output_frame();
    counters.count_streaming_output_frame();
    counters.count_streaming_output_frame();

    let snapshot = counters.snapshot();
    assert_eq!(snapshot.preview_ui_frames, 2);
    assert_eq!(snapshot.mixer_ui_frames, 1);
    assert_eq!(snapshot.mixer_meter_updates, 1);
    assert_eq!(snapshot.streaming_output_frames, 3);
}

#[test]
fn long_source_name_is_compacted_for_combo_button() {
    let title = "とても長いウィンドウタイトルですこれは配信ソフトの幅を押し広げてはいけません";
    let compact = compact_source_name(title, 18);

    assert!(compact.chars().count() <= 18);
    assert!(compact.ends_with('…'));
}

#[test]
fn short_names_are_kept_and_tiny_widths_handled() {
    assert_eq!(compact_source_name("OBS", 3), "OBS");
    assert_eq!(compact_source_name("OBS", 0), "");
    assert_eq!(compact_source_name("OBS", 1), "…");
    assert_eq!(compact_source_name("Blender", 4), "Ble…");
}

#[test]
fn library_file_types_ignore_case() {
    assert!(is_supported_library_image("image/overlay/Logo.PNG"));
    assert!(is_supported_library_image("a.jpeg"));
    assert!(!is_supported_library_image("a.gif"));
    assert!(!is_supported_library_image(".png"));
    assert!(is_supported_bgm("bgm/track.Flac"));
    assert!(!is_supported_bgm("bgm/track"));
    assert!(!is_supported_bgm("notes.txt"));
}

#[test]
fn settings_defaults() {
    assert_eq!(settings_format_version(), 1);
    assert!(default_true());
    assert_eq!(default_preset(), "game");
    assert_eq!(default_encoder(), "amf");
    assert_eq!(default_recording_preview(), "fps15");
    assert_eq!(default_platform(), "youtube");
    assert_eq!(default_bitrate(), 12_000);
}

#[test]
fn library_files_sort_by_file_name_ignoring_case() {
    let mut files = vec![
        "bgm/b/Zeta.mp3".to_owned(),
        "bgm/alpha.wav".to_owned(),
        "bgm/c/Beta.ogg".to_owned(),
        "bgm/a/beta.ogg".to_owned(),
    ];
    tsubame::ui::sort_library_files(&mut files);
    assert_eq!(
        files,
        vec![
            "bgm/alpha.wav".to_owned(),
            "bgm/c/Beta.ogg".to_owned(),
            "bgm/a/beta.ogg".to_owned(),
            "bgm/b/Zeta.mp3".to_owned(),
        ]
    );
}

#[test]
fn streaming_keeps_the_preview_at_thirty_fps() {
    assert_eq!(desired_preview_mode(true, false, true, PreviewMode::Off, 1920, 1080), PreviewMode::Fps30);
    assert_eq!(desired_preview_mode(false, true, true, PreviewMode::Off, 1920, 1080), PreviewMode::Fps30);
    assert_eq!(desired_preview_mode(false, false, true, PreviewMode::Fps15, 1920, 1080), PreviewMode::Fps15);
    assert_eq!(desired_preview_mode(false, false, true, PreviewMode::Off, 0, 0), PreviewMode::Off);
    assert_eq!(desired_preview_mode(false, false, false, PreviewMode::Fps15, 0, 1080), PreviewMode::Fps30);
    assert_eq!(desired_preview_mode(false, false, false, PreviewMode::Fps15, 1920, 1080), PreviewMode::Off);
}

#[test]
fn preset_change_restarts_capture_only_when_idle_and_fps_differs() {
    assert!(capture_restart_needed(StreamPreset::Work, 60, false, false));
    assert!(!capture_restart_needed(StreamPreset::Game, 60, false, false));
    assert!(!capture_restart_needed(StreamPreset::Light, 60, true, false));
    assert!(!capture_restart_needed(StreamPreset::Light, 60, false, true));
}

#[test]
fn phase9_stream_toolbar_has_stable_labels() {
    assert!(STREAM_TOOLBAR_LABELS.contains(&"録画"));
    assert!(STREAM_TOOLBAR_LABELS.contains(&"配信"));
    assert!(STREAM_TOOLBAR_LABELS.contains(&"録画＋配信"));
    assert!(STREAM_TOOLBAR_LABELS.contains(&"配信先: 未設定"));
}

#[test]
fn phase9_mixer_reserves_three_channels() {
    assert_eq!(MIXER_CHANNELS, ["PC音声", "マイク", "配信Mix"]);
}

#[test]
fn phase9_scene_and_source_shell_has_expected_entries() {
    assert_eq!(SCENE_LABELS, ["ゲーム", "雑談", "作業", "離席"]);
    assert_eq!(
        SOURCE_LABELS,
        ["ゲームキャプチャ", "ワイプ", "画像 / アイコン", "テキスト"]
    );
}
