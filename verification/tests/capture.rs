use std::sync::Arc;
use std::time::Duration;
use tsubame::capture::{
    pack_pitched_rgba, CaptureBackend, CaptureError, CaptureFrame, CaptureSource,
    window_list, GpuRecordingConfig, GpuRecordingStatus, PreviewMode, PreviewPolicy, WindowInfo,
};

#[test]
fn cloned_capture_frames_share_the_same_pixel_storage() {
    let a = CaptureFrame::test(1, 1920, 1080);
    let b = a.clone();

    assert_eq!(a.rgba.len(), b.rgba.len());
    assert!(Arc::ptr_eq(&a.rgba, &b.rgba));
}

#[test]
fn capture_frame_uses_rgba_byte_count() {
    let f = CaptureFrame::test(7, 3, 4);
    assert_eq!(f.rgba.len(), 3 * 4 * 4);
}

#[test]
fn capture_source_has_human_readable_name() {
    assert_eq!(CaptureSource::Desktop.display_name(), "デスクトップ全体");

    let source = CaptureSource::Window(WindowInfo {
        hwnd: 123,
        title: "Blender".to_owned(),
    });
    assert_eq!(source.display_name(), "Blender");
}

#[test]
fn phase5_default_backend_is_windows_graphics_capture() {
    assert_eq!(
        CaptureBackend::default(),
        CaptureBackend::WindowsGraphicsCapture
    );
}

#[test]
fn gpu_recording_contract_targets_h264_geometry_and_fps() {
    let cfg = GpuRecordingConfig {
        path: "recordings/test/video_only.mp4".into(),
        width: 1920,
        height: 1080,
        fps: 60,
        bitrate_bps: 6_000_000,
    };

    assert_eq!(cfg.width, 1920);
    assert_eq!(cfg.height, 1080);
    assert_eq!(cfg.fps, 60);
    assert_eq!(GpuRecordingStatus::Idle, GpuRecordingStatus::Idle);
}

#[test]
fn recording_default_preview_is_fifteen_fps() {
    let policy = PreviewPolicy::for_recording(PreviewMode::Fps15);
    assert_eq!(policy.target_fps(), Some(15));
    assert_eq!(policy.interval(), Some(Duration::from_secs_f64(1.0 / 15.0)));
}

#[test]
fn disabled_preview_requests_no_cpu_readback() {
    let policy = PreviewPolicy::for_recording(PreviewMode::Off);
    assert_eq!(policy.target_fps(), None);
    assert_eq!(policy.interval(), None);
}

#[test]
fn normal_preview_remains_thirty_fps() {
    assert_eq!(PreviewPolicy::normal().target_fps(), Some(30));
}

#[test]
fn normal_preview_interval_is_one_thirtieth_second() {
    assert_eq!(PreviewPolicy::normal().interval(), Some(Duration::from_secs_f64(1.0 / 30.0)));
    assert_eq!(PreviewMode::default(), PreviewMode::Fps30);
    assert_eq!(GpuRecordingStatus::default(), GpuRecordingStatus::Idle);
}

#[test]
fn recording_preview_mode_can_switch_between_15fps_and_off() {
    assert_ne!(PreviewMode::Fps15, PreviewMode::Off);
}

#[test]
fn pitched_rows_are_compacted_without_padding() {
    let src = vec![
        1, 2, 3, 4, 5, 6, 7, 8, 99, 99, 99, 99, 9, 10, 11, 12, 13, 14, 15, 16, 88, 88, 88, 88,
    ];

    let packed = pack_pitched_rgba(&src, 12, 2, 2);

    assert_eq!(
        packed,
        vec![1, 2, 3, 4, 5, 6, 7, 8, 9, 10, 11, 12, 13, 14, 15, 16,]
    );
}

#[test]
fn zero_geometry_produces_empty_preview_buffer() {
    assert!(pack_pitched_rgba(&[], 0, 0, 0).is_empty());
}

#[test]
fn short_pitch_or_short_source_produces_empty_buffer() {
    let src = vec![0u8; 32];
    assert!(pack_pitched_rgba(&src, 4, 2, 2).is_empty());
    assert!(pack_pitched_rgba(&src, 8, 2, 5).is_empty());
    assert_eq!(pack_pitched_rgba(&src, 8, 2, 4).len(), 32);
}

#[test]
fn hresult_e_fail_value_is_stable() {
    let value = 0x80004005u32 as i32;
    assert_eq!(value as u32, 0x80004005);
}

#[test]
fn capture_error_messages() {
    assert_eq!(CaptureError::Backend("x".to_owned()).message(), "WGCエラー: x");
    assert_eq!(CaptureError::WindowUnavailable.message(), "選択したウィンドウをキャプチャできません");
}

#[test]
fn window_list_is_trimmed_sorted_and_deduplicated() {
    let w = |hwnd: isize, title: &str| WindowInfo { hwnd, title: title.to_owned() };
    let list = window_list(&[w(3, "  zeta "), w(1, "Alpha"), w(2, "   "), w(1, "alpha"), w(4, "Ärger")]);
    assert_eq!(list, vec![w(1, "Alpha"), w(3, "zeta"), w(4, "Ärger")]);
}

#[test]
fn test_frames_are_black() {
    let f = CaptureFrame::test(2, 5, 2);
    assert_eq!(f.rgba.len(), 5 * 2 * 4);
    assert!(f.rgba.iter().all(|b| *b == 0));
}
