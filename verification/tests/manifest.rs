use tsubame::session::{EditManifest, EditMarker, MarkerKind, SessionConfig, StreamPreset};

#[test]
fn new_manifest_has_stable_format_and_default_media() {
    let m = EditManifest::new(SessionConfig::default());
    assert_eq!(m.format, "yaoyorozu_stream_edit");
    assert_eq!(m.version, 1);
    assert_eq!(m.session.preset, StreamPreset::Game);
    assert_eq!(m.media.video, "recording.mp4");
    assert_eq!(m.media.microphone, "microphone.wav");
    assert_eq!(m.media.desktop_audio, "desktop.wav");
    assert!(m.markers.is_empty());
}

#[test]
fn marker_keeps_time_kind_and_label() {
    let marker = EditMarker::new(185420, MarkerKind::Short, "ここ使う");
    assert_eq!(marker.time_ms, 185420);
    assert_eq!(marker.kind, MarkerKind::Short);
    assert_eq!(marker.label, "ここ使う");
}
