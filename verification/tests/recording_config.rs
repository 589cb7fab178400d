use tsubame::recording::{EncoderPreference, RecordingConfig, RecordingError};
use tsubame::session::StreamPreset;

fn config(source_width: u32, output_height: u32) -> RecordingConfig {
    RecordingConfig {
        source_width,
        source_height: 1080,
        output_width: 1920,
        output_height,
        fps: 60,
        bitrate_kbps: 12_000,
        encoder_preference: EncoderPreference::Auto,
    }
}

#[test]
fn recording_needs_every_size_known() {
    assert!(config(1920, 1080).check_dimensions().is_ok());
    assert!(matches!(
        config(0, 1080).check_dimensions(),
        Err(RecordingError::InvalidDimensions)
    ));
    assert!(matches!(
        config(1920, 0).check_dimensions(),
        Err(RecordingError::InvalidDimensions)
    ));
}

#[test]
fn gpu_recorder_gets_output_size_and_bitrate_in_bits() {
    let gpu = config(2560, 1080).gpu_config("rec/video_only.mp4".to_owned());
    assert_eq!(gpu.path, "rec/video_only.mp4");
    assert_eq!((gpu.width, gpu.height, gpu.fps), (1920, 1080, 60));
    assert_eq!(gpu.bitrate_bps, 12_000_000);
}

#[test]
fn recording_takes_output_geometry_from_the_preset() {
    let c = RecordingConfig::for_preset(StreamPreset::Light, 2560, 1440, EncoderPreference::Amf);
    assert_eq!((c.source_width, c.source_height), (2560, 1440));
    assert_eq!((c.output_width, c.output_height, c.fps), (1280, 720, 30));
    assert_eq!(c.bitrate_kbps, 6000);
    assert_eq!(c.encoder_preference, EncoderPreference::Amf);
}
