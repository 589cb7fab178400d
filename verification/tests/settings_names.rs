use tsubame::capture::PreviewMode;
use tsubame::recording::EncoderPreference;
use tsubame::session::StreamPreset;
use tsubame::settings::{
    encoder_preference_from_setting, encoder_preference_setting, platform_from_setting,
    platform_setting, preset_from_setting, preset_setting, preview_mode_from_setting,
    preview_mode_setting,
};
use tsubame::streaming::StreamingPlatform;
use tsubame::ui::{default_encoder, default_platform, default_preset, default_recording_preview};

#[test]
fn every_choice_reads_back_from_its_saved_name() {
    for preset in [StreamPreset::Game, StreamPreset::Work, StreamPreset::Light] {
        assert_eq!(preset_from_setting(preset_setting(preset)), preset);
    }
    for pref in [
        EncoderPreference::Auto,
        EncoderPreference::Nvenc,
        EncoderPreference::Amf,
        EncoderPreference::QuickSync,
        EncoderPreference::Cpu,
    ] {
        assert_eq!(encoder_preference_from_setting(encoder_preference_setting(pref)), pref);
    }
    for mode in [PreviewMode::Fps30, PreviewMode::Fps15, PreviewMode::Off] {
        assert_eq!(preview_mode_from_setting(preview_mode_setting(mode)), mode);
    }
    for platform in [StreamingPlatform::YouTube, StreamingPlatform::Twitch] {
        assert_eq!(platform_from_setting(platform_setting(platform)), platform);
    }
}

#[test]
fn saved_names_are_the_lowercase_short_forms() {
    assert_eq!(preset_setting(StreamPreset::Work), "work");
    assert_eq!(encoder_preference_setting(EncoderPreference::QuickSync), "qsv");
    assert_eq!(encoder_preference_setting(EncoderPreference::Cpu), "cpu");
    assert_eq!(preview_mode_setting(PreviewMode::Off), "off");
    assert_eq!(platform_setting(StreamingPlatform::Twitch), "twitch");
}

#[test]
fn unknown_names_fall_back_to_the_defaults_of_new_settings() {
    assert_eq!(preset_from_setting("streaming"), StreamPreset::Game);
    assert_eq!(encoder_preference_from_setting("x264"), EncoderPreference::Amf);
    assert_eq!(encoder_preference_from_setting("NVENC"), EncoderPreference::Amf);
    assert_eq!(preview_mode_from_setting("fps60"), PreviewMode::Fps15);
    assert_eq!(platform_from_setting(""), StreamingPlatform::YouTube);
    assert_eq!(preset_from_setting(&default_preset()), StreamPreset::Game);
    assert_eq!(encoder_preference_from_setting(&default_encoder()), EncoderPreference::Amf);
    assert_eq!(preview_mode_from_setting(&default_recording_preview()), PreviewMode::Fps15);
    assert_eq!(platform_from_setting(&default_platform()), StreamingPlatform::YouTube);
}
