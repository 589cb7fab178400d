//! How the choices of the settings file are written as names, and read back.
//! A name that is not known reads as the choice that new settings start with.
use vstd::prelude::*;
use crate::capture::PreviewMode;
use crate::recording::EncoderPreference;
use crate::session::StreamPreset;
use crate::streaming::StreamingPlatform;
use crate::text::{chars_of, eq_str};

verus! {

/// The name under which a preset is saved.
pub open spec fn preset_name(p: StreamPreset) -> Seq<char> {
    match p {
        StreamPreset::Game => "game"@,
        StreamPreset::Work => "work"@,
        StreamPreset::Light => "light"@,
    }
}

/// The preset that a saved name stands for; `Game` for any other name.
pub open spec fn preset_named(s: Seq<char>) -> StreamPreset {
    if s == "work"@ {
        StreamPreset::Work
    } else if s == "light"@ {
        StreamPreset::Light
    } else {
        StreamPreset::Game
    }
}

/// The name under which an encoder preference is saved.
pub open spec fn encoder_preference_name(p: EncoderPreference) -> Seq<char> {
    match p {
        EncoderPreference::Auto => "auto"@,
        EncoderPreference::Nvenc => "nvenc"@,
        EncoderPreference::Amf => "amf"@,
        EncoderPreference::QuickSync => "qsv"@,
        EncoderPreference::Cpu => "cpu"@,
    }
}

/// The encoder preference that a saved name stands for; `Amf` for any other name.
pub open spec fn encoder_preference_named(s: Seq<char>) -> EncoderPreference {
    if s == "auto"@ {
        EncoderPreference::Auto
    } else if s == "nvenc"@ {
        EncoderPreference::Nvenc
    } else if s == "qsv"@ {
        EncoderPreference::QuickSync
    } else if s == "cpu"@ {
        EncoderPreference::Cpu
    } else {
        EncoderPreference::Amf
    }
}

/// The name under which a recording preview mode is saved.
pub open spec fn preview_mode_name(m: PreviewMode) -> Seq<char> {
    match m {
        PreviewMode::Fps30 => "fps30"@,
        PreviewMode::Fps15 => "fps15"@,
        PreviewMode::Off => "off"@,
    }
}

/// The preview mode that a saved name stands for; `Fps15` for any other name.
pub open spec fn preview_mode_named(s: Seq<char>) -> PreviewMode {
    if s == "fps30"@ {
        PreviewMode::Fps30
    } else if s == "off"@ {
        PreviewMode::Off
    } else {
        PreviewMode::Fps15
    }
}

/// The name under which a streaming platform is saved.
pub open spec fn platform_name(p: StreamingPlatform) -> Seq<char> {
    match p {
        StreamingPlatform::YouTube => "youtube"@,
        StreamingPlatform::Twitch => "twitch"@,
    }
}

/// The platform that a saved name stands for; `YouTube` for any other name.
pub open spec fn platform_named(s: Seq<char>) -> StreamingPlatform {
    if s == "twitch"@ {
        StreamingPlatform::Twitch
    } else {
        StreamingPlatform::YouTube
    }
}

/// The saved name of a preset.
pub fn preset_setting(p: StreamPreset) -> (s: &'static str)
    ensures
        s@ == preset_name(p),
{
    match p {
        StreamPreset::Game => "game",
        StreamPreset::Work => "work",
        StreamPreset::Light => "light",
    }
}

/// The preset saved under `name`.
pub fn preset_from_setting(name: &str) -> (p: StreamPreset)
    ensures
        p == preset_named(name@),
{
    let cs = chars_of(name);
    if eq_str(cs.as_slice(), "work") {
        StreamPreset::Work
    } else if eq_str(cs.as_slice(), "light") {
        StreamPreset::Light
    } else {
        StreamPreset::Game
    }
}

/// The saved name of an encoder preference.
pub fn encoder_preference_setting(p: EncoderPreference) -> (s: &'static str)
    ensures
        s@ == encoder_preference_name(p),
{
    match p {
        EncoderPreference::Auto => "auto",
        EncoderPreference::Nvenc => "nvenc",
        EncoderPreference::Amf => "amf",
        EncoderPreference::QuickSync => "qsv",
        EncoderPreference::Cpu => "cpu",
    }
}

/// The encoder preference saved under `name`.
pub fn encoder_preference_from_setting(name: &str) -> (p: EncoderPreference)
    ensures
        p == encoder_preference_named(name@),
{
    let cs = chars_of(name);
    let s = cs.as_slice();
    if eq_str(s, "auto") {
        EncoderPreference::Auto
    } else if eq_str(s, "nvenc") {
        EncoderPreference::Nvenc
    } else if eq_str(s, "qsv") {
        EncoderPreference::QuickSync
    } else if eq_str(s, "cpu") {
        EncoderPreference::Cpu
    } else {
        EncoderPreference::Amf
    }
}

/// The saved name of a recording preview mode.
pub fn preview_mode_setting(m: PreviewMode) -> (s: &'static str)
    ensures
        s@ == preview_mode_name(m),
{
    match m {
        PreviewMode::Fps30 => "fps30",
        PreviewMode::Fps15 => "fps15",
        PreviewMode::Off => "off",
    }
}

/// The recording preview mode saved under `name`.
pub fn preview_mode_from_setting(name: &str) -> (m: PreviewMode)
    ensures
        m == preview_mode_named(name@),
{
    let cs = chars_of(name);
    if eq_str(cs.as_slice(), "fps30") {
        PreviewMode::Fps30
    } else if eq_str(cs.as_slice(), "off") {
        PreviewMode::Off
    } else {
        PreviewMode::Fps15
    }
}

/// The saved name of a streaming platform.
pub fn platform_setting(p: StreamingPlatform) -> (s: &'static str)
    ensures
        s@ == platform_name(p),
{
    match p {
        StreamingPlatform::YouTube => "youtube",
        StreamingPlatform::Twitch => "twitch",
    }
}

/// The streaming platform saved under `name`.
pub fn platform_from_setting(name: &str) -> (p: StreamingPlatform)
    ensures
        p == platform_named(name@),
{
    let cs = chars_of(name);
    if eq_str(cs.as_slice(), "twitch") {
        StreamingPlatform::Twitch
    } else {
        StreamingPlatform::YouTube
    }
}

/// The saved names differ from one another, so no two choices share one.
proof fn lemma_setting_names_distinct()
    ensures
        "game"@ != "work"@,
        "game"@ != "light"@,
        "work"@ != "light"@,
        "amf"@ != "auto"@,
        "amf"@ != "nvenc"@,
        "amf"@ != "qsv"@,
        "amf"@ != "cpu"@,
        "auto"@ != "nvenc"@,
        "auto"@ != "qsv"@,
        "auto"@ != "cpu"@,
        "nvenc"@ != "qsv"@,
        "nvenc"@ != "cpu"@,
        "qsv"@ != "cpu"@,
        "fps15"@ != "fps30"@,
        "fps15"@ != "off"@,
        "fps30"@ != "off"@,
        "youtube"@ != "twitch"@,
{
    reveal_strlit("game");
    reveal_strlit("work");
    reveal_strlit("light");
    reveal_strlit("auto");
    reveal_strlit("nvenc");
    reveal_strlit("amf");
    reveal_strlit("qsv");
    reveal_strlit("cpu");
    reveal_strlit("fps30");
    reveal_strlit("fps15");
    reveal_strlit("off");
    reveal_strlit("youtube");
    reveal_strlit("twitch");
    assert("game"@[0] != "work"@[0]);
    assert("game"@[0] != "light"@[0]);
    assert("work"@[0] != "light"@[0]);
    assert("amf"@.len() != "auto"@.len());
    assert("amf"@[0] != "nvenc"@[0]);
    assert("amf"@[0] != "qsv"@[0]);
    assert("amf"@[0] != "cpu"@[0]);
    assert("auto"@[0] != "nvenc"@[0]);
    assert("auto"@[0] != "qsv"@[0]);
    assert("auto"@[0] != "cpu"@[0]);
    assert("nvenc"@[0] != "qsv"@[0]);
    assert("nvenc"@[0] != "cpu"@[0]);
    assert("qsv"@[0] != "cpu"@[0]);
    assert("fps15"@[3] != "fps30"@[3]);
    assert("fps15"@[0] != "off"@[0]);
    assert("fps30"@[0] != "off"@[0]);
    assert("youtube"@[0] != "twitch"@[0]);
}

/// Every choice reads back as itself from the name it is saved under.
pub proof fn lemma_setting_names_round_trip(
    preset: StreamPreset,
    encoder: EncoderPreference,
    mode: PreviewMode,
    platform: StreamingPlatform,
)
    ensures
        preset_named(preset_name(preset)) == preset,
        encoder_preference_named(encoder_preference_name(encoder)) == encoder,
        preview_mode_named(preview_mode_name(mode)) == mode,
        platform_named(platform_name(platform)) == platform,
{
    lemma_setting_names_distinct();
}

/// The names that new settings start with read as the choices that unknown
/// names fall back to: `game`, `amf`, `fps15` and `youtube`.
pub proof fn lemma_default_setting_names()
    ensures
        preset_named("game"@) == StreamPreset::Game,
        encoder_preference_named("amf"@) == EncoderPreference::Amf,
        preview_mode_named("fps15"@) == PreviewMode::Fps15,
        platform_named("youtube"@) == StreamingPlatform::YouTube,
{
    lemma_setting_names_distinct();
}

} // verus!
