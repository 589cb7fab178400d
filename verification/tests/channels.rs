use tsubame::audio::{ApplicationAudioSource, AudioChannelKind};
use tsubame::channels::{
    ApplicationTrack, Channel, ChannelList, DESKTOP_CHANNEL_ID, MICROPHONE_CHANNEL_ID,
};

/// Gain and meter level, as the mixer keeps them beside the routing.
#[derive(Debug, Clone, Copy, PartialEq)]
struct Levels {
    gain: f32,
    level: f32,
}

const UNITY: Levels = Levels { gain: 1.0, level: 0.0 };

fn mixer() -> ChannelList<Levels> {
    ChannelList::with_builtins(UNITY, UNITY)
}

#[test]
fn default_channels_are_desktop_and_microphone() {
    let channels = mixer().channels();
    assert_eq!(channels.len(), 2);
    assert_eq!(channels[0].kind, AudioChannelKind::Desktop);
    assert_eq!(channels[1].kind, AudioChannelKind::Microphone);
}

#[test]
fn custom_channel_can_be_added_removed_and_configured() {
    let mut mixer = mixer();
    let id = mixer.add_channel(Channel::custom("追加音声", UNITY));
    assert!(mixer.set_audio(id, Levels { gain: 0.42, level: 0.0 }));
    assert!(mixer.set_muted(id, true));
    assert!(mixer.set_include_in_stream_mix(id, false));
    assert!(mixer.set_record_individual(id, true));

    let channel = mixer.channel(id).unwrap();
    assert!((channel.audio.gain - 0.42).abs() < 0.0001);
    assert!(channel.muted);
    assert!(!channel.include_in_stream_mix);
    assert!(channel.record_individual);
    assert!(mixer.remove_channel(id));
    assert!(mixer.channel(id).is_none());
}

#[test]
fn built_in_channels_cannot_be_removed() {
    let mut mixer = mixer();
    assert!(!mixer.remove_channel(DESKTOP_CHANNEL_ID));
    assert!(!mixer.remove_channel(MICROPHONE_CHANNEL_ID));
    assert_eq!(mixer.channels().len(), 2);
}

#[test]
fn added_channels_are_numbered_from_one_hundred() {
    let mut mixer = mixer();
    assert_eq!(mixer.add_channel(Channel::custom("a", UNITY)), 100);
    assert_eq!(mixer.add_channel(Channel::custom("b", UNITY)), 101);
    assert!(mixer.remove_channel(100));
    assert_eq!(mixer.add_channel(Channel::custom("c", UNITY)), 102);
    assert_eq!(mixer.next_id(), 103);
    let names: Vec<String> = mixer.channels().into_iter().map(|c| c.name).collect();
    assert_eq!(names, vec!["PC音声", "マイク", "b", "c"]);
}

#[test]
fn removing_an_added_channel_restores_the_list() {
    let mut mixer = mixer();
    let before: Vec<u64> = mixer.channels().iter().map(|c| c.id).collect();
    let id = mixer.add_channel(Channel::custom("一時", UNITY));
    assert!(mixer.remove_channel(id));
    let after: Vec<u64> = mixer.channels().iter().map(|c| c.id).collect();
    assert_eq!(before, after);
    assert!(!mixer.remove_channel(id));
}

#[test]
fn unknown_channel_is_reported_and_nothing_changes() {
    let mut mixer = mixer();
    assert!(!mixer.set_muted(7, true));
    assert!(!mixer.set_enabled(7, false));
    assert!(!mixer.set_audio(7, Levels { gain: 0.0, level: 0.0 }));
    assert!(mixer.channels().iter().all(|c| !c.muted && c.enabled));
}

#[test]
fn application_channel_keeps_capture_process_id() {
    let mut mixer = mixer();
    let source = ApplicationAudioSource::new(42, 40, "Discord.exe", "Discord");
    let id = mixer.add_channel(Channel::application(&source, UNITY));
    let channel = mixer.channel(id).expect("application channel");

    assert_eq!(channel.kind, AudioChannelKind::Application);
    assert_eq!(channel.process_id, Some(40));
    assert!(channel
        .source_id
        .as_deref()
        .unwrap_or_default()
        .contains("pid:40"));
}

#[test]
fn application_channel_is_named_after_the_application() {
    let source = ApplicationAudioSource::new(10, 20, "Game.exe", "My Game");
    let channel = Channel::application(&source, UNITY);
    assert_eq!(channel.source_id.as_deref(), Some("application:pid:20"));
    assert_eq!(channel.name, "My Game");
    assert!(channel.record_individual);

    let discord = ApplicationAudioSource::new(1, 2, "Discord.exe", "Discord");
    assert_eq!(Channel::application(&discord, UNITY).name, "Discord");
    let unnamed = ApplicationAudioSource::new(3, 4, "tool.exe", "  ");
    assert_eq!(Channel::application(&unnamed, UNITY).name, "tool.exe");
}

fn track(channel_id: u64, path: &str, keep: bool) -> ApplicationTrack<Levels> {
    let source = ApplicationAudioSource::new(9, 9, "game.exe", "Game");
    let mut start_channel = Channel::application(&source, UNITY);
    start_channel.id = channel_id;
    start_channel.record_individual = keep;
    ApplicationTrack { channel_id, process_id: 9, path: path.to_owned(), start_channel }
}

#[test]
fn removed_channel_falls_back_to_the_channel_the_track_started_with() {
    let mut mixer = mixer();
    let id = mixer.add_channel(Channel::custom("app", UNITY));
    assert!(mixer.set_muted(id, true));
    let t = track(id, "app.wav", true);
    assert!(mixer.current_or_start_channel(&t).muted);
    assert!(mixer.remove_channel(id));
    let fallback = mixer.current_or_start_channel(&t);
    assert!(!fallback.muted);
    assert_eq!(fallback.name, "Game");
}

#[test]
fn only_tracks_not_kept_individually_are_deleted() {
    let mut mixer = mixer();
    assert!(mixer.unwanted_track_files("mic.wav", "desk.wav", &[]).is_empty());
    assert!(mixer.set_record_individual(MICROPHONE_CHANNEL_ID, false));
    let kept = mixer.add_channel(Channel::custom("kept", UNITY));
    assert!(mixer.set_record_individual(kept, true));
    let dropped = mixer.add_channel(Channel::custom("dropped", UNITY));
    let tracks = [
        track(kept, "kept.wav", false),
        track(dropped, "dropped.wav", true),
        track(999, "gone.wav", false),
    ];
    assert_eq!(
        mixer.unwanted_track_files("mic.wav", "desk.wav", &tracks),
        vec!["mic.wav".to_owned(), "dropped.wav".to_owned(), "gone.wav".to_owned()]
    );
}

#[test]
fn final_mix_routing_follows_the_channels_in_mux_order() {
    let mut mixer = mixer();
    assert!(mixer.set_include_in_stream_mix(DESKTOP_CHANNEL_ID, false));
    let id = mixer.add_channel(Channel::custom("app", UNITY));
    assert!(mixer.set_enabled(id, false));
    let tracks = [track(id, "app.wav", true), track(555, "old.wav", true)];
    assert_eq!(
        mixer.final_mix_routing(&tracks),
        vec![(true, true), (true, false), (false, true), (true, true)]
    );
}
