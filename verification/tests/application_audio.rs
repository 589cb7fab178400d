use tsubame::audio::{
    application_source_label, application_sources_from_sessions, sort_application_sources,
    root_process_for_audio_session, ApplicationAudioSource, AudioSessionInfo, ProcessInfo,
};

#[test]
fn discord_is_sorted_before_other_applications() {
    let mut sources = vec![
        ApplicationAudioSource::new(200, 200, "chrome.exe", "Chrome"),
        ApplicationAudioSource::new(100, 100, "Discord.exe", "Discord"),
    ];

    sort_application_sources(&mut sources);

    assert_eq!(sources[0].process_name.to_ascii_lowercase(), "discord.exe");
}

#[test]
fn application_source_label_marks_discord() {
    let discord = ApplicationAudioSource::new(100, 100, "Discord.exe", "Discord");
    assert!(application_source_label(&discord).contains("Discord"));
}

#[test]
fn labels_fall_back_to_process_name_and_show_pid() {
    let chrome = ApplicationAudioSource::new(1, 42, " chrome.exe ", "   ");
    assert_eq!(application_source_label(&chrome), "chrome.exe (PID 42)");
    let discord = ApplicationAudioSource::new(1, 7, "discord.exe", " Voice ");
    assert_eq!(application_source_label(&discord), "★ Discord — Voice");
    assert!(ApplicationAudioSource::new(1, 1, "x", "DISCORD Canary").is_discord());
    assert!(!ApplicationAudioSource::new(1, 1, "x", "Disc ord").is_discord());
}

#[test]
fn sources_sort_by_label_then_pid_and_keep_equal_order() {
    let mut sources = vec![
        ApplicationAudioSource::new(1, 9, "b.exe", "beta"),
        ApplicationAudioSource::new(2, 3, "a.exe", "Alpha"),
        ApplicationAudioSource::new(3, 3, "a2.exe", "alpha"),
        ApplicationAudioSource::new(4, 1, "d.exe", "Discord"),
    ];
    sort_application_sources(&mut sources);
    let order: Vec<u32> = sources.iter().map(|s| s.session_process_id).collect();
    assert_eq!(order, vec![4, 2, 3, 1]);
}

fn session(pid: u32, capture: u32, exe: &str, display: &str) -> AudioSessionInfo {
    AudioSessionInfo {
        session_process_id: pid,
        capture_process_id: capture,
        process_name: exe.to_owned(),
        session_display_name: display.to_owned(),
    }
}

#[test]
fn sessions_list_each_capture_process_once_with_discord_first() {
    let sessions = vec![
        session(0, 0, "System", ""),
        session(500, 500, "zeta.exe", ""),
        session(77, 77, "self.exe", "Me"),
        session(301, 300, "Discord.exe", ""),
        session(302, 300, "Discord.exe", "Discord voice"),
        session(400, 400, "Alpha.exe.exe", "  "),
    ];
    let sources = application_sources_from_sessions(&sessions, 77);
    let summary: Vec<(u32, u32, String)> = sources
        .iter()
        .map(|s| (s.session_process_id, s.capture_process_id, s.display_name.clone()))
        .collect();
    assert_eq!(
        summary,
        vec![
            (301, 300, "Discord".to_owned()),
            (400, 400, "Alpha".to_owned()),
            (500, 500, "zeta".to_owned()),
        ]
    );
}

#[test]
fn no_sessions_give_no_sources() {
    assert!(application_sources_from_sessions(&[], 1).is_empty());
}

fn process(pid: u32, parent: Option<u32>, name: &str) -> ProcessInfo {
    ProcessInfo { pid, parent, name: name.to_owned() }
}

#[test]
fn audio_session_climbs_to_the_topmost_same_named_parent() {
    let table = vec![
        process(1, None, "explorer.exe"),
        process(10, Some(1), "Discord.exe"),
        process(11, Some(10), "discord.exe"),
        process(12, Some(11), "Discord.exe"),
        process(20, Some(99), "game.exe"),
    ];
    assert_eq!(root_process_for_audio_session(&table, 12), (10, "Discord.exe".to_owned()));
    assert_eq!(root_process_for_audio_session(&table, 20), (20, "game.exe".to_owned()));
    assert_eq!(root_process_for_audio_session(&table, 1), (1, "explorer.exe".to_owned()));
    assert_eq!(root_process_for_audio_session(&table, 77), (77, "PID 77".to_owned()));
}
