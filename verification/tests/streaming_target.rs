use tsubame::streaming::{
    next_tick_after_write, pace_action, stream_start_args, streaming_ffmpeg_args, PaceAction, summarize_diagnostics, StreamingError, StreamingPlatform,
    StreamingTargetConfig,
};

#[test]
fn youtube_accepts_rtmp_and_rtmps() {
    for url in [
        "rtmp://x.rtmp.youtube.com/live2",
        "rtmps://a.rtmps.youtube.com/live2",
    ] {
        let mut target = StreamingTargetConfig::new(StreamingPlatform::YouTube);
        target.server_url = url.to_owned();
        target.stream_key = "test-key".to_owned();
        assert!(target.is_ready(), "url should be accepted: {url}");
    }
}

#[test]
fn provider_mismatch_is_rejected() {
    let mut twitch = StreamingTargetConfig::new(StreamingPlatform::Twitch);
    twitch.server_url = "rtmp://x.rtmp.youtube.com/live2".to_owned();
    twitch.stream_key = "test-key".to_owned();
    assert!(!twitch.is_ready());

    let mut youtube = StreamingTargetConfig::new(StreamingPlatform::YouTube);
    youtube.server_url = "rtmps://live.twitch.tv/app".to_owned();
    youtube.stream_key = "test-key".to_owned();
    assert!(!youtube.is_ready());
}

#[test]
fn switching_platform_resets_service_specific_fields() {
    let mut target = StreamingTargetConfig::new(StreamingPlatform::YouTube);
    target.server_url = "rtmp://x.rtmp.youtube.com/live2".to_owned();
    target.stream_key = "secret".to_owned();
    target.video_bitrate_kbps = 12_000;

    target.set_platform(StreamingPlatform::Twitch);

    assert_eq!(target.platform, StreamingPlatform::Twitch);
    assert!(target.server_url.is_empty());
    assert!(target.stream_key.is_empty());
    assert_eq!(target.video_bitrate_kbps, 6_000);
}

#[test]
fn same_platform_keeps_fields() {
    let mut target = StreamingTargetConfig::default();
    target.server_url = "rtmps://a/live2".to_owned();
    target.set_platform(StreamingPlatform::YouTube);
    assert_eq!(target.server_url, "rtmps://a/live2");
}

#[test]
fn readiness_messages_follow_check_order() {
    let mut t = StreamingTargetConfig::new(StreamingPlatform::YouTube);
    assert_eq!(t.readiness_message(), "ストリームキーを入力してください");
    t.stream_key = "k".to_owned();
    assert_eq!(t.readiness_message(), "サーバーURLを入力してください");
    t.server_url = "http://x".to_owned();
    assert_eq!(t.readiness_message(), "サーバーURLは rtmp:// または rtmps:// で始まる必要があります");
    t.server_url = "rtmp://live.TWITCH.tv/app".to_owned();
    assert_eq!(t.readiness_message(), "YouTube選択中です。TwitchのURLは使用できません");
    t.server_url = "rtmp://a.rtmp.youtube.com/live2".to_owned();
    assert_eq!(t.readiness_message(), "配信先設定: 準備OK（YouTubeはRTMPSも推奨）");
    assert_eq!(t.connection_label(), "YouTube: 設定済み");
    t.set_platform(StreamingPlatform::Twitch);
    assert_eq!(t.connection_label(), "Twitch: 未設定");
    t.stream_key = "k".to_owned();
    t.server_url = "rtmp://youtu.be/x".to_owned();
    assert_eq!(t.readiness_message(), "Twitch選択中です。YouTubeのURLは使用できません");
    t.server_url = "rtmps://live.twitch.tv/app".to_owned();
    assert_eq!(t.readiness_message(), "配信先設定: 準備OK");
}

#[test]
fn publish_url_joins_base_and_key() {
    let mut t = StreamingTargetConfig::new(StreamingPlatform::YouTube);
    assert!(matches!(t.publish_url(), Err(StreamingError::InvalidTarget)));
    t.server_url = "  rtmps://a.rtmps.youtube.com/live2// ".to_owned();
    t.stream_key = " /abc-key ".to_owned();
    assert_eq!(t.publish_url().unwrap(), "rtmps://a.rtmps.youtube.com/live2/abc-key");
    assert_eq!(StreamingPlatform::Twitch.label(), "Twitch");
    assert_eq!(StreamingPlatform::all(), [StreamingPlatform::YouTube, StreamingPlatform::Twitch]);
    assert_eq!(StreamingError::Spawn("x".into()).message(), "配信プロセス開始失敗: x");
}

#[test]
fn stream_arguments_without_live_audio_use_silence() {
    let mut t = StreamingTargetConfig::new(StreamingPlatform::Twitch);
    t.server_url = "rtmp://live.twitch.tv/app".to_owned();
    t.stream_key = "key".to_owned();
    t.video_bitrate_kbps = 100;
    let args = streaming_ffmpeg_args(&t, 1920, 1080, 1280, 720, 10, &[]).unwrap();
    let joined = args.join(" ");
    assert!(joined.starts_with("-hide_banner -loglevel info -thread_queue_size 4 -f rawvideo -pixel_format rgba -video_size 1920x1080 -framerate 10 -i pipe:0 -f lavfi -i anullsrc=r=44100:cl=stereo"));
    assert!(joined.contains("-vf scale=1280:720:flags=bicubic,format=yuv420p"));
    assert!(joined.contains("-b:v 500k -minrate 500k -maxrate 500k -bufsize 1000k -g 30 -keyint_min 30"));
    assert!(joined.contains("-map 1:a:0 -c:a aac"));
    assert_eq!(args.last().unwrap(), "rtmp://live.twitch.tv/app/key");
}

#[test]
fn stream_arguments_mix_live_audio_inputs() {
    let mut t = StreamingTargetConfig::new(StreamingPlatform::YouTube);
    t.server_url = "rtmps://a.rtmps.youtube.com/live2".to_owned();
    t.stream_key = "key".to_owned();
    let args = streaming_ffmpeg_args(&t, 1920, 1080, 1920, 1080, 60, &[5000, 5001]).unwrap();
    let joined = args.join(" ");
    assert!(joined.contains("-i udp://127.0.0.1:5000?fifo_size=1048576&overrun_nonfatal=1"));
    assert!(joined.contains("-i udp://127.0.0.1:5001?fifo_size=1048576&overrun_nonfatal=1"));
    assert!(joined.contains("-g 120"));
    assert!(joined.contains("-filter_complex [1:a]aresample=async=1:first_pts=0[a0];[2:a]aresample=async=1:first_pts=0[a1];[a0][a1]amix=inputs=2:normalize=0:dropout_transition=2,alimiter=limit=0.95,aresample=44100[aout] -map [aout]"));
}

#[test]
fn stream_arguments_report_why_they_cannot_start() {
    let t = StreamingTargetConfig::default();
    assert!(matches!(streaming_ffmpeg_args(&t, 1, 1, 1, 1, 30, &[]), Err(StreamingError::InvalidTarget)));
    let mut ready = t.clone();
    ready.server_url = "rtmps://x/live2".to_owned();
    ready.stream_key = "k".to_owned();
    match streaming_ffmpeg_args(&ready, 0, 1080, 1, 1, 30, &[]) {
        Err(StreamingError::Spawn(m)) => assert_eq!(m, "映像ソースのサイズを取得できていません"),
        other => panic!("unexpected {other:?}"),
    }
}

#[test]
fn diagnostics_keep_last_four_nonblank_lines() {
    assert_eq!(summarize_diagnostics("a\n\n  \nb\r\nc\nd\ne\n"), "b | c | d | e");
    assert_eq!(summarize_diagnostics("only line"), "only line");
    assert_eq!(summarize_diagnostics("x\ny"), "x | y");
    assert_eq!(summarize_diagnostics(" \n\t\n"), "FFmpegから診断メッセージはありませんでした");
    assert_eq!(summarize_diagnostics(""), "FFmpegから診断メッセージはありませんでした");
}

fn ready_target() -> StreamingTargetConfig {
    let mut t = StreamingTargetConfig::new(StreamingPlatform::YouTube);
    t.server_url = "rtmps://a.rtmp.youtube.com/live2".to_owned();
    t.stream_key = "abcd".to_owned();
    t
}

#[test]
fn stream_start_checks_target_then_ffmpeg_then_source_size() {
    let empty = StreamingTargetConfig::new(StreamingPlatform::YouTube);
    assert!(matches!(
        stream_start_args(&empty, false, 0, 0, 1920, 1080, 60, &[]),
        Err(StreamingError::InvalidTarget)
    ));
    assert!(matches!(
        stream_start_args(&ready_target(), false, 0, 0, 1920, 1080, 60, &[]),
        Err(StreamingError::FfmpegMissing)
    ));
    assert!(matches!(
        stream_start_args(&ready_target(), true, 0, 1080, 1920, 1080, 60, &[]),
        Err(StreamingError::Spawn(_))
    ));
    let args = stream_start_args(&ready_target(), true, 1920, 1080, 1920, 1080, 60, &[]).unwrap();
    let direct = streaming_ffmpeg_args(&ready_target(), 1920, 1080, 1920, 1080, 60, &[]).unwrap();
    assert_eq!(args, direct);
    assert_eq!(args.last().unwrap(), "rtmps://a.rtmp.youtube.com/live2/abcd");
}

#[test]
fn frames_are_written_on_ticks_and_never_fall_far_behind() {
    assert_eq!(pace_action(100, 150), PaceAction::Wait(50));
    assert_eq!(pace_action(150, 150), PaceAction::Write);
    assert_eq!(pace_action(400, 150), PaceAction::Write);
    // On time: the next tick is one interval later.
    assert_eq!(next_tick_after_write(1_000, 100, 1_050), 1_100);
    // One interval behind is still caught up by writing.
    assert_eq!(next_tick_after_write(1_000, 100, 1_200), 1_100);
    // Further behind: restart one interval after now.
    assert_eq!(next_tick_after_write(1_000, 100, 1_500), 1_600);
}
