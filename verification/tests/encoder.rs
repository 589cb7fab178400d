use tsubame::recording::{
    choose_h264_encoder, detect_h264_encoder, detect_h264_encoder_with_preference,
    encoder_candidates, encoder_specific_probe_args, probe_h264_encoder_args,
    probe_result_from_failure, probe_result_from_output, EncoderPreference, EncoderProbeReport,
    EncoderProbeResult, H264Encoder, RecordingError,
};

#[test]
fn encoder_prefers_nvenc_then_amf_then_qsv_then_cpu() {
    assert_eq!(
        choose_h264_encoder("h264_qsv h264_amf h264_nvenc libx264"),
        H264Encoder::Nvenc
    );
    assert_eq!(
        choose_h264_encoder("h264_qsv h264_amf libx264"),
        H264Encoder::Amf
    );
    assert_eq!(
        choose_h264_encoder("h264_qsv libx264"),
        H264Encoder::QuickSync
    );
    assert_eq!(choose_h264_encoder("libx264"), H264Encoder::Cpu);
}

#[test]
fn encoder_name_matches_ffmpeg_codec_name() {
    assert_eq!(H264Encoder::Nvenc.ffmpeg_name(), "h264_nvenc");
    assert_eq!(H264Encoder::Amf.ffmpeg_name(), "h264_amf");
    assert_eq!(H264Encoder::QuickSync.ffmpeg_name(), "h264_qsv");
    assert_eq!(H264Encoder::Cpu.ffmpeg_name(), "libx264");
}

#[test]
fn amd_amf_can_be_explicitly_requested() {
    assert_eq!(EncoderPreference::Amf, EncoderPreference::Amf);
    assert_eq!(H264Encoder::Amf.display_name(), "AMD AMF");
}

fn result(encoder: H264Encoder, available: bool, detail: &str) -> EncoderProbeResult {
    EncoderProbeResult { encoder, available, detail: detail.to_owned() }
}

fn report(results: Vec<EncoderProbeResult>) -> EncoderProbeReport {
    EncoderProbeReport { ffmpeg_path: "ffmpeg".to_owned(), results }
}

#[test]
fn best_encoder_follows_priority_among_available_ones() {
    let r = report(vec![
        result(H264Encoder::Cpu, true, "ok"),
        result(H264Encoder::QuickSync, true, "ok"),
        result(H264Encoder::Nvenc, false, "no gpu"),
    ]);
    assert_eq!(r.best(), Some(H264Encoder::QuickSync));
    assert!(r.is_available(H264Encoder::Cpu));
    assert!(!r.is_available(H264Encoder::Nvenc));
    assert_eq!(r.detail_for(H264Encoder::Nvenc), Some("no gpu"));
    assert_eq!(r.detail_for(H264Encoder::Amf), None);
    assert_eq!(report(vec![]).best(), None);
}

#[test]
fn auto_preference_takes_best_encoder() {
    let r = report(vec![
        result(H264Encoder::Amf, true, "初期化成功"),
        result(H264Encoder::Cpu, true, "初期化成功"),
    ]);
    let (encoder, back) = detect_h264_encoder_with_preference(EncoderPreference::Auto, r).unwrap();
    assert_eq!(encoder, H264Encoder::Amf);
    assert_eq!(back.results.len(), 2);
}

#[test]
fn explicit_preference_for_failed_encoder_reports_its_detail() {
    let r = report(vec![result(H264Encoder::Nvenc, false, "no device")]);
    match detect_h264_encoder_with_preference(EncoderPreference::Nvenc, r) {
        Err(RecordingError::Ffmpeg(m)) => assert_eq!(m, "NVIDIA NVENC を初期化できません: no device"),
        other => panic!("unexpected {other:?}"),
    }
    let r = report(vec![]);
    match detect_h264_encoder_with_preference(EncoderPreference::QuickSync, r) {
        Err(RecordingError::Ffmpeg(m)) => assert_eq!(m, "Intel Quick Sync を初期化できません: 初期化失敗"),
        other => panic!("unexpected {other:?}"),
    }
}

#[test]
fn no_available_encoder_is_an_error() {
    let r = report(vec![result(H264Encoder::Cpu, false, "x")]);
    match detect_h264_encoder(r) {
        Err(RecordingError::Ffmpeg(m)) => assert_eq!(m, "利用可能なH.264エンコーダーがありません"),
        other => panic!("unexpected {other:?}"),
    }
}

#[test]
fn probe_arguments_name_the_encoder_and_its_options() {
    let args = probe_h264_encoder_args(H264Encoder::Amf);
    assert_eq!(
        args,
        vec![
            "-hide_banner", "-loglevel", "error", "-f", "lavfi", "-i",
            "testsrc2=size=1920x1080:rate=60", "-frames:v", "12", "-pix_fmt", "yuv420p",
            "-c:v", "h264_amf", "-usage", "transcoding", "-quality", "speed",
            "-b:v", "6000k", "-f", "null", "-",
        ]
    );
    assert_eq!(encoder_specific_probe_args(H264Encoder::Nvenc), vec!["-preset", "p1", "-tune", "ll"]);
    assert_eq!(encoder_specific_probe_args(H264Encoder::Cpu), vec!["-preset", "veryfast"]);
    assert_eq!(
        encoder_candidates(),
        vec![H264Encoder::Nvenc, H264Encoder::Amf, H264Encoder::QuickSync, H264Encoder::Cpu]
    );
}

#[test]
fn probe_result_uses_trimmed_error_text_or_status() {
    let ok = probe_result_from_output(H264Encoder::Cpu, true, "  \n", "exit status: 0");
    assert!(ok.available);
    assert_eq!(ok.detail, "初期化成功");
    let failed = probe_result_from_output(H264Encoder::Amf, false, "", "exit status: 1");
    assert_eq!(failed.detail, "終了コード: exit status: 1");
    let noisy = probe_result_from_output(H264Encoder::Amf, false, "\n  device not found \n", "exit status: 1");
    assert_eq!(noisy.detail, "device not found");
    let missing = probe_result_from_failure(H264Encoder::Nvenc, "FFmpegが見つかりません");
    assert!(!missing.available);
    assert_eq!(missing.detail, "FFmpegが見つかりません");
}

#[test]
fn recording_error_messages() {
    assert_eq!(RecordingError::FfmpegMissing.message(), "FFmpegが見つかりません");
    assert_eq!(RecordingError::Io("disk".to_owned()).message(), "I/Oエラー: disk");
    assert_eq!(RecordingError::InvalidDimensions.message(), "プレビュー映像のサイズが未確定です");
    assert_eq!(EncoderPreference::default(), EncoderPreference::Auto);
}

#[test]
fn final_mux_copies_video_and_encodes_the_mixed_tracks() {
    let tracks = vec!["rec/mic.wav".to_owned(), "rec/desktop.wav".to_owned()];
    let args = tsubame::recording::final_mux_args(
        "rec/video.mp4",
        &tracks,
        Some("[1:a]volume=1.0000[route0];[route0]volume=1.0000,alimiter=limit=0.98[a]"),
        "rec/final.mp4",
    );
    let expected: Vec<&str> = vec![
        "-y", "-hide_banner", "-loglevel", "warning", "-i", "rec/video.mp4",
        "-i", "rec/mic.wav", "-i", "rec/desktop.wav",
        "-filter_complex",
        "[1:a]volume=1.0000[route0];[route0]volume=1.0000,alimiter=limit=0.98[a]",
        "-map", "0:v:0", "-map", "[a]", "-c:v", "copy", "-c:a", "aac", "-b:a", "192k",
        "-shortest", "-movflags", "+faststart", "rec/final.mp4",
    ];
    assert_eq!(args, expected);
}

#[test]
fn final_mux_without_audio_drops_the_audio_stream() {
    let args = tsubame::recording::final_mux_args("v.mp4", &[], None, "out.mp4");
    let expected: Vec<&str> = vec![
        "-y", "-hide_banner", "-loglevel", "warning", "-i", "v.mp4",
        "-map", "0:v:0", "-c:v", "copy", "-an", "-movflags", "+faststart", "out.mp4",
    ];
    assert_eq!(args, expected);
}
