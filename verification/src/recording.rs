//! H.264 encoder choice, recording timing, and the files of a recording.
use vstd::prelude::*;
use std::time::Duration;
use crate::capture::GpuRecordingConfig;
use crate::session::{preset_dimensions, StreamPreset};
use crate::streaming::{push_arg, push_args, views};
use crate::text::{chars_of, contains, contains_str, push_str, string_from_chars, trim, trim_chars};

verus! {

// ---------------------------------------------------------------------------
// Encoders
// ---------------------------------------------------------------------------

/// The H.264 encoders that FFmpeg can drive.
#[derive(Debug, Clone, Copy, PartialEq, Eq, Structural)]
pub enum H264Encoder {
    Nvenc,
    Amf,
    QuickSync,
    Cpu,
}

/// FFmpeg's codec name for an encoder.
pub open spec fn ffmpeg_codec_name(e: H264Encoder) -> Seq<char> {
    match e {
        H264Encoder::Nvenc => "h264_nvenc"@,
        H264Encoder::Amf => "h264_amf"@,
        H264Encoder::QuickSync => "h264_qsv"@,
        H264Encoder::Cpu => "libx264"@,
    }
}

/// The name shown to users for an encoder.
pub open spec fn encoder_display_name(e: H264Encoder) -> Seq<char> {
    match e {
        H264Encoder::Nvenc => "NVIDIA NVENC"@,
        H264Encoder::Amf => "AMD AMF"@,
        H264Encoder::QuickSync => "Intel Quick Sync"@,
        H264Encoder::Cpu => "CPU libx264"@,
    }
}

impl H264Encoder {
    /// FFmpeg's codec name (`-c:v`) for this encoder.
    pub fn ffmpeg_name(self) -> (s: &'static str)
        ensures
            s@ == ffmpeg_codec_name(self),
    {
        match self {
            H264Encoder::Nvenc => "h264_nvenc",
            H264Encoder::Amf => "h264_amf",
            H264Encoder::QuickSync => "h264_qsv",
            H264Encoder::Cpu => "libx264",
        }
    }

    /// The name shown to users for this encoder.
    pub fn display_name(self) -> (s: &'static str)
        ensures
            s@ == encoder_display_name(self),
    {
        match self {
            H264Encoder::Nvenc => "NVIDIA NVENC",
            H264Encoder::Amf => "AMD AMF",
            H264Encoder::QuickSync => "Intel Quick Sync",
            H264Encoder::Cpu => "CPU libx264",
        }
    }
}

/// Which encoder the user asked for; `Auto` picks the best available one.
#[derive(Debug, Clone, Copy, PartialEq, Eq, Structural)]
pub enum EncoderPreference {
    Auto,
    Nvenc,
    Amf,
    QuickSync,
    Cpu,
}

impl Default for EncoderPreference {
    /// The preference defaults to `Auto`.
    fn default() -> (p: Self)
        ensures
            p == EncoderPreference::Auto,
    {
        EncoderPreference::Auto
    }
}

/// The outcome of trying one encoder.
#[derive(Debug, Clone)]
pub struct EncoderProbeResult {
    pub encoder: H264Encoder,
    pub available: bool,
    pub detail: String,
}

/// The outcome of trying every encoder with one FFmpeg.
#[derive(Debug, Clone)]
pub struct EncoderProbeReport {
    pub ffmpeg_path: String,
    pub results: Vec<EncoderProbeResult>,
}

/// Some result for `e` says that it is available.
pub open spec fn encoder_available(results: Seq<EncoderProbeResult>, e: H264Encoder) -> bool {
    exists|i: int| 0 <= i < results.len() && results[i].encoder == e && results[i].available
}

/// The order in which encoders are preferred.
pub open spec fn encoder_priority() -> Seq<H264Encoder> {
    seq![H264Encoder::Nvenc, H264Encoder::Amf, H264Encoder::QuickSync, H264Encoder::Cpu]
}

/// The most preferred available encoder.
pub open spec fn best_available(results: Seq<EncoderProbeResult>) -> Option<H264Encoder> {
    if encoder_available(results, H264Encoder::Nvenc) {
        Some(H264Encoder::Nvenc)
    } else if encoder_available(results, H264Encoder::Amf) {
        Some(H264Encoder::Amf)
    } else if encoder_available(results, H264Encoder::QuickSync) {
        Some(H264Encoder::QuickSync)
    } else if encoder_available(results, H264Encoder::Cpu) {
        Some(H264Encoder::Cpu)
    } else {
        None
    }
}

/// `i` is the first position whose result is about `e`.
pub open spec fn first_result_for(results: Seq<EncoderProbeResult>, e: H264Encoder, i: int) -> bool {
    &&& 0 <= i < results.len()
    &&& results[i].encoder == e
    &&& forall|j: int| 0 <= j < i ==> results[j].encoder != e
}

/// The detail text of the first result about `e`, if any.
pub open spec fn detail_of(results: Seq<EncoderProbeResult>, e: H264Encoder) -> Option<Seq<char>> {
    if exists|i: int| first_result_for(results, e, i) {
        Some(results[choose|i: int| first_result_for(results, e, i)].detail@)
    } else {
        None
    }
}

proof fn lemma_first_result_unique(results: Seq<EncoderProbeResult>, e: H264Encoder, i: int, k: int)
    requires
        first_result_for(results, e, i),
        first_result_for(results, e, k),
    ensures
        i == k,
{
}

/// The encoders in order of preference.
pub fn encoder_candidates() -> (v: Vec<H264Encoder>)
    ensures
        v@ == encoder_priority(),
{
    let v = vec![H264Encoder::Nvenc, H264Encoder::Amf, H264Encoder::QuickSync, H264Encoder::Cpu];
    assert(v@ =~= encoder_priority());
    v
}

impl EncoderProbeReport {
    /// Whether some result says that `encoder` is available.
    pub fn is_available(&self, encoder: H264Encoder) -> (b: bool)
        ensures
            b == encoder_available(self.results@, encoder),
    {
        let mut i: usize = 0;
        while i < self.results.len()
            invariant
                i <= self.results.len(),
                forall|j: int|
                    0 <= j < i ==> !(self.results@[j].encoder == encoder
                        && self.results@[j].available),
            decreases self.results.len() - i,
        {
            if self.results[i].encoder == encoder && self.results[i].available {
                return true;
            }
            i = i + 1;
        }
        false
    }

    /// The most preferred encoder that some result says is available.
    pub fn best(&self) -> (b: Option<H264Encoder>)
        ensures
            b == best_available(self.results@),
    {
        if self.is_available(H264Encoder::Nvenc) {
            Some(H264Encoder::Nvenc)
        } else if self.is_available(H264Encoder::Amf) {
            Some(H264Encoder::Amf)
        } else if self.is_available(H264Encoder::QuickSync) {
            Some(H264Encoder::QuickSync)
        } else if self.is_available(H264Encoder::Cpu) {
            Some(H264Encoder::Cpu)
        } else {
            None
        }
    }

    /// The detail text of the first result about `encoder`.
    pub fn detail_for(&self, encoder: H264Encoder) -> (d: Option<&str>)
        ensures
            match d {
                Some(s) => detail_of(self.results@, encoder) == Some(s@),
                None => detail_of(self.results@, encoder) is None,
            },
    {
        let mut i: usize = 0;
        while i < self.results.len()
            invariant
                i <= self.results.len(),
                forall|j: int| 0 <= j < i ==> self.results@[j].encoder != encoder,
            decreases self.results.len() - i,
        {
            if self.results[i].encoder == encoder {
                proof {
                    assert(first_result_for(self.results@, encoder, i as int));
                    let k = choose|k: int| first_result_for(self.results@, encoder, k);
                    lemma_first_result_unique(self.results@, encoder, i as int, k);
                }
                return Some(self.results[i].detail.as_str());
            }
            i = i + 1;
        }
        None
    }
}

/// The encoder that FFmpeg's `-encoders` listing suggests, NVENC first and CPU last.
pub open spec fn chosen_encoder(text: Seq<char>) -> H264Encoder {
    if contains(text, "h264_nvenc"@) {
        H264Encoder::Nvenc
    } else if contains(text, "h264_amf"@) {
        H264Encoder::Amf
    } else if contains(text, "h264_qsv"@) {
        H264Encoder::QuickSync
    } else {
        H264Encoder::Cpu
    }
}

/// The encoder read from FFmpeg's `-encoders` listing is the first of NVENC,
/// AMF and Quick Sync whose codec name the listing mentions, and the CPU
/// encoder when it mentions none of them.
pub proof fn lemma_listing_choice_follows_priority(text: Seq<char>)
    ensures
        contains(text, "h264_nvenc"@) ==> chosen_encoder(text) == H264Encoder::Nvenc,
        !contains(text, "h264_nvenc"@) && contains(text, "h264_amf"@) ==> chosen_encoder(text)
            == H264Encoder::Amf,
        !contains(text, "h264_nvenc"@) && !contains(text, "h264_amf"@) && contains(text, "h264_qsv"@)
            ==> chosen_encoder(text) == H264Encoder::QuickSync,
        !contains(text, "h264_nvenc"@) && !contains(text, "h264_amf"@) && !contains(text, "h264_qsv"@)
            ==> chosen_encoder(text) == H264Encoder::Cpu,
{
}

/// Picks the encoder that an FFmpeg `-encoders` listing offers, preferring NVENC, then AMF,
/// then Quick Sync, and falling back to the CPU.
pub fn choose_h264_encoder(encoders_text: &str) -> (e: H264Encoder)
    ensures
        e == chosen_encoder(encoders_text@),
{
    let t = chars_of(encoders_text);
    if contains_str(t.as_slice(), "h264_nvenc") {
        H264Encoder::Nvenc
    } else if contains_str(t.as_slice(), "h264_amf") {
        H264Encoder::Amf
    } else if contains_str(t.as_slice(), "h264_qsv") {
        H264Encoder::QuickSync
    } else {
        H264Encoder::Cpu
    }
}

/// The views of a list of text literals.
pub open spec fn str_views(v: Seq<&'static str>) -> Seq<Seq<char>> {
    v.map_values(|s: &'static str| s@)
}

/// The extra FFmpeg options that make each encoder start quickly.
pub open spec fn encoder_probe_options(e: H264Encoder) -> Seq<Seq<char>> {
    match e {
        H264Encoder::Amf => seq!["-usage"@, "transcoding"@, "-quality"@, "speed"@],
        H264Encoder::Nvenc => seq!["-preset"@, "p1"@, "-tune"@, "ll"@],
        H264Encoder::QuickSync => seq!["-preset"@, "veryfast"@],
        H264Encoder::Cpu => seq!["-preset"@, "veryfast"@],
    }
}

/// The encoder-specific options used when probing `encoder`.
pub fn encoder_specific_probe_args(encoder: H264Encoder) -> (v: Vec<&'static str>)
    ensures
        str_views(v@) == encoder_probe_options(encoder),
{
    let v = match encoder {
        H264Encoder::Amf => vec!["-usage", "transcoding", "-quality", "speed"],
        H264Encoder::Nvenc => vec!["-preset", "p1", "-tune", "ll"],
        H264Encoder::QuickSync => vec!["-preset", "veryfast"],
        H264Encoder::Cpu => vec!["-preset", "veryfast"],
    };
    assert(str_views(v@) =~= encoder_probe_options(encoder));
    v
}

/// The full FFmpeg argument list that probes `e` on a 1080p60 test pattern.
pub open spec fn probe_arguments(e: H264Encoder) -> Seq<Seq<char>> {
    seq![
        "-hide_banner"@,
        "-loglevel"@,
        "error"@,
        "-f"@,
        "lavfi"@,
        "-i"@,
        "testsrc2=size=1920x1080:rate=60"@,
        "-frames:v"@,
        "12"@,
        "-pix_fmt"@,
        "yuv420p"@,
        "-c:v"@,
        ffmpeg_codec_name(e),
    ] + encoder_probe_options(e) + seq!["-b:v"@, "6000k"@, "-f"@, "null"@, "-"@]
}

/// The FFmpeg arguments that try `encoder` on twelve frames of a 1080p60 test pattern.
pub fn probe_h264_encoder_args(encoder: H264Encoder) -> (v: Vec<&'static str>)
    ensures
        str_views(v@) == probe_arguments(encoder),
{
    let mut v: Vec<&'static str> = vec![
        "-hide_banner",
        "-loglevel",
        "error",
        "-f",
        "lavfi",
        "-i",
        "testsrc2=size=1920x1080:rate=60",
        "-frames:v",
        "12",
        "-pix_fmt",
        "yuv420p",
        "-c:v",
        encoder.ffmpeg_name(),
    ];
    let ghost head = v@;
    let mut extra = encoder_specific_probe_args(encoder);
    v.append(&mut extra);
    let ghost mid = v@;
    let mut tail: Vec<&'static str> = vec!["-b:v", "6000k", "-f", "null", "-"];
    let ghost tail_seq = tail@;
    v.append(&mut tail);
    assert(str_views(v@) =~= probe_arguments(encoder)) by {
        assert(v@ =~= head + mid.subrange(head.len() as int, mid.len() as int) + tail_seq);
        assert(str_views(head) =~= seq![
            "-hide_banner"@,
            "-loglevel"@,
            "error"@,
            "-f"@,
            "lavfi"@,
            "-i"@,
            "testsrc2=size=1920x1080:rate=60"@,
            "-frames:v"@,
            "12"@,
            "-pix_fmt"@,
            "yuv420p"@,
            "-c:v"@,
            ffmpeg_codec_name(encoder),
        ]);
        assert(str_views(tail_seq) =~= seq!["-b:v"@, "6000k"@, "-f"@, "null"@, "-"@]);
    }
    v
}

/// What the user reads about a probe that ran: FFmpeg's own error text when
/// it printed any, else a success note or the exit status.
pub open spec fn probe_detail(success: bool, stderr: Seq<char>, status: Seq<char>) -> Seq<char> {
    if trim(stderr).len() == 0 {
        if success {
            "初期化成功"@
        } else {
            "終了コード: "@ + status
        }
    } else {
        trim(stderr)
    }
}

/// The probe result for `encoder` from FFmpeg's exit status and error output.
pub fn probe_result_from_output(
    encoder: H264Encoder,
    success: bool,
    stderr: &str,
    status: &str,
) -> (r: EncoderProbeResult)
    ensures
        r.encoder == encoder,
        r.available == success,
        r.detail@ == probe_detail(success, stderr@, status@),
{
    let raw = chars_of(stderr);
    let trimmed = trim_chars(raw.as_slice());
    let detail = if trimmed.len() == 0 {
        if success {
            String::from_str("初期化成功")
        } else {
            let mut d: Vec<char> = Vec::new();
            push_str(&mut d, "終了コード: ");
            push_str(&mut d, status);
            string_from_chars(d.as_slice())
        }
    } else {
        string_from_chars(trimmed.as_slice())
    };
    EncoderProbeResult { encoder, available: success, detail }
}

/// A probe that could not run: the encoder is unavailable and `message` says why.
pub fn probe_result_from_failure(encoder: H264Encoder, message: &str) -> (r: EncoderProbeResult)
    ensures
        r.encoder == encoder,
        !r.available,
        r.detail@ == message@,
{
    EncoderProbeResult { encoder, available: false, detail: String::from_str(message) }
}

/// Why recording could not start or finish.
#[derive(Debug)]
pub enum RecordingError {
    FfmpegMissing,
    Io(String),
    Ffmpeg(String),
    Audio(String),
    InvalidDimensions,
}

/// The message shown for each recording error.
pub open spec fn recording_error_text(e: RecordingError) -> Seq<char> {
    match e {
        RecordingError::FfmpegMissing => "FFmpegが見つかりません"@,
        RecordingError::Io(s) => "I/Oエラー: "@ + s@,
        RecordingError::Ffmpeg(s) => "FFmpegエラー: "@ + s@,
        RecordingError::Audio(s) => "音声録音エラー: "@ + s@,
        RecordingError::InvalidDimensions => "プレビュー映像のサイズが未確定です"@,
    }
}

fn prefixed(prefix: &str, s: &String) -> (r: String)
    ensures
        r@ == prefix@ + s@,
{
    let mut d: Vec<char> = Vec::new();
    push_str(&mut d, prefix);
    push_str(&mut d, s.as_str());
    string_from_chars(d.as_slice())
}

impl RecordingError {
    /// The message shown to the user for this error.
    pub fn message(&self) -> (m: String)
        ensures
            m@ == recording_error_text(*self),
    {
        match self {
            RecordingError::FfmpegMissing => String::from_str("FFmpegが見つかりません"),
            RecordingError::Io(s) => prefixed("I/Oエラー: ", s),
            RecordingError::Ffmpeg(s) => prefixed("FFmpegエラー: ", s),
            RecordingError::Audio(s) => prefixed("音声録音エラー: ", s),
            RecordingError::InvalidDimensions => String::from_str("プレビュー映像のサイズが未確定です"),
        }
    }
}

/// The encoder that a preference requests, given what the probe found.
pub open spec fn requested_encoder(
    preference: EncoderPreference,
    results: Seq<EncoderProbeResult>,
) -> Option<H264Encoder> {
    match preference {
        EncoderPreference::Auto => best_available(results),
        EncoderPreference::Nvenc => Some(H264Encoder::Nvenc),
        EncoderPreference::Amf => Some(H264Encoder::Amf),
        EncoderPreference::QuickSync => Some(H264Encoder::QuickSync),
        EncoderPreference::Cpu => Some(H264Encoder::Cpu),
    }
}

/// The message given when the requested encoder failed its probe.
pub open spec fn unusable_encoder_message(e: H264Encoder, results: Seq<EncoderProbeResult>) -> Seq<char> {
    encoder_display_name(e) + " を初期化できません: "@ + match detail_of(results, e) {
        Some(d) => d,
        None => "初期化失敗"@,
    }
}

/// Chooses the encoder for a recording from the user's preference and the
/// probe report: `Auto` takes the best available encoder; an explicit choice
/// must have passed its probe.
pub fn detect_h264_encoder_with_preference(
    preference: EncoderPreference,
    report: EncoderProbeReport,
) -> (r: Result<(H264Encoder, EncoderProbeReport), RecordingError>)
    ensures
        match requested_encoder(preference, report.results@) {
            None => r matches Err(RecordingError::Ffmpeg(m)) && m@
                == "利用可能なH.264エンコーダーがありません"@,
            Some(e) => if encoder_available(report.results@, e) {
                r matches Ok((chosen, back)) && chosen == e && back.results@ == report.results@
                    && back.ffmpeg_path@ == report.ffmpeg_path@
            } else {
                r matches Err(RecordingError::Ffmpeg(m)) && m@ == unusable_encoder_message(
                    e,
                    report.results@,
                )
            },
        },
{
    let requested = match preference {
        EncoderPreference::Auto => report.best(),
        EncoderPreference::Nvenc => Some(H264Encoder::Nvenc),
        EncoderPreference::Amf => Some(H264Encoder::Amf),
        EncoderPreference::QuickSync => Some(H264Encoder::QuickSync),
        EncoderPreference::Cpu => Some(H264Encoder::Cpu),
    };
    let encoder = match requested {
        Some(e) => e,
        None => {
            return Err(RecordingError::Ffmpeg(String::from_str("利用可能なH.264エンコーダーがありません")));
        },
    };
    if !report.is_available(encoder) {
        let mut m: Vec<char> = Vec::new();
        push_str(&mut m, encoder.display_name());
        push_str(&mut m, " を初期化できません: ");
        match report.detail_for(encoder) {
            Some(d) => push_str(&mut m, d),
            None => push_str(&mut m, "初期化失敗"),
        }
        return Err(RecordingError::Ffmpeg(string_from_chars(m.as_slice())));
    }
    Ok((encoder, report))
}

/// The best available encoder according to the probe report.
pub fn detect_h264_encoder(report: EncoderProbeReport) -> (r: Result<H264Encoder, RecordingError>)
    ensures
        match best_available(report.results@) {
            None => r matches Err(RecordingError::Ffmpeg(m)) && m@
                == "利用可能なH.264エンコーダーがありません"@,
            Some(e) => r == Ok::<H264Encoder, RecordingError>(e),
        },
{
    match detect_h264_encoder_with_preference(EncoderPreference::Auto, report) {
        Ok((encoder, _)) => Ok(encoder),
        Err(e) => Err(e),
    }
}

/// Automatic choice takes the first encoder that passed its probe in the
/// order NVENC, AMF, Quick Sync, CPU, and none when none passed; it never
/// chooses an encoder that failed.
pub proof fn lemma_auto_choice_follows_priority(results: Seq<EncoderProbeResult>)
    ensures
        encoder_available(results, H264Encoder::Nvenc) ==> best_available(results) == Some(
            H264Encoder::Nvenc,
        ),
        !encoder_available(results, H264Encoder::Nvenc) && encoder_available(results, H264Encoder::Amf)
            ==> best_available(results) == Some(H264Encoder::Amf),
        !encoder_available(results, H264Encoder::Nvenc) && !encoder_available(results, H264Encoder::Amf)
            && encoder_available(results, H264Encoder::QuickSync) ==> best_available(results) == Some(
            H264Encoder::QuickSync,
        ),
        !encoder_available(results, H264Encoder::Nvenc) && !encoder_available(results, H264Encoder::Amf)
            && !encoder_available(results, H264Encoder::QuickSync) && encoder_available(
            results,
            H264Encoder::Cpu,
        ) ==> best_available(results) == Some(H264Encoder::Cpu),
        !encoder_available(results, H264Encoder::Nvenc) && !encoder_available(results, H264Encoder::Amf)
            && !encoder_available(results, H264Encoder::QuickSync) && !encoder_available(
            results,
            H264Encoder::Cpu,
        ) ==> best_available(results) is None,
        best_available(results) matches Some(e) ==> encoder_available(results, e),
        requested_encoder(EncoderPreference::Auto, results) == best_available(results),
{
}

// ---------------------------------------------------------------------------
// Recording settings
// ---------------------------------------------------------------------------

/// What a recording is asked to produce.
#[derive(Debug, Clone)]
pub struct RecordingConfig {
    pub source_width: u32,
    pub source_height: u32,
    pub output_width: u32,
    pub output_height: u32,
    pub fps: u32,
    pub bitrate_kbps: u32,
    pub encoder_preference: EncoderPreference,
}

/// Every size of the configuration is known (none is zero).
pub open spec fn dimensions_known(c: RecordingConfig) -> bool {
    c.source_width != 0 && c.source_height != 0 && c.output_width != 0 && c.output_height != 0
}

impl RecordingConfig {
    /// A recording of a source of the given size at the preset's output size
    /// and frame rate, at 6000 kbit/s.
    pub fn for_preset(
        preset: StreamPreset,
        source_width: u32,
        source_height: u32,
        encoder_preference: EncoderPreference,
    ) -> (c: Self)
        ensures
            c.source_width == source_width,
            c.source_height == source_height,
            (c.output_width, c.output_height, c.fps) == preset_dimensions(preset),
            c.bitrate_kbps == 6000,
            c.encoder_preference == encoder_preference,
    {
        let (output_width, output_height, fps) = preset.dimensions();
        RecordingConfig {
            source_width,
            source_height,
            output_width,
            output_height,
            fps,
            bitrate_kbps: 6000,
            encoder_preference,
        }
    }

    /// `InvalidDimensions` when a source or output size is still zero.
    pub fn check_dimensions(&self) -> (r: Result<(), RecordingError>)
        ensures
            r is Ok <==> dimensions_known(*self),
            r matches Err(e) ==> e == RecordingError::InvalidDimensions,
    {
        if self.source_width == 0 || self.source_height == 0 || self.output_width == 0
            || self.output_height == 0 {
            Err(RecordingError::InvalidDimensions)
        } else {
            Ok(())
        }
    }

    /// The GPU recorder's settings for writing the video to `path`: the
    /// output size, the frame rate, and the bitrate in bit/s.
    pub fn gpu_config(&self, path: String) -> (g: GpuRecordingConfig)
        requires
            self.bitrate_kbps * 1000 <= u32::MAX,
        ensures
            g.path == path,
            g.width == self.output_width,
            g.height == self.output_height,
            g.fps == self.fps,
            g.bitrate_bps == self.bitrate_kbps * 1000,
    {
        GpuRecordingConfig {
            path,
            width: self.output_width,
            height: self.output_height,
            fps: self.fps,
            bitrate_bps: self.bitrate_kbps * 1000,
        }
    }
}

// ---------------------------------------------------------------------------
// Timing
// ---------------------------------------------------------------------------

/// The whole nanoseconds held by a `Duration`.
pub uninterp spec fn duration_nanos(d: Duration) -> nat;

/// Trusted: calls `Duration::as_nanos`, which std documents as the total
/// number of whole nanoseconds; a `Duration` holds a `u64` of seconds and
/// fewer than 10^9 nanoseconds, which bounds the result.
#[verifier::external_body]
pub(crate) fn duration_as_nanos(d: &Duration) -> (n: u128)
    ensures
        n == duration_nanos(*d),
        n <= 18_446_744_073_709_551_615_999_999_999u128,
{
    d.as_nanos()
}

/// Trusted: calls `Duration::from_nanos`, which std documents as the duration
/// of exactly `n` nanoseconds.
#[verifier::external_body]
pub(crate) fn duration_from_nanos(n: u64) -> (d: Duration)
    ensures
        duration_nanos(d) == n,
{
    Duration::from_nanos(n)
}

/// Output frames due after `nanos` nanoseconds at `fps`, cut to 64 bits as `as u64` does.
pub open spec fn frames_due_spec(nanos: nat, fps: nat) -> nat {
    ((nanos * fps) / 1_000_000_000) % 0x1_0000_0000_0000_0000
}

/// Number of output frames that should exist after `elapsed` at a fixed FPS.
/// The count comes from the wall clock, not from how many frames arrived.
pub fn frames_due(elapsed: Duration, fps: u32) -> (n: u64)
    ensures
        n == frames_due_spec(duration_nanos(elapsed), fps as nat),
        fps == 0 ==> n == 0,
{
    if fps == 0 {
        return 0;
    }
    let nanos = duration_as_nanos(&elapsed);
    assert(nanos * (fps as u128) <= 18_446_744_073_709_551_615_999_999_999u128 * 4_294_967_295u128)
        by (nonlinear_arith)
        requires
            nanos <= 18_446_744_073_709_551_615_999_999_999u128,
            fps <= 4_294_967_295u32,
    ;
    let product: u128 = nanos * (fps as u128);
    let frames: u128 = product / 1_000_000_000u128;
    let wrapped: u128 = frames % 0x1_0000_0000_0000_0000u128;
    wrapped as u64
}

/// The frame count grows with the elapsed time: a later moment never has fewer frames due
/// (while the count fits in 64 bits).
pub proof fn lemma_frames_due_monotonic(a: nat, b: nat, fps: nat)
    requires
        a <= b,
        (b * fps) / 1_000_000_000 < 0x1_0000_0000_0000_0000,
    ensures
        frames_due_spec(a, fps) <= frames_due_spec(b, fps),
{
    assert(a * fps <= b * fps) by (nonlinear_arith)
        requires
            a <= b,
    ;
    assert((a * fps) / 1_000_000_000 <= (b * fps) / 1_000_000_000) by (nonlinear_arith)
        requires
            a * fps <= b * fps,
    ;
}

/// After whole seconds the count is exactly seconds × fps, however many frames arrived.
pub proof fn lemma_frames_due_whole_seconds(secs: nat, fps: nat)
    requires
        secs * fps < 0x1_0000_0000_0000_0000,
    ensures
        frames_due_spec(secs * 1_000_000_000, fps) == secs * fps,
{
    assert(secs * 1_000_000_000 * fps == (secs * fps) * 1_000_000_000) by (nonlinear_arith);
    assert(((secs * fps) * 1_000_000_000) / 1_000_000_000 == secs * fps) by (nonlinear_arith);
}

// ---------------------------------------------------------------------------
// The final mux
// ---------------------------------------------------------------------------

/// `-i <path>` for every audio track, in order.
pub open spec fn track_inputs(tracks: Seq<Seq<char>>) -> Seq<Seq<char>>
    decreases tracks.len(),
{
    if tracks.len() == 0 {
        Seq::empty()
    } else {
        track_inputs(tracks.drop_last()) + seq!["-i"@, tracks.last()]
    }
}

/// The FFmpeg arguments that join the video-only file with its audio tracks
/// into the final MP4: with a mix filter the mixed audio `[a]` is encoded as
/// AAC; without one the result has no audio. The video stream is copied.
pub open spec fn mux_arguments(
    video_only: Seq<char>,
    tracks: Seq<Seq<char>>,
    mix_filter: Option<Seq<char>>,
    final_video: Seq<char>,
) -> Seq<Seq<char>> {
    seq!["-y"@, "-hide_banner"@, "-loglevel"@, "warning"@, "-i"@, video_only] + track_inputs(tracks)
        + match mix_filter {
        Some(f) => seq![
            "-filter_complex"@,
            f,
            "-map"@,
            "0:v:0"@,
            "-map"@,
            "[a]"@,
            "-c:v"@,
            "copy"@,
            "-c:a"@,
            "aac"@,
            "-b:a"@,
            "192k"@,
            "-shortest"@,
            "-movflags"@,
            "+faststart"@,
        ],
        None => seq!["-map"@, "0:v:0"@, "-c:v"@, "copy"@, "-an"@, "-movflags"@, "+faststart"@],
    } + seq![final_video]
}

/// Arguments `k` and `k + 1` of `args` are `-i` and `path`: FFmpeg reads `path` as an input.
pub open spec fn reads_input(args: Seq<Seq<char>>, k: int, path: Seq<char>) -> bool {
    args[k] == "-i"@ && args[k + 1] == path
}

proof fn lemma_track_inputs(tracks: Seq<Seq<char>>)
    ensures
        track_inputs(tracks).len() == 2 * tracks.len(),
        forall|i: int| 0 <= i < tracks.len() ==> reads_input(track_inputs(tracks), 2 * i, #[trigger] tracks[i]),
    decreases tracks.len(),
{
    if tracks.len() > 0 {
        let p = tracks.drop_last();
        lemma_track_inputs(p);
        let t = track_inputs(tracks);
        let q = track_inputs(p);
        assert forall|i: int| 0 <= i < tracks.len() implies reads_input(t, 2 * i, #[trigger] tracks[i]) by {
            if i < p.len() {
                assert(p[i] == tracks[i]);
                assert(reads_input(q, 2 * i, p[i]));
                assert(t[2 * i] == q[2 * i]);
                assert(t[2 * i + 1] == q[2 * i + 1]);
            } else {
                let s2 = seq!["-i"@, tracks.last()];
                assert(t == q + s2);
                assert(t[2 * i] == s2[0]);
                assert(s2[0] == "-i"@);
                assert(t[2 * i + 1] == s2[1]);
            }
        }
    }
}

/// The final mux reads the video-only file, then every audio track once, in
/// order, each after its own `-i`, and writes to the final file last:
/// argument 5 is the video, arguments `6 + 2i` and `7 + 2i` are `-i` and
/// track `i`, and the last argument is the output.
pub proof fn lemma_mux_reads_every_track(
    video_only: Seq<char>,
    tracks: Seq<Seq<char>>,
    mix_filter: Option<Seq<char>>,
    final_video: Seq<char>,
)
    ensures
        mux_arguments(video_only, tracks, mix_filter, final_video).len() == 7 + 2 * tracks.len() + if mix_filter is Some {
            15int
        } else {
            7int
        },
        reads_input(mux_arguments(video_only, tracks, mix_filter, final_video), 4, video_only),
        forall|i: int|
            0 <= i < tracks.len() ==> reads_input(
                mux_arguments(video_only, tracks, mix_filter, final_video),
                6 + 2 * i,
                #[trigger] tracks[i],
            ),
        mux_arguments(video_only, tracks, mix_filter, final_video).last() == final_video,
{
    lemma_track_inputs(tracks);
    let a = mux_arguments(video_only, tracks, mix_filter, final_video);
    let head = seq!["-y"@, "-hide_banner"@, "-loglevel"@, "warning"@, "-i"@, video_only];
    let t = track_inputs(tracks);
    assert forall|i: int| 0 <= i < tracks.len() implies reads_input(a, 6 + 2 * i, #[trigger] tracks[i]) by {
        assert(reads_input(t, 2 * i, tracks[i]));
        assert(a[6 + 2 * i] == t[2 * i]);
        assert(a[7 + 2 * i] == t[2 * i + 1]);
    }
}

/// The FFmpeg arguments of the final mux (see `mux_arguments`); the audio
/// tracks are the ones that were recorded, and `mix_filter` the filter graph
/// that mixes them, when there is any audio to mix.
pub fn final_mux_args(
    video_only: &str,
    track_paths: &[String],
    mix_filter: Option<&str>,
    final_video: &str,
) -> (args: Vec<String>)
    ensures
        views(args@) == mux_arguments(
            video_only@,
            views(track_paths@),
            match mix_filter {
                Some(f) => Some(f@),
                None => None,
            },
            final_video@,
        ),
{
    let mut args: Vec<String> = Vec::new();
    push_args(&mut args, &["-y", "-hide_banner", "-loglevel", "warning", "-i"]);
    push_arg(&mut args, video_only);
    let ghost head = views(args@);
    assert(head =~= seq!["-y"@, "-hide_banner"@, "-loglevel"@, "warning"@, "-i"@, video_only@]);
    let ghost tracks = views(track_paths@);
    let mut i: usize = 0;
    while i < track_paths.len()
        invariant
            i <= track_paths.len(),
            tracks == views(track_paths@),
            views(args@) == head + track_inputs(tracks.take(i as int)),
        decreases track_paths.len() - i,
    {
        push_arg(&mut args, "-i");
        push_arg(&mut args, track_paths[i].as_str());
        proof {
            assert(tracks.take(i + 1).drop_last() =~= tracks.take(i as int));
            assert(tracks.take(i + 1).last() == track_paths@[i as int]@);
            assert(views(args@) =~= head + track_inputs(tracks.take(i + 1)));
        }
        i = i + 1;
    }
    assert(tracks.take(track_paths.len() as int) =~= tracks);
    let ghost inputs = views(args@);
    match mix_filter {
        Some(f) => {
            push_arg(&mut args, "-filter_complex");
            push_arg(&mut args, f);
            push_args(
                &mut args,
                &[
                    "-map",
                    "0:v:0",
                    "-map",
                    "[a]",
                    "-c:v",
                    "copy",
                    "-c:a",
                    "aac",
                    "-b:a",
                    "192k",
                    "-shortest",
                    "-movflags",
                    "+faststart",
                ],
            );
        },
        None => {
            push_args(&mut args, &["-map", "0:v:0", "-c:v", "copy", "-an", "-movflags", "+faststart"]);
        },
    }
    push_arg(&mut args, final_video);
    assert(views(args@) =~= mux_arguments(
        video_only@,
        tracks,
        match mix_filter {
            Some(f) => Some(f@),
            None => None,
        },
        final_video@,
    ));
    args
}

} // verus!
