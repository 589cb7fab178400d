//! Streaming targets (YouTube, Twitch), their checks, and the FFmpeg command line of a stream.
use vstd::prelude::*;
use crate::text::{
    ascii_lower, chars_of, contains, contains_str, decimal, decimal_chars, push_chars, push_str,
    starts_with, starts_with_str, string_from_chars, to_ascii_lower, trim, trim_chars,
    trim_end_char, trim_end_matches, trim_start_char, trim_start_matches,
};

verus! {

/// The services that a stream can go to.
#[derive(Debug, Clone, Copy, PartialEq, Eq, Structural)]
pub enum StreamingPlatform {
    YouTube,
    Twitch,
}

/// The name of a platform.
pub open spec fn platform_label(p: StreamingPlatform) -> Seq<char> {
    match p {
        StreamingPlatform::YouTube => "YouTube"@,
        StreamingPlatform::Twitch => "Twitch"@,
    }
}

/// The video bitrate that each platform starts with, in kbit/s.
pub open spec fn platform_bitrate(p: StreamingPlatform) -> u32 {
    match p {
        StreamingPlatform::YouTube => 12_000,
        StreamingPlatform::Twitch => 6_000,
    }
}

impl StreamingPlatform {
    /// Every platform, in the order shown to the user.
    pub fn all() -> (v: [StreamingPlatform; 2])
        ensures
            v@ == seq![StreamingPlatform::YouTube, StreamingPlatform::Twitch],
    {
        let v = [StreamingPlatform::YouTube, StreamingPlatform::Twitch];
        assert(v@ =~= seq![StreamingPlatform::YouTube, StreamingPlatform::Twitch]);
        v
    }

    /// The name of the platform.
    pub fn label(self) -> (s: &'static str)
        ensures
            s@ == platform_label(self),
    {
        match self {
            StreamingPlatform::YouTube => "YouTube",
            StreamingPlatform::Twitch => "Twitch",
        }
    }

    /// Where the user finds the server URL for this platform.
    pub fn server_hint(self) -> (s: &'static str)
        ensures
            s@ == match self {
                StreamingPlatform::YouTube => "YouTube Live Control Room の RTMPS URL"@,
                StreamingPlatform::Twitch => "Twitch ingest server の RTMP URL"@,
            },
    {
        match self {
            StreamingPlatform::YouTube => "YouTube Live Control Room の RTMPS URL",
            StreamingPlatform::Twitch => "Twitch ingest server の RTMP URL",
        }
    }

    /// The video bitrate that the platform starts with, in kbit/s.
    pub fn default_video_bitrate_kbps(self) -> (b: u32)
        ensures
            b == platform_bitrate(self),
    {
        match self {
            StreamingPlatform::YouTube => 12_000,
            StreamingPlatform::Twitch => 6_000,
        }
    }
}

/// Where a stream goes and at which bitrate.
#[derive(Debug, Clone, PartialEq, Eq)]
pub struct StreamingTargetConfig {
    pub platform: StreamingPlatform,
    pub server_url: String,
    pub stream_key: String,
    pub video_bitrate_kbps: u32,
}

/// The URL is an RTMP or RTMPS URL.
pub open spec fn rtmp_url(url: Seq<char>) -> bool {
    starts_with(url, "rtmp://"@) || starts_with(url, "rtmps://"@)
}

/// The URL does not belong to the other platform.
pub open spec fn provider_matches(p: StreamingPlatform, url: Seq<char>) -> bool {
    match p {
        StreamingPlatform::YouTube => !contains(ascii_lower(url), "twitch.tv"@),
        StreamingPlatform::Twitch => !contains(ascii_lower(url), "youtube.com"@) && !contains(
            ascii_lower(url),
            "youtu.be"@,
        ),
    }
}

/// A target can go live: it has a key and an RTMP(S) URL of its own platform.
pub open spec fn target_ready(c: StreamingTargetConfig) -> bool {
    let url = trim(c.server_url@);
    &&& url.len() > 0
    &&& trim(c.stream_key@).len() > 0
    &&& rtmp_url(url)
    &&& provider_matches(c.platform, url)
}

/// A target can go live exactly when, after trimming whitespace, its key is
/// not empty, its URL starts with `rtmp://` or `rtmps://`, and the URL
/// (ignoring ASCII case) does not name the other platform: no `twitch.tv`
/// for YouTube, neither `youtube.com` nor `youtu.be` for Twitch.
pub proof fn lemma_target_ready_meaning(c: StreamingTargetConfig)
    ensures
        target_ready(c) == (trim(c.stream_key@).len() > 0 && (starts_with(trim(c.server_url@), "rtmp://"@)
            || starts_with(trim(c.server_url@), "rtmps://"@)) && match c.platform {
            StreamingPlatform::YouTube => !contains(ascii_lower(trim(c.server_url@)), "twitch.tv"@),
            StreamingPlatform::Twitch => !contains(ascii_lower(trim(c.server_url@)), "youtube.com"@)
                && !contains(ascii_lower(trim(c.server_url@)), "youtu.be"@),
        }),
{
    let url = trim(c.server_url@);
    reveal_strlit("rtmp://");
    reveal_strlit("rtmps://");
    if starts_with(url, "rtmp://"@) || starts_with(url, "rtmps://"@) {
        assert(url.len() > 0);
    }
}

/// What the settings screen says about a target, checked in this order:
/// key, URL, protocol, platform, then ready (with a hint for YouTube over plain RTMP).
pub open spec fn readiness_text(c: StreamingTargetConfig) -> Seq<char> {
    let url = trim(c.server_url@);
    if trim(c.stream_key@).len() == 0 {
        "ストリームキーを入力してください"@
    } else if url.len() == 0 {
        "サーバーURLを入力してください"@
    } else if !rtmp_url(url) {
        "サーバーURLは rtmp:// または rtmps:// で始まる必要があります"@
    } else if c.platform == StreamingPlatform::YouTube && contains(ascii_lower(url), "twitch.tv"@) {
        "YouTube選択中です。TwitchのURLは使用できません"@
    } else if c.platform == StreamingPlatform::Twitch && (contains(ascii_lower(url), "youtube.com"@)
        || contains(ascii_lower(url), "youtu.be"@)) {
        "Twitch選択中です。YouTubeのURLは使用できません"@
    } else if c.platform == StreamingPlatform::YouTube && starts_with(url, "rtmp://"@) {
        "配信先設定: 準備OK（YouTubeはRTMPSも推奨）"@
    } else {
        "配信先設定: 準備OK"@
    }
}

/// The RTMP address that FFmpeg publishes to: the URL without trailing `/`,
/// a `/`, then the key without leading `/`.
pub open spec fn publish_address(c: StreamingTargetConfig) -> Seq<char> {
    trim_end_char(trim(c.server_url@), '/') + "/"@ + trim_start_char(trim(c.stream_key@), '/')
}

/// Why a stream could not start.
#[derive(Debug)]
pub enum StreamingError {
    InvalidTarget,
    FfmpegMissing,
    Spawn(String),
}

/// The message shown for each streaming error.
pub open spec fn streaming_error_text(e: StreamingError) -> Seq<char> {
    match e {
        StreamingError::InvalidTarget => "配信先URLまたはストリームキーが未設定です"@,
        StreamingError::FfmpegMissing => "FFmpegが見つかりません"@,
        StreamingError::Spawn(m) => "配信プロセス開始失敗: "@ + m@,
    }
}

impl StreamingError {
    /// The message shown to the user for this error.
    pub fn message(&self) -> (m: String)
        ensures
            m@ == streaming_error_text(*self),
    {
        match self {
            StreamingError::InvalidTarget => String::from_str("配信先URLまたはストリームキーが未設定です"),
            StreamingError::FfmpegMissing => String::from_str("FFmpegが見つかりません"),
            StreamingError::Spawn(message) => {
                let mut d: Vec<char> = Vec::new();
                push_str(&mut d, "配信プロセス開始失敗: ");
                push_str(&mut d, message.as_str());
                string_from_chars(d.as_slice())
            },
        }
    }
}

impl Default for StreamingTargetConfig {
    /// An empty YouTube target.
    fn default() -> (c: Self)
        ensures
            c.platform == StreamingPlatform::YouTube,
            c.server_url@.len() == 0,
            c.stream_key@.len() == 0,
            c.video_bitrate_kbps == 12_000,
    {
        Self::new(StreamingPlatform::YouTube)
    }
}

impl StreamingTargetConfig {
    /// An empty target for `platform` at the platform's default bitrate.
    pub fn new(platform: StreamingPlatform) -> (c: Self)
        ensures
            c.platform == platform,
            c.server_url@.len() == 0,
            c.stream_key@.len() == 0,
            c.video_bitrate_kbps == platform_bitrate(platform),
    {
        StreamingTargetConfig {
            platform,
            server_url: String::new(),
            stream_key: String::new(),
            video_bitrate_kbps: platform.default_video_bitrate_kbps(),
        }
    }

    /// Switches platform; a different platform clears the URL and key and resets the bitrate.
    pub fn set_platform(&mut self, platform: StreamingPlatform)
        ensures
            if old(self).platform == platform {
                *final(self) == *old(self)
            } else {
                &&& final(self).platform == platform
                &&& final(self).server_url@.len() == 0
                &&& final(self).stream_key@.len() == 0
                &&& final(self).video_bitrate_kbps == platform_bitrate(platform)
            },
    {
        if self.platform == platform {
            return;
        }
        self.platform = platform;
        self.server_url = String::new();
        self.stream_key = String::new();
        self.video_bitrate_kbps = platform.default_video_bitrate_kbps();
    }

    /// Whether the target has a key and an RTMP(S) URL that belongs to its platform.
    pub fn is_ready(&self) -> (b: bool)
        ensures
            b == target_ready(*self),
    {
        let raw_url = chars_of(self.server_url.as_str());
        let url = trim_chars(raw_url.as_slice());
        let protocol_ok = starts_with_str(url.as_slice(), "rtmp://") || starts_with_str(
            url.as_slice(),
            "rtmps://",
        );
        let lower = to_ascii_lower(url.as_slice());
        let provider_ok = match self.platform {
            StreamingPlatform::YouTube => !contains_str(lower.as_slice(), "twitch.tv"),
            StreamingPlatform::Twitch => !contains_str(lower.as_slice(), "youtube.com")
                && !contains_str(lower.as_slice(), "youtu.be"),
        };
        let raw_key = chars_of(self.stream_key.as_str());
        let key = trim_chars(raw_key.as_slice());
        url.len() > 0 && key.len() > 0 && protocol_ok && provider_ok
    }

    /// What the settings screen says about this target.
    pub fn readiness_message(&self) -> (s: &'static str)
        ensures
            s@ == readiness_text(*self),
    {
        let raw_url = chars_of(self.server_url.as_str());
        let url = trim_chars(raw_url.as_slice());
        let raw_key = chars_of(self.stream_key.as_str());
        let key = trim_chars(raw_key.as_slice());
        if key.len() == 0 {
            return "ストリームキーを入力してください";
        }
        if url.len() == 0 {
            return "サーバーURLを入力してください";
        }
        let plain = starts_with_str(url.as_slice(), "rtmp://");
        if !(plain || starts_with_str(url.as_slice(), "rtmps://")) {
            return "サーバーURLは rtmp:// または rtmps:// で始まる必要があります";
        }
        let lower = to_ascii_lower(url.as_slice());
        match self.platform {
            StreamingPlatform::YouTube => {
                if contains_str(lower.as_slice(), "twitch.tv") {
                    "YouTube選択中です。TwitchのURLは使用できません"
                } else if plain {
                    "配信先設定: 準備OK（YouTubeはRTMPSも推奨）"
                } else {
                    "配信先設定: 準備OK"
                }
            },
            StreamingPlatform::Twitch => {
                if contains_str(lower.as_slice(), "youtube.com") || contains_str(
                    lower.as_slice(),
                    "youtu.be",
                ) {
                    "Twitch選択中です。YouTubeのURLは使用できません"
                } else {
                    "配信先設定: 準備OK"
                }
            },
        }
    }

    /// `<platform>: 設定済み` when ready, `<platform>: 未設定` otherwise.
    pub fn connection_label(&self) -> (s: String)
        ensures
            s@ == platform_label(self.platform) + if target_ready(*self) {
                ": 設定済み"@
            } else {
                ": 未設定"@
            },
    {
        let mut d: Vec<char> = Vec::new();
        push_str(&mut d, self.platform.label());
        if self.is_ready() {
            push_str(&mut d, ": 設定済み");
        } else {
            push_str(&mut d, ": 未設定");
        }
        string_from_chars(d.as_slice())
    }

    /// The address that FFmpeg publishes to, or `InvalidTarget` when the target is not ready.
    pub fn publish_url(&self) -> (r: Result<String, StreamingError>)
        ensures
            target_ready(*self) ==> (r matches Ok(u) && u@ == publish_address(*self)),
            !target_ready(*self) ==> r matches Err(StreamingError::InvalidTarget),
    {
        if !self.is_ready() {
            return Err(StreamingError::InvalidTarget);
        }
        let raw_url = chars_of(self.server_url.as_str());
        let url = trim_chars(raw_url.as_slice());
        let base = trim_end_matches(url.as_slice(), '/');
        let raw_key = chars_of(self.stream_key.as_str());
        let key = trim_chars(raw_key.as_slice());
        let key = trim_start_matches(key.as_slice(), '/');
        let mut d: Vec<char> = Vec::new();
        push_chars(&mut d, base.as_slice());
        push_str(&mut d, "/");
        push_chars(&mut d, key.as_slice());
        Ok(string_from_chars(d.as_slice()))
    }
}

// ---------------------------------------------------------------------------
// The FFmpeg command line of a stream
// ---------------------------------------------------------------------------

/// The views of a list of strings.
pub open spec fn views(v: Seq<String>) -> Seq<Seq<char>> {
    v.map_values(|s: String| s@)
}

pub(crate) fn push_arg(args: &mut Vec<String>, s: &str)
    ensures
        views(final(args)@) == views(old(args)@).push(s@),
{
    args.push(String::from_str(s));
    assert(views(args@) =~= views(old(args)@).push(s@));
}

fn push_arg_chars(args: &mut Vec<String>, s: &[char])
    ensures
        views(final(args)@) == views(old(args)@).push(s@),
{
    args.push(string_from_chars(s));
    assert(views(args@) =~= views(old(args)@).push(s@));
}

pub(crate) fn push_args(args: &mut Vec<String>, items: &[&str])
    ensures
        views(final(args)@) == views(old(args)@) + items@.map_values(|s: &str| s@),
{
    let ghost start = views(args@);
    let mut i: usize = 0;
    while i < items.len()
        invariant
            i <= items.len(),
            views(args@) == start + items@.subrange(0, i as int).map_values(|s: &str| s@),
        decreases items.len() - i,
    {
        push_arg(args, items[i]);
        i = i + 1;
        assert(items@.subrange(0, i as int).map_values(|s: &str| s@) =~= items@.subrange(
            0,
            i - 1,
        ).map_values(|s: &str| s@).push(items@[i - 1]@));
    }
    assert(items@.subrange(0, items.len() as int) =~= items@);
}

fn decimal_u64(n: u64) -> (s: Vec<char>)
    ensures
        s@ == decimal(n as nat),
{
    decimal_chars(n)
}

/// The options that read one live audio channel from its local UDP port.
pub open spec fn live_input_args(port: u16) -> Seq<Seq<char>> {
    seq![
        "-thread_queue_size"@,
        "1024"@,
        "-f"@,
        "s16le"@,
        "-ar"@,
        "48000"@,
        "-ac"@,
        "2"@,
        "-i"@,
        "udp://127.0.0.1:"@ + decimal(port as nat) + "?fifo_size=1048576&overrun_nonfatal=1"@,
    ]
}

/// The input options of every live audio channel, in order.
pub open spec fn live_inputs_args(ports: Seq<u16>) -> Seq<Seq<char>>
    decreases ports.len(),
{
    if ports.len() == 0 {
        Seq::empty()
    } else {
        live_inputs_args(ports.drop_last()) + live_input_args(ports.last())
    }
}

/// The resampling filter of the `n`-th live channel (FFmpeg input `n + 1`).
pub open spec fn resample_filter(n: nat) -> Seq<char> {
    "["@ + decimal(n + 1) + ":a]aresample=async=1:first_pts=0[a"@ + decimal(n) + "]"@
}

/// The labels `[a0][a1]…` of the first `k` live channels.
pub open spec fn mix_labels(k: nat) -> Seq<char>
    decreases k,
{
    if k == 0 {
        Seq::empty()
    } else {
        mix_labels((k - 1) as nat) + "[a"@ + decimal((k - 1) as nat) + "]"@
    }
}

/// The resampling filters of the first `k` live channels, each followed by `;`.
pub open spec fn resample_filters(k: nat) -> Seq<char>
    decreases k,
{
    if k == 0 {
        Seq::empty()
    } else {
        resample_filters((k - 1) as nat) + resample_filter((k - 1) as nat) + ";"@
    }
}

/// The audio filter graph that mixes `k > 0` live channels into `[aout]`.
pub open spec fn live_mix_graph(k: nat) -> Seq<char> {
    resample_filters(k) + mix_labels(k) + "amix=inputs="@ + decimal(k)
        + ":normalize=0:dropout_transition=2,alimiter=limit=0.95,aresample=44100[aout]"@
}

/// The video bitrate that is streamed: the target's, but at least 500 kbit/s.
pub open spec fn stream_bitrate(c: StreamingTargetConfig) -> nat {
    if c.video_bitrate_kbps < 500 {
        500
    } else {
        c.video_bitrate_kbps as nat
    }
}

/// The key-frame interval: two seconds of frames, at least 30, saturating at `u32::MAX`.
pub open spec fn stream_gop(fps: u32) -> nat {
    let twice: nat = if 2 * fps > u32::MAX {
        u32::MAX as nat
    } else {
        (2 * fps) as nat
    };
    if twice < 30 {
        30
    } else {
        twice
    }
}

/// The encoder buffer: twice the bitrate, saturating at `u32::MAX`.
pub open spec fn stream_bufsize(bitrate: nat) -> nat {
    if 2 * bitrate > u32::MAX {
        u32::MAX as nat
    } else {
        2 * bitrate
    }
}

/// Raw RGBA video read from standard input.
pub open spec fn stream_video_input(source_width: u32, source_height: u32, fps: u32) -> Seq<Seq<char>> {
    seq![
        "-hide_banner"@,
        "-loglevel"@,
        "info"@,
        "-thread_queue_size"@,
        "4"@,
        "-f"@,
        "rawvideo"@,
        "-pixel_format"@,
        "rgba"@,
        "-video_size"@,
        decimal(source_width as nat) + "x"@ + decimal(source_height as nat),
        "-framerate"@,
        decimal(fps as nat),
        "-i"@,
        "pipe:0"@,
    ]
}

/// The live audio inputs, or a silent source when there are none.
pub open spec fn stream_audio_input(ports: Seq<u16>) -> Seq<Seq<char>> {
    if ports.len() == 0 {
        seq!["-f"@, "lavfi"@, "-i"@, "anullsrc=r=44100:cl=stereo"@]
    } else {
        live_inputs_args(ports)
    }
}

/// Scaled x264 video at constant frame rate and bitrate.
pub open spec fn stream_video_output(c: StreamingTargetConfig, width: u32, height: u32, fps: u32) -> Seq<Seq<char>> {
    let bitrate = stream_bitrate(c);
    let kbps = decimal(bitrate) + "k"@;
    let gop = decimal(stream_gop(fps));
    seq![
        "-map"@,
        "0:v:0"@,
        "-vf"@,
        "scale="@ + decimal(width as nat) + ":"@ + decimal(height as nat)
            + ":flags=bicubic,format=yuv420p"@,
        "-c:v"@,
        "libx264"@,
        "-preset"@,
        "veryfast"@,
        "-tune"@,
        "zerolatency"@,
        "-profile:v"@,
        "high"@,
        "-pix_fmt"@,
        "yuv420p"@,
        "-r"@,
        decimal(fps as nat),
        "-fps_mode"@,
        "cfr"@,
        "-b:v"@,
        kbps,
        "-minrate"@,
        kbps,
        "-maxrate"@,
        kbps,
        "-bufsize"@,
        decimal(stream_bufsize(bitrate)) + "k"@,
        "-g"@,
        gop,
        "-keyint_min"@,
        gop,
        "-sc_threshold"@,
        "0"@,
    ]
}

/// The audio that is encoded: the silent source, or the mix of the live inputs.
pub open spec fn stream_audio_mapping(ports: Seq<u16>) -> Seq<Seq<char>> {
    if ports.len() == 0 {
        seq!["-map"@, "1:a:0"@]
    } else {
        seq!["-filter_complex"@, live_mix_graph(ports.len()), "-map"@, "[aout]"@]
    }
}

/// AAC audio into an FLV stream at the publish address.
pub open spec fn stream_output(c: StreamingTargetConfig) -> Seq<Seq<char>> {
    seq![
        "-c:a"@,
        "aac"@,
        "-b:a"@,
        "128k"@,
        "-ar"@,
        "44100"@,
        "-ac"@,
        "2"@,
        "-flvflags"@,
        "no_duration_filesize"@,
        "-f"@,
        "flv"@,
        publish_address(c),
    ]
}

/// The complete FFmpeg argument list of a stream that reads raw RGBA video
/// from standard input and live audio from `ports` (or silence when there are none).
pub open spec fn stream_arguments(
    c: StreamingTargetConfig,
    source_width: u32,
    source_height: u32,
    width: u32,
    height: u32,
    fps: u32,
    ports: Seq<u16>,
) -> Seq<Seq<char>> {
    stream_video_input(source_width, source_height, fps) + stream_audio_input(ports)
        + stream_video_output(c, width, height, fps) + stream_audio_mapping(ports) + stream_output(c)
}

/// Arguments `k` to `k + 7` set the video rate: `-b:v`, `-minrate` and
/// `-maxrate` to `rate`, and `-bufsize` to `bufsize`.
pub open spec fn sets_video_rate(args: Seq<Seq<char>>, k: int, rate: Seq<char>, bufsize: Seq<char>) -> bool {
    &&& 0 <= k && k + 8 <= args.len()
    &&& args[k] == "-b:v"@
    &&& args[k + 1] == rate
    &&& args[k + 2] == "-minrate"@
    &&& args[k + 3] == rate
    &&& args[k + 4] == "-maxrate"@
    &&& args[k + 5] == rate
    &&& args[k + 6] == "-bufsize"@
    &&& args[k + 7] == bufsize
}

/// Arguments `k` to `k + 3` set the key-frame interval: `-g` and
/// `-keyint_min` both to `gop` frames.
pub open spec fn sets_key_interval(args: Seq<Seq<char>>, k: int, gop: Seq<char>) -> bool {
    &&& 0 <= k && k + 4 <= args.len()
    &&& args[k] == "-g"@
    &&& args[k + 1] == gop
    &&& args[k + 2] == "-keyint_min"@
    &&& args[k + 3] == gop
}

/// A stream is encoded at the target's bitrate (500 kbit/s at the least):
/// after the 15 video-input arguments and the audio inputs (4 for silence,
/// 10 per live channel) and 18 more output arguments, `-b:v`, `-minrate`
/// and `-maxrate` all give that bitrate in kbit/s, and `-bufsize` twice it
/// (at most `u32::MAX`); then `-g` and `-keyint_min` give two seconds of
/// frames, at least 30 (at most `u32::MAX`).
pub proof fn lemma_stream_uses_target_bitrate(
    c: StreamingTargetConfig,
    source_width: u32,
    source_height: u32,
    width: u32,
    height: u32,
    fps: u32,
    ports: Seq<u16>,
)
    ensures
        sets_video_rate(
            stream_arguments(c, source_width, source_height, width, height, fps, ports),
            33 + if ports.len() == 0 { 4int } else { 10 * ports.len() as int },
            decimal(if c.video_bitrate_kbps < 500 { 500nat } else { c.video_bitrate_kbps as nat }) + "k"@,
            decimal(
                if 2 * (if c.video_bitrate_kbps < 500 { 500nat } else { c.video_bitrate_kbps as nat }) > u32::MAX {
                    u32::MAX as nat
                } else {
                    2 * (if c.video_bitrate_kbps < 500 { 500nat } else { c.video_bitrate_kbps as nat })
                },
            ) + "k"@,
        ),
        sets_key_interval(
            stream_arguments(c, source_width, source_height, width, height, fps, ports),
            41 + if ports.len() == 0 { 4int } else { 10 * ports.len() as int },
            decimal(
                if 2 * fps < 30 { 30nat } else if 2 * fps > u32::MAX { u32::MAX as nat } else { (2 * fps) as nat },
            ),
        ),
{
    lemma_live_inputs_len(ports);
    let a = stream_arguments(c, source_width, source_height, width, height, fps, ports);
    let vi = stream_video_input(source_width, source_height, fps);
    let ai = stream_audio_input(ports);
    let vo = stream_video_output(c, width, height, fps);
    let rest = stream_audio_mapping(ports) + stream_output(c);
    assert(a =~= vi + ai + vo + rest);
    let k: int = vi.len() + ai.len() + 18int;
    assert(k == 33 + if ports.len() == 0 { 4int } else { 10 * ports.len() as int });
    assert forall|j: int| 0 <= j < 8 implies a[k + j] == #[trigger] vo[18 + j] by {
        assert((vi + ai + vo + rest)[k + j] == vo[18 + j]);
    }
    assert(a[k] == vo[18]);
    assert(a[k + 1] == vo[19]);
    assert(a[k + 2] == vo[20]);
    assert(a[k + 3] == vo[21]);
    assert(a[k + 4] == vo[22]);
    assert(a[k + 5] == vo[23]);
    assert(a[k + 6] == vo[24]);
    assert(a[k + 7] == vo[25]);
    assert forall|j: int| 8 <= j < 12 implies a[k + j] == #[trigger] vo[18 + j] by {
        assert((vi + ai + vo + rest)[k + j] == vo[18 + j]);
    }
    assert(a[k + 8] == vo[26]);
    assert(a[k + 9] == vo[27]);
    assert(a[k + 10] == vo[28]);
    assert(a[k + 11] == vo[29]);
}

/// A ready target publishes to its server URL, trimmed and without trailing
/// `/`, then one `/`, then its stream key exactly as entered apart from
/// surrounding whitespace and leading `/` (letter case and every other
/// character kept).
pub proof fn lemma_publish_address_keeps_key(c: StreamingTargetConfig)
    ensures
        publish_address(c).len() == trim_end_char(trim(c.server_url@), '/').len() + 1
            + trim_start_char(trim(c.stream_key@), '/').len(),
        publish_address(c).take(trim_end_char(trim(c.server_url@), '/').len() as int) == trim_end_char(
            trim(c.server_url@),
            '/',
        ),
        publish_address(c)[trim_end_char(trim(c.server_url@), '/').len() as int] == '/',
        publish_address(c).skip(trim_end_char(trim(c.server_url@), '/').len() + 1int) == trim_start_char(
            trim(c.stream_key@),
            '/',
        ),
{
    let base = trim_end_char(trim(c.server_url@), '/');
    let key = trim_start_char(trim(c.stream_key@), '/');
    let u = publish_address(c);
    reveal_strlit("/");
    assert(u == base + "/"@ + key);
    assert(u.take(base.len() as int) =~= base);
    assert(u.skip(base.len() + 1int) =~= key);
    assert(u[base.len() as int] == "/"@[0]);
}

fn push_live_inputs(args: &mut Vec<String>, ports: &[u16])
    ensures
        views(final(args)@) == views(old(args)@) + live_inputs_args(ports@),
{
    let ghost start = views(args@);
    let mut i: usize = 0;
    while i < ports.len()
        invariant
            i <= ports.len(),
            views(args@) == start + live_inputs_args(ports@.subrange(0, i as int)),
        decreases ports.len() - i,
    {
        let ghost before = views(args@);
        push_args(args, &["-thread_queue_size", "1024", "-f", "s16le", "-ar", "48000", "-ac", "2", "-i"]);
        let mut url: Vec<char> = Vec::new();
        push_str(&mut url, "udp://127.0.0.1:");
        let digits = decimal_u64(ports[i] as u64);
        push_chars(&mut url, digits.as_slice());
        push_str(&mut url, "?fifo_size=1048576&overrun_nonfatal=1");
        push_arg_chars(args, url.as_slice());
        proof {
            let items: Seq<&str> = seq!["-thread_queue_size", "1024", "-f", "s16le", "-ar", "48000", "-ac", "2", "-i"];
            assert(ports@.subrange(0, i + 1).drop_last() =~= ports@.subrange(0, i as int));
            assert(views(args@) =~= before + live_input_args(ports@[i as int]));
        }
        i = i + 1;
    }
    assert(ports@.subrange(0, ports.len() as int) =~= ports@);
}

proof fn lemma_live_inputs_len(ports: Seq<u16>)
    ensures
        live_inputs_args(ports).len() == 10 * ports.len(),
    decreases ports.len(),
{
    if ports.len() > 0 {
        lemma_live_inputs_len(ports.drop_last());
    }
}

fn live_mix_graph_chars(k: usize) -> (out: Vec<char>)
    requires
        k > 0,
    ensures
        out@ == live_mix_graph(k as nat),
{
    let mut filters: Vec<char> = Vec::new();
    let mut labels: Vec<char> = Vec::new();
    let mut n: usize = 0;
    while n < k
        invariant
            n <= k,
            filters@ == resample_filters(n as nat),
            labels@ == mix_labels(n as nat),
        decreases k - n,
    {
        push_str(&mut filters, "[");
        let input_index = decimal_u64(n as u64 + 1);
        push_chars(&mut filters, input_index.as_slice());
        push_str(&mut filters, ":a]aresample=async=1:first_pts=0[a");
        let this_index = decimal_u64(n as u64);
        push_chars(&mut filters, this_index.as_slice());
        push_str(&mut filters, "]");
        push_str(&mut filters, ";");
        push_str(&mut labels, "[a");
        push_chars(&mut labels, this_index.as_slice());
        push_str(&mut labels, "]");
        proof {
            assert(filters@ =~= resample_filters(n as nat) + resample_filter(n as nat) + ";"@);
            assert(labels@ =~= mix_labels(n as nat) + "[a"@ + decimal(n as nat) + "]"@);
        }
        n = n + 1;
    }
    let mut out: Vec<char> = Vec::new();
    push_chars(&mut out, filters.as_slice());
    push_chars(&mut out, labels.as_slice());
    push_str(&mut out, "amix=inputs=");
    let count = decimal_u64(k as u64);
    push_chars(&mut out, count.as_slice());
    push_str(&mut out, ":normalize=0:dropout_transition=2,alimiter=limit=0.95,aresample=44100[aout]");
    out
}

fn kbps_chars(bitrate: u32) -> (s: Vec<char>)
    ensures
        s@ == decimal(bitrate as nat) + "k"@,
{
    let mut s = decimal_u64(bitrate as u64);
    push_str(&mut s, "k");
    s
}

/// The FFmpeg arguments of a stream, or why it cannot start: `InvalidTarget`
/// when the target is not ready, `Spawn` when the source size is still unknown.
pub fn streaming_ffmpeg_args(
    target: &StreamingTargetConfig,
    source_width: u32,
    source_height: u32,
    width: u32,
    height: u32,
    fps: u32,
    live_ports: &[u16],
) -> (r: Result<Vec<String>, StreamingError>)
    ensures
        !target_ready(*target) ==> r matches Err(StreamingError::InvalidTarget),
        target_ready(*target) && (source_width == 0 || source_height == 0) ==> (r matches Err(
            StreamingError::Spawn(m),
        ) && m@ == "映像ソースのサイズを取得できていません"@),
        target_ready(*target) && source_width != 0 && source_height != 0 ==> (r matches Ok(args)
            && views(args@) == stream_arguments(
            *target,
            source_width,
            source_height,
            width,
            height,
            fps,
            live_ports@,
        )),
{
    let publish_url = match target.publish_url() {
        Ok(u) => u,
        Err(e) => {
            return Err(e);
        },
    };
    if source_width == 0 || source_height == 0 {
        return Err(StreamingError::Spawn(String::from_str("映像ソースのサイズを取得できていません")));
    }
    let mut args = video_input_args(source_width, source_height, fps);
    let mut audio_in = audio_input_args(live_ports);
    let mut video_out = video_output_args(target, width, height, fps);
    let mut audio_map = audio_mapping_args(live_ports);
    let mut output = output_args(publish_url.as_str());
    let ghost a = views(args@);
    let ghost b = views(audio_in@);
    let ghost c = views(video_out@);
    let ghost d = views(audio_map@);
    let ghost e = views(output@);
    let ghost sa = args@;
    let ghost sb = audio_in@;
    let ghost sc = video_out@;
    let ghost sd = audio_map@;
    let ghost se = output@;
    args.append(&mut audio_in);
    args.append(&mut video_out);
    args.append(&mut audio_map);
    args.append(&mut output);
    proof {
        assert(args@ =~= sa + sb + sc + sd + se);
        assert(views(args@) =~= a + b + c + d + e);
    }
    Ok(args)
}

/// What starting a stream decides before FFmpeg is spawned, given whether
/// FFmpeg was found: `InvalidTarget` when the target is not ready, then
/// `FfmpegMissing` when FFmpeg was not found, then `Spawn` when the source
/// size is still unknown; otherwise the arguments of the stream.
pub fn stream_start_args(
    target: &StreamingTargetConfig,
    ffmpeg_found: bool,
    source_width: u32,
    source_height: u32,
    width: u32,
    height: u32,
    fps: u32,
    live_ports: &[u16],
) -> (r: Result<Vec<String>, StreamingError>)
    ensures
        !target_ready(*target) ==> r matches Err(StreamingError::InvalidTarget),
        target_ready(*target) && !ffmpeg_found ==> r matches Err(StreamingError::FfmpegMissing),
        target_ready(*target) && ffmpeg_found && (source_width == 0 || source_height == 0) ==> (r matches Err(
            StreamingError::Spawn(m),
        ) && m@ == "映像ソースのサイズを取得できていません"@),
        target_ready(*target) && ffmpeg_found && source_width != 0 && source_height != 0 ==> (r matches Ok(
            args,
        ) && views(args@) == stream_arguments(
            *target,
            source_width,
            source_height,
            width,
            height,
            fps,
            live_ports@,
        )),
{
    if !target.is_ready() {
        return Err(StreamingError::InvalidTarget);
    }
    if !ffmpeg_found {
        return Err(StreamingError::FfmpegMissing);
    }
    streaming_ffmpeg_args(target, source_width, source_height, width, height, fps, live_ports)
}

// ---------------------------------------------------------------------------
// Pacing the frames written to FFmpeg
// ---------------------------------------------------------------------------

/// What the frame writer does at time `now` (nanoseconds on its clock).
#[derive(Debug, Clone, Copy, PartialEq, Eq, Structural)]
pub enum PaceAction {
    /// Wait this many nanoseconds for a newer frame, then decide again.
    Wait(u64),
    /// Write the newest frame now.
    Write,
}

/// Waits until the next tick, and writes once it has come.
pub fn pace_action(now: u64, next_tick: u64) -> (a: PaceAction)
    ensures
        a == if now < next_tick {
            PaceAction::Wait((next_tick - now) as u64)
        } else {
            PaceAction::Write
        },
{
    if now < next_tick {
        PaceAction::Wait(next_tick - now)
    } else {
        PaceAction::Write
    }
}

/// The tick after a frame was written at tick `next_tick`: one interval
/// later, or one interval after `now` when that would still leave the writer
/// more than one interval behind the clock.
pub open spec fn following_tick(next_tick: nat, interval: nat, now: nat) -> nat {
    if next_tick + interval + interval < now {
        now + interval
    } else {
        next_tick + interval
    }
}

/// The next tick after a write (see `following_tick`); the writer is never
/// left more than one interval behind `now`.
pub fn next_tick_after_write(next_tick: u64, interval: u64, now: u64) -> (t: u64)
    requires
        next_tick + interval + interval <= u64::MAX,
        next_tick + interval + interval < now ==> now + interval <= u64::MAX,
    ensures
        t == following_tick(next_tick as nat, interval as nat, now as nat),
        t + interval >= now,
{
    let t = next_tick + interval;
    if t + interval < now {
        now + interval
    } else {
        t
    }
}

fn video_input_args(source_width: u32, source_height: u32, fps: u32) -> (args: Vec<String>)
    ensures
        views(args@) == stream_video_input(source_width, source_height, fps),
{
    let mut args: Vec<String> = Vec::new();
    push_args(
        &mut args,
        &[
            "-hide_banner",
            "-loglevel",
            "info",
            "-thread_queue_size",
            "4",
            "-f",
            "rawvideo",
            "-pixel_format",
            "rgba",
            "-video_size",
        ],
    );
    let mut size: Vec<char> = decimal_u64(source_width as u64);
    push_str(&mut size, "x");
    let sh = decimal_u64(source_height as u64);
    push_chars(&mut size, sh.as_slice());
    push_arg_chars(&mut args, size.as_slice());
    push_arg(&mut args, "-framerate");
    let fps_text = decimal_u64(fps as u64);
    push_arg_chars(&mut args, fps_text.as_slice());
    push_args(&mut args, &["-i", "pipe:0"]);
    assert(views(args@) =~= stream_video_input(source_width, source_height, fps));
    args
}

fn audio_input_args(ports: &[u16]) -> (args: Vec<String>)
    ensures
        views(args@) == stream_audio_input(ports@),
{
    let mut args: Vec<String> = Vec::new();
    if ports.len() == 0 {
        push_args(&mut args, &["-f", "lavfi", "-i", "anullsrc=r=44100:cl=stereo"]);
        assert(views(args@) =~= stream_audio_input(ports@));
    } else {
        push_live_inputs(&mut args, ports);
        assert(views(args@) =~= stream_audio_input(ports@));
    }
    args
}

fn video_output_args(target: &StreamingTargetConfig, width: u32, height: u32, fps: u32) -> (args: Vec<String>)
    ensures
        views(args@) == stream_video_output(*target, width, height, fps),
{
    let bitrate: u32 = if target.video_bitrate_kbps < 500 {
        500
    } else {
        target.video_bitrate_kbps
    };
    let bufsize: u32 = match bitrate.checked_mul(2) {
        Some(b) => b,
        None => u32::MAX,
    };
    let twice_fps: u32 = match fps.checked_mul(2) {
        Some(g) => g,
        None => u32::MAX,
    };
    let gop: u32 = if twice_fps < 30 {
        30
    } else {
        twice_fps
    };
    let fps_text = decimal_u64(fps as u64);
    let gop_text = decimal_u64(gop as u64);
    let kbps = kbps_chars(bitrate);
    let mut args: Vec<String> = Vec::new();
    let mut scale: Vec<char> = Vec::new();
    push_str(&mut scale, "scale=");
    let w = decimal_u64(width as u64);
    push_chars(&mut scale, w.as_slice());
    push_str(&mut scale, ":");
    let h = decimal_u64(height as u64);
    push_chars(&mut scale, h.as_slice());
    push_str(&mut scale, ":flags=bicubic,format=yuv420p");
    push_args(&mut args, &["-map", "0:v:0", "-vf"]);
    push_arg_chars(&mut args, scale.as_slice());
    push_args(
        &mut args,
        &[
            "-c:v",
            "libx264",
            "-preset",
            "veryfast",
            "-tune",
            "zerolatency",
            "-profile:v",
            "high",
            "-pix_fmt",
            "yuv420p",
            "-r",
        ],
    );
    push_arg_chars(&mut args, fps_text.as_slice());
    push_args(&mut args, &["-fps_mode", "cfr", "-b:v"]);
    push_arg_chars(&mut args, kbps.as_slice());
    push_arg(&mut args, "-minrate");
    push_arg_chars(&mut args, kbps.as_slice());
    push_arg(&mut args, "-maxrate");
    push_arg_chars(&mut args, kbps.as_slice());
    push_arg(&mut args, "-bufsize");
    let buf = kbps_chars(bufsize);
    push_arg_chars(&mut args, buf.as_slice());
    push_arg(&mut args, "-g");
    push_arg_chars(&mut args, gop_text.as_slice());
    push_arg(&mut args, "-keyint_min");
    push_arg_chars(&mut args, gop_text.as_slice());
    push_args(&mut args, &["-sc_threshold", "0"]);
    assert(views(args@) =~= stream_video_output(*target, width, height, fps));
    args
}

fn audio_mapping_args(ports: &[u16]) -> (args: Vec<String>)
    ensures
        views(args@) == stream_audio_mapping(ports@),
{
    let mut args: Vec<String> = Vec::new();
    if ports.len() == 0 {
        push_args(&mut args, &["-map", "1:a:0"]);
    } else {
        push_arg(&mut args, "-filter_complex");
        let graph = live_mix_graph_chars(ports.len());
        push_arg_chars(&mut args, graph.as_slice());
        push_args(&mut args, &["-map", "[aout]"]);
    }
    assert(views(args@) =~= stream_audio_mapping(ports@));
    args
}

fn output_args(publish_url: &str) -> (args: Vec<String>)
    ensures
        views(args@) == seq![
            "-c:a"@,
            "aac"@,
            "-b:a"@,
            "128k"@,
            "-ar"@,
            "44100"@,
            "-ac"@,
            "2"@,
            "-flvflags"@,
            "no_duration_filesize"@,
            "-f"@,
            "flv"@,
            publish_url@,
        ],
{
    let mut args: Vec<String> = Vec::new();
    push_args(
        &mut args,
        &[
            "-c:a",
            "aac",
            "-b:a",
            "128k",
            "-ar",
            "44100",
            "-ac",
            "2",
            "-flvflags",
            "no_duration_filesize",
            "-f",
            "flv",
        ],
    );
    push_arg(&mut args, publish_url);
    assert(views(args@) =~= seq![
        "-c:a"@,
        "aac"@,
        "-b:a"@,
        "128k"@,
        "-ar"@,
        "44100"@,
        "-ac"@,
        "2"@,
        "-flvflags"@,
        "no_duration_filesize"@,
        "-f"@,
        "flv"@,
        publish_url@,
    ]);
    args
}

// ---------------------------------------------------------------------------
// Diagnostics
// ---------------------------------------------------------------------------

/// The index of the first `'\n'` in `s`, if any.
pub open spec fn first_newline(s: Seq<char>) -> Option<int> {
    if exists|i: int| 0 <= i < s.len() && s[i] == '\n' && forall|j: int| 0 <= j < i ==> s[j] != '\n' {
        Some(choose|i: int| 0 <= i < s.len() && s[i] == '\n' && forall|j: int| 0 <= j < i ==> s[j] != '\n')
    } else {
        None
    }
}

/// A line without the `'\r'` of a `"\r\n"` ending.
pub open spec fn strip_cr(line: Seq<char>) -> Seq<char> {
    if line.len() > 0 && line.last() == '\r' {
        line.drop_last()
    } else {
        line
    }
}

/// The lines of `s` as `str::lines` yields them: split at `'\n'`, a `'\r'`
/// before the `'\n'` removed, and no empty line after a final `'\n'`.
pub open spec fn lines_of(s: Seq<char>) -> Seq<Seq<char>>
    decreases s.len(),
{
    if s.len() == 0 {
        Seq::empty()
    } else {
        match first_newline(s) {
            Some(i) => seq![strip_cr(s.subrange(0, i))] + lines_of(s.subrange(i + 1, s.len() as int)),
            None => seq![s],
        }
    }
}

/// Whether a line holds more than white space.
pub open spec fn nonblank() -> spec_fn(Seq<char>) -> bool {
    |l: Seq<char>| trim(l).len() > 0
}

/// The lines that are not blank.
pub open spec fn nonblank_lines(lines: Seq<Seq<char>>) -> Seq<Seq<char>> {
    lines.filter(nonblank())
}

/// `parts` joined with `sep` between them.
pub open spec fn join_with(parts: Seq<Seq<char>>, sep: Seq<char>) -> Seq<char>
    decreases parts.len(),
{
    if parts.len() == 0 {
        Seq::empty()
    } else if parts.len() == 1 {
        parts[0]
    } else {
        join_with(parts.drop_last(), sep) + sep + parts.last()
    }
}

/// The summary of FFmpeg's log: its last four non-blank lines joined by `" | "`,
/// or a note that FFmpeg said nothing.
pub open spec fn diagnostics_text(log: Seq<char>) -> Seq<char> {
    let lines = nonblank_lines(lines_of(log));
    if lines.len() == 0 {
        "FFmpegから診断メッセージはありませんでした"@
    } else if lines.len() <= 4 {
        join_with(lines, " | "@)
    } else {
        join_with(lines.subrange(lines.len() - 4, lines.len() as int), " | "@)
    }
}

proof fn lemma_first_newline_at(s: Seq<char>, k: int)
    requires
        0 <= k < s.len(),
        s[k] == '\n',
        forall|j: int| 0 <= j < k ==> s[j] != '\n',
    ensures
        first_newline(s) == Some(k),
{
    let i = choose|i: int| 0 <= i < s.len() && s[i] == '\n' && forall|j: int| 0 <= j < i ==> s[j] != '\n';
    assert(0 <= i < s.len() && s[i] == '\n' && forall|j: int| 0 <= j < i ==> s[j] != '\n');
    if i < k {
        assert(s[i] != '\n');
    }
    if k < i {
        assert(s[k] != '\n');
    }
}

proof fn lemma_no_newline(s: Seq<char>)
    requires
        forall|j: int| 0 <= j < s.len() ==> s[j] != '\n',
    ensures
        first_newline(s) is None,
{
}

proof fn lemma_lines_step(all: Seq<char>, start: int, i: int)
    requires
        0 <= start <= i < all.len(),
        all[i] == '\n',
        forall|j: int| start <= j < i ==> all[j] != '\n',
    ensures
        nonblank_lines(lines_of(all.subrange(start, all.len() as int))) == nonblank_lines(
            seq![strip_cr(all.subrange(start, i))],
        ) + nonblank_lines(lines_of(all.subrange(i + 1, all.len() as int))),
{
    let n = all.len() as int;
    let t = all.subrange(start, n);
    let k = i - start;
    assert forall|j: int| 0 <= j < k implies t[j] != '\n' by {
        assert(t[j] == all[start + j]);
    }
    lemma_first_newline_at(t, k);
    assert(t.subrange(0, k) =~= all.subrange(start, i));
    assert(t.subrange(k + 1, t.len() as int) =~= all.subrange(i + 1, n));
    let rest = lines_of(all.subrange(i + 1, n));
    assert(lines_of(t) == seq![strip_cr(all.subrange(start, i))] + rest);
    Seq::filter_distributes_over_add(seq![strip_cr(all.subrange(start, i))], rest, nonblank());
}

/// The views of a list of character vectors.
pub open spec fn char_views(v: Seq<Vec<char>>) -> Seq<Seq<char>> {
    v.map_values(|c: Vec<char>| c@)
}

fn keep_if_nonblank(kept: &mut Vec<Vec<char>>, line: Vec<char>)
    ensures
        char_views(final(kept)@) == char_views(old(kept)@) + nonblank_lines(seq![line@]),
{
    let t = trim_chars(line.as_slice());
    let ghost before = char_views(kept@);
    let ghost one = seq![line@];
    proof {
        reveal_with_fuel(Seq::<Seq<char>>::filter, 2);
        assert(one.drop_last() =~= Seq::<Seq<char>>::empty());
    }
    if t.len() > 0 {
        kept.push(line);
        assert(char_views(kept@) =~= before + one);
    } else {
        assert(char_views(kept@) =~= before);
        assert(before + Seq::<Seq<char>>::empty() =~= before);
    }
}

fn strip_cr_chars(line: Vec<char>) -> (out: Vec<char>)
    ensures
        out@ == strip_cr(line@),
{
    let mut out = line;
    if out.len() > 0 && out[out.len() - 1] == '\r' {
        out.pop();
    }
    out
}

fn join_lines(parts: &[Vec<char>], from: usize) -> (out: Vec<char>)
    requires
        from < parts.len(),
    ensures
        out@ == join_with(char_views(parts@).subrange(from as int, parts@.len() as int), " | "@),
{
    let ghost pv = char_views(parts@);
    let mut out: Vec<char> = Vec::new();
    push_chars(&mut out, parts[from].as_slice());
    let mut i = from + 1;
    proof {
        let sub = pv.subrange(from as int, i as int);
        assert(sub.len() == 1);
        assert(sub[0] == parts@[from as int]@);
    }
    while i < parts.len()
        invariant
            from < i <= parts.len(),
            pv == char_views(parts@),
            out@ == join_with(pv.subrange(from as int, i as int), " | "@),
        decreases parts.len() - i,
    {
        push_str(&mut out, " | ");
        push_chars(&mut out, parts[i].as_slice());
        proof {
            let sub = pv.subrange(from as int, i + 1);
            assert(sub.drop_last() =~= pv.subrange(from as int, i as int));
            assert(sub.last() == parts@[i as int]@);
        }
        i = i + 1;
    }
    out
}

/// Summarizes FFmpeg's log for the status line: its last four non-blank
/// lines joined by `" | "`, or a note that FFmpeg printed nothing.
pub fn summarize_diagnostics(log: &str) -> (s: String)
    ensures
        s@ == diagnostics_text(log@),
{
    let cs = chars_of(log);
    let n = cs.len();
    let ghost all = log@;
    let mut kept: Vec<Vec<char>> = Vec::new();
    let mut start: usize = 0;
    let mut i: usize = 0;
    assert(all.subrange(0, n as int) =~= all);
    while i < n
        invariant
            start <= i <= n,
            n == all.len(),
            cs@ == all,
            nonblank_lines(lines_of(all)) == char_views(kept@) + nonblank_lines(lines_of(all.subrange(start as int, n as int))),
            forall|j: int| start <= j < i ==> all[j] != '\n',
        decreases n - i,
    {
        if cs[i] == '\n' {
            let line = crate::text::slice_range(cs.as_slice(), start, i);
            let line = strip_cr_chars(line);
            proof {
                lemma_lines_step(all, start as int, i as int);
            }
            let ghost kept_before = char_views(kept@);
            keep_if_nonblank(&mut kept, line);
            proof {
                let rest = nonblank_lines(lines_of(all.subrange(i + 1, n as int)));
                assert(char_views(kept@) + rest =~= kept_before + nonblank_lines(seq![strip_cr(all.subrange(start as int, i as int))]) + rest);
            }
            start = i + 1;
        }
        i = i + 1;
    }
    if start < n {
        let line = crate::text::slice_range(cs.as_slice(), start, n);
        proof {
            let t = all.subrange(start as int, n as int);
            assert forall|j: int| 0 <= j < t.len() implies t[j] != '\n' by {
                assert(t[j] == all[start + j]);
            }
            lemma_no_newline(t);
            assert(lines_of(t) == seq![t]);
            assert(line@ == t);
        }
        let ghost kept_before = char_views(kept@);
        keep_if_nonblank(&mut kept, line);
        proof {
            assert(nonblank_lines(lines_of(all)) =~= char_views(kept@));
        }
    } else {
        proof {
            assert(all.subrange(start as int, n as int).len() == 0);
            assert(nonblank_lines(lines_of(all)) =~= char_views(kept@));
        }
    }
    let ghost lines = nonblank_lines(lines_of(all));
    assert(lines == char_views(kept@));
    if kept.len() == 0 {
        return String::from_str("FFmpegから診断メッセージはありませんでした");
    }
    let from = if kept.len() <= 4 {
        0
    } else {
        kept.len() - 4
    };
    let out = join_lines(kept.as_slice(), from);
    proof {
        if kept.len() <= 4 {
            assert(char_views(kept@).subrange(0, kept@.len() as int) =~= lines);
        }
    }
    string_from_chars(out.as_slice())
}

} // verus!
