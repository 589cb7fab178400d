//! Small decisions of the desktop front end: name shortening, repaint pacing,
//! library file types and persisted-setting defaults.
use vstd::prelude::*;
use std::sync::atomic::{AtomicU64, Ordering};
use std::time::{Duration, Instant};
use crate::capture::PreviewMode;
use crate::session::{preset_dimensions, StreamPreset};
use crate::recording::{duration_as_nanos, duration_nanos};
use crate::addon::{file_name_of, path_file_name};
use crate::order::{
    lemma_insert_by_at, lemma_lex_le_total, lemma_lex_le_transitive, lemma_stable_sort_multiset,
    lemma_stable_sort_sorted, lex_compare, lex_le, sorted_by, stable_sort_by, total_preorder,
};
use crate::text::{ascii_lower, chars_of, eq_str, slice_range, string_from_chars, to_ascii_lower};

verus! {

// ---------------------------------------------------------------------------
// Fixed labels of the main window
// ---------------------------------------------------------------------------

/// The buttons and status of the stream toolbar.
pub const STREAM_TOOLBAR_LABELS: [&'static str; 4] = ["録画", "配信", "録画＋配信", "配信先: 未設定"];

/// The channels that the compact mixer always shows.
pub const MIXER_CHANNELS: [&'static str; 3] = ["PC音声", "マイク", "配信Mix"];

/// The scenes offered by the scene shell.
pub const SCENE_LABELS: [&'static str; 4] = ["ゲーム", "雑談", "作業", "離席"];

/// The kinds of source offered by the source shell.
pub const SOURCE_LABELS: [&'static str; 4] = ["ゲームキャプチャ", "ワイプ", "画像 / アイコン", "テキスト"];

// ---------------------------------------------------------------------------
// Source names
// ---------------------------------------------------------------------------

/// `name` cut to at most `max_chars` characters, ending in `…` when it was cut.
pub open spec fn compact_text(name: Seq<char>, max_chars: nat) -> Seq<char> {
    if max_chars == 0 {
        Seq::empty()
    } else if name.len() <= max_chars {
        name
    } else if max_chars == 1 {
        seq!['…']
    } else {
        name.take(max_chars - 1).push('…')
    }
}

/// Shortens a source name for the fixed-width source selector.
pub fn compact_source_name(name: &str, max_chars: usize) -> (s: String)
    ensures
        s@ == compact_text(name@, max_chars as nat),
        s@.len() <= max_chars,
        name@.len() > max_chars && max_chars > 0 ==> s@.last() == '…',
        name@.len() <= max_chars ==> s@ == name@,
        name@.len() > max_chars && max_chars > 0 ==> s@.len() == max_chars && s@.take(max_chars - 1) == name@.take(
            max_chars - 1,
        ),
{
    if max_chars == 0 {
        return String::new();
    }
    let cs = chars_of(name);
    if cs.len() <= max_chars {
        return String::from_str(name);
    }
    let mut out: Vec<char> = if max_chars == 1 {
        Vec::new()
    } else {
        slice_range(cs.as_slice(), 0, max_chars - 1)
    };
    out.push('…');
    assert(out@ =~= compact_text(name@, max_chars as nat));
    string_from_chars(out.as_slice())
}

// ---------------------------------------------------------------------------
// Repaint pacing
// ---------------------------------------------------------------------------

/// The mixer window repaints at about 30 Hz while open and 4 Hz while closed.
pub fn mixer_ui_repaint_ms(open: bool) -> (ms: u64)
    ensures
        ms == if open {
            33u64
        } else {
            250u64
        },
{
    if open {
        33
    } else {
        250
    }
}

/// The preview rate that the capture should run at: 30 FPS while streaming
/// (the stream is fed from the preview) or while the preview window is open,
/// the chosen recording preview rate while recording, 30 FPS while the
/// source size is still unknown, and off otherwise.
pub open spec fn desired_preview(
    streaming: bool,
    preview_open: bool,
    recording: bool,
    recording_preview_mode: PreviewMode,
    preview_width: u32,
    preview_height: u32,
) -> PreviewMode {
    if streaming || preview_open {
        PreviewMode::Fps30
    } else if recording {
        recording_preview_mode
    } else if preview_width == 0 || preview_height == 0 {
        PreviewMode::Fps30
    } else {
        PreviewMode::Off
    }
}

/// Chooses the capture's preview rate (see `desired_preview`).
pub fn desired_preview_mode(
    streaming: bool,
    preview_open: bool,
    recording: bool,
    recording_preview_mode: PreviewMode,
    preview_width: u32,
    preview_height: u32,
) -> (m: PreviewMode)
    ensures
        m == desired_preview(
            streaming,
            preview_open,
            recording,
            recording_preview_mode,
            preview_width,
            preview_height,
        ),
{
    if streaming {
        return PreviewMode::Fps30;
    }
    if preview_open {
        return PreviewMode::Fps30;
    }
    if recording {
        return recording_preview_mode;
    }
    if preview_width == 0 || preview_height == 0 {
        return PreviewMode::Fps30;
    }
    PreviewMode::Off
}

/// Whether choosing `preset` restarts the capture: only when its frame rate
/// differs from the capture's and no recording is running or being finished.
pub fn capture_restart_needed(
    preset: StreamPreset,
    capture_fps: u32,
    recording: bool,
    finalizing: bool,
) -> (b: bool)
    ensures
        b == (preset_dimensions(preset).2 != capture_fps && !recording && !finalizing),
{
    let new_fps = preset.dimensions().2;
    new_fps != capture_fps && !recording && !finalizing
}

/// How often the main window repaints: 30 Hz while streaming, the preview
/// rate while recording, and 10 Hz otherwise, whether or not the preview is open.
pub fn main_ui_repaint_ms(
    streaming: bool,
    preview_open: bool,
    recording: bool,
    recording_preview_mode: PreviewMode,
) -> (ms: u64)
    ensures
        ms == if streaming {
            33u64
        } else if recording {
            match recording_preview_mode {
                PreviewMode::Fps30 => 33u64,
                PreviewMode::Fps15 => 66u64,
                PreviewMode::Off => 250u64,
            }
        } else {
            100u64
        },
{
    if streaming {
        33
    } else if recording {
        match recording_preview_mode {
            PreviewMode::Fps30 => 33,
            PreviewMode::Fps15 => 66,
            PreviewMode::Off => 250,
        }
    } else {
        100
    }
}

#[verifier::external_type_specification]
#[verifier::external_body]
pub struct ExInstant(Instant);

/// The time from `earlier` to `now` in nanoseconds, zero when `now` is earlier.
pub uninterp spec fn instant_gap_nanos(now: Instant, earlier: Instant) -> nat;

/// Trusted: calls `Instant::saturating_duration_since`, which std documents as
/// the time elapsed from `earlier` to `now`, or zero when `earlier` is later.
/// The result is a function of the two instants alone.
#[verifier::external_body]
fn saturating_since(now: &Instant, earlier: &Instant) -> (d: Duration)
    ensures
        duration_nanos(d) == instant_gap_nanos(*now, *earlier),
{
    now.saturating_duration_since(*earlier)
}

/// The mixer meter refreshes at most every 33 ms, and at once the first time.
pub fn mixer_meter_refresh_due(last_refresh: Option<Instant>, now: Instant) -> (due: bool)
    ensures
        due == match last_refresh {
            None => true,
            Some(last) => instant_gap_nanos(now, last) >= 33_000_000,
        },
{
    match last_refresh {
        None => true,
        Some(last) => {
            let gap = saturating_since(&now, &last);
            duration_as_nanos(&gap) >= 33_000_000u128
        },
    }
}

/// The BGM layer whose controls are shown: the selected one, else the one playing.
pub fn prefer_selected_or_active_bgm<T: Copy>(selected_bgm: Option<T>, active_bgm: Option<T>) -> (r: Option<T>)
    ensures
        r == match selected_bgm {
            Some(s) => Some(s),
            None => active_bgm,
        },
{
    match selected_bgm {
        Some(s) => Some(s),
        None => active_bgm,
    }
}

/// Flips an auxiliary window between open and closed.
pub fn toggle_window_open(open: &mut bool)
    ensures
        *final(open) == !*old(open),
{
    *open = !*open;
}

// ---------------------------------------------------------------------------
// Frame counters
// ---------------------------------------------------------------------------

/// Frames counted by each pipeline at one moment.
#[derive(Debug, Clone, Copy, Default, PartialEq, Eq)]
pub struct RuntimeFrameCountSnapshot {
    pub preview_ui_frames: u64,
    pub mixer_ui_frames: u64,
    pub mixer_meter_updates: u64,
    pub streaming_output_frames: u64,
}

/// Frame counters shared by the preview, mixer and streaming threads.
///
/// The counters are shared between threads, so nothing is stated of the
/// values a read returns.
#[derive(Debug, Default)]
pub struct RuntimeFrameCounters {
    preview_ui_frames: AtomicU64,
    mixer_ui_frames: AtomicU64,
    mixer_meter_updates: AtomicU64,
    streaming_output_frames: AtomicU64,
}

impl RuntimeFrameCounters {
    /// Reads the four counters.
    pub fn snapshot(&self) -> RuntimeFrameCountSnapshot {
        RuntimeFrameCountSnapshot {
            preview_ui_frames: self.preview_ui_frames.load(Ordering::Relaxed),
            mixer_ui_frames: self.mixer_ui_frames.load(Ordering::Relaxed),
            mixer_meter_updates: self.mixer_meter_updates.load(Ordering::Relaxed),
            streaming_output_frames: self.streaming_output_frames.load(Ordering::Relaxed),
        }
    }

    /// Counts one preview frame drawn.
    pub fn count_preview_ui_frame(&self) {
        self.preview_ui_frames.fetch_add(1, Ordering::Relaxed);
    }

    /// Counts one mixer frame drawn.
    pub fn count_mixer_ui_frame(&self) {
        self.mixer_ui_frames.fetch_add(1, Ordering::Relaxed);
    }

    /// Counts one meter update.
    pub fn count_mixer_meter_update(&self) {
        self.mixer_meter_updates.fetch_add(1, Ordering::Relaxed);
    }

    /// Counts one frame sent to the stream encoder.
    pub fn count_streaming_output_frame(&self) {
        self.streaming_output_frames.fetch_add(1, Ordering::Relaxed);
    }
}

// ---------------------------------------------------------------------------
// Library files
// ---------------------------------------------------------------------------

/// The extension of a path (what `Path::extension` returns), as text.
pub uninterp spec fn extension_of(path: Seq<char>) -> Option<Seq<char>>;

/// Trusted: calls `Path::new(path).extension()` and converts it with
/// `OsStr::to_str`. std documents the extension as the text after the last
/// `.` of the file name, and `None` when the file name has no `.` other than
/// a leading one or there is no file name; the result is named, not spelt
/// out. `to_str` cannot fail on text taken from a `&str`.
#[verifier::external_body]
fn path_extension(path: &str) -> (ext: Option<String>)
    ensures
        match ext {
            Some(e) => extension_of(path@) == Some(e@),
            None => extension_of(path@) is None,
        },
{
    std::path::Path::new(path).extension().and_then(|e| e.to_str()).map(|e| e.to_owned())
}

/// The extension of `path` lowercased (ASCII only) lies in `allowed`.
pub open spec fn extension_in(path: Seq<char>, allowed: Seq<Seq<char>>) -> bool {
    match extension_of(path) {
        Some(e) => allowed.contains(crate::text::ascii_lower(e)),
        None => false,
    }
}

/// The image formats that the image library lists.
pub open spec fn image_extensions() -> Seq<Seq<char>> {
    seq!["png"@, "jpg"@, "jpeg"@, "webp"@, "bmp"@, "svg"@]
}

/// The audio formats that the BGM library lists.
pub open spec fn bgm_extensions() -> Seq<Seq<char>> {
    seq!["mp3"@, "wav"@, "ogg"@, "flac"@]
}

/// The BGM library takes exactly the files whose extension, lowercased
/// (ASCII only), is `mp3`, `wav`, `ogg` or `flac`.
pub proof fn lemma_bgm_formats(path: Seq<char>)
    ensures
        extension_in(path, bgm_extensions()) == match extension_of(path) {
            Some(e) => ascii_lower(e) == "mp3"@ || ascii_lower(e) == "wav"@ || ascii_lower(e) == "ogg"@
                || ascii_lower(e) == "flac"@,
            None => false,
        },
{
    let b = bgm_extensions();
    assert(b[0] == "mp3"@ && b[1] == "wav"@ && b[2] == "ogg"@ && b[3] == "flac"@);
    if let Some(e) = extension_of(path) {
        let l = ascii_lower(e);
        if b.contains(l) {
            let k = choose|k: int| 0 <= k < b.len() && b[k] == l;
            assert(k == 0 || k == 1 || k == 2 || k == 3);
        }
        if l == "mp3"@ { assert(b[0] == l); }
        if l == "wav"@ { assert(b[1] == l); }
        if l == "ogg"@ { assert(b[2] == l); }
        if l == "flac"@ { assert(b[3] == l); }
    }
}

/// The image library takes exactly the files whose extension, lowercased
/// (ASCII only), is `png`, `jpg`, `jpeg`, `webp`, `bmp` or `svg`.
pub proof fn lemma_image_formats(path: Seq<char>)
    ensures
        extension_in(path, image_extensions()) == match extension_of(path) {
            Some(e) => ascii_lower(e) == "png"@ || ascii_lower(e) == "jpg"@ || ascii_lower(e) == "jpeg"@
                || ascii_lower(e) == "webp"@ || ascii_lower(e) == "bmp"@ || ascii_lower(e) == "svg"@,
            None => false,
        },
{
    let b = image_extensions();
    assert(b[0] == "png"@ && b[1] == "jpg"@ && b[2] == "jpeg"@ && b[3] == "webp"@ && b[4] == "bmp"@
        && b[5] == "svg"@);
    if let Some(e) = extension_of(path) {
        let l = ascii_lower(e);
        if b.contains(l) {
            let k = choose|k: int| 0 <= k < b.len() && b[k] == l;
            assert(k == 0 || k == 1 || k == 2 || k == 3 || k == 4 || k == 5);
        }
        if l == "png"@ { assert(b[0] == l); }
        if l == "jpg"@ { assert(b[1] == l); }
        if l == "jpeg"@ { assert(b[2] == l); }
        if l == "webp"@ { assert(b[3] == l); }
        if l == "bmp"@ { assert(b[4] == l); }
        if l == "svg"@ { assert(b[5] == l); }
    }
}

fn lower_extension(path: &str) -> (e: Option<Vec<char>>)
    ensures
        match e {
            Some(v) => extension_of(path@) matches Some(x) && v@ == crate::text::ascii_lower(x),
            None => extension_of(path@) is None,
        },
{
    match path_extension(path) {
        Some(ext) => {
            let cs = chars_of(ext.as_str());
            Some(to_ascii_lower(cs.as_slice()))
        },
        None => None,
    }
}

/// Whether `path` is a PNG, JPEG, WebP, BMP or SVG file, ignoring case.
pub fn is_supported_library_image(path: &str) -> (b: bool)
    ensures
        b == extension_in(path@, image_extensions()),
{
    match lower_extension(path) {
        Some(e) => {
            let s = e.as_slice();
            let r = eq_str(s, "png") || eq_str(s, "jpg") || eq_str(s, "jpeg") || eq_str(s, "webp")
                || eq_str(s, "bmp") || eq_str(s, "svg");
            proof {
                let l = e@;
                if l == "png"@ { assert(image_extensions()[0] == l); }
                if l == "jpg"@ { assert(image_extensions()[1] == l); }
                if l == "jpeg"@ { assert(image_extensions()[2] == l); }
                if l == "webp"@ { assert(image_extensions()[3] == l); }
                if l == "bmp"@ { assert(image_extensions()[4] == l); }
                if l == "svg"@ { assert(image_extensions()[5] == l); }
                if image_extensions().contains(l) {
                    let k = choose|k: int| 0 <= k < image_extensions().len() && image_extensions()[k] == l;
                    assert(0 <= k < 6);
                }
            }
            r
        },
        None => false,
    }
}

/// Whether `path` is an MP3, WAV, Ogg or FLAC file, ignoring case.
pub fn is_supported_bgm(path: &str) -> (b: bool)
    ensures
        b == extension_in(path@, bgm_extensions()),
{
    match lower_extension(path) {
        Some(e) => {
            let s = e.as_slice();
            let r = eq_str(s, "mp3") || eq_str(s, "wav") || eq_str(s, "ogg") || eq_str(s, "flac");
            proof {
                let l = e@;
                if l == "mp3"@ { assert(bgm_extensions()[0] == l); }
                if l == "wav"@ { assert(bgm_extensions()[1] == l); }
                if l == "ogg"@ { assert(bgm_extensions()[2] == l); }
                if l == "flac"@ { assert(bgm_extensions()[3] == l); }
                if bgm_extensions().contains(l) {
                    let k = choose|k: int| 0 <= k < bgm_extensions().len() && bgm_extensions()[k] == l;
                    assert(0 <= k < 4);
                }
            }
            r
        },
        None => false,
    }
}

/// The key by which library files are listed: the file name lowercased
/// (ASCII only), or empty when the path has no file name.
pub open spec fn library_key(path: Seq<char>) -> Seq<char> {
    match file_name_of(path) {
        Some(n) => ascii_lower(n),
        None => Seq::empty(),
    }
}

/// The order of the library lists: by `library_key`.
pub open spec fn library_order() -> spec_fn(String, String) -> bool {
    |a: String, b: String| lex_le(library_key(a@), library_key(b@))
}

/// The library order is a total preorder.
pub proof fn lemma_library_order_total_preorder()
    ensures
        total_preorder(library_order()),
{
    let le = library_order();
    assert forall|a: String, b: String| #[trigger] le(a, b) || le(b, a) by {
        lemma_lex_le_total(library_key(a@), library_key(b@));
    }
    assert forall|a: String, b: String, c: String| #[trigger] le(a, b) && #[trigger] le(b, c) implies le(a, c) by {
        lemma_lex_le_transitive(library_key(a@), library_key(b@), library_key(c@));
    }
}

fn library_key_chars(path: &String) -> (k: Vec<char>)
    ensures
        k@ == library_key(path@),
{
    match path_file_name(path.as_str()) {
        Some(n) => {
            let cs = chars_of(n.as_str());
            to_ascii_lower(cs.as_slice())
        },
        None => Vec::new(),
    }
}

/// Sorts the files found in a library folder by file name, ignoring ASCII
/// case; files whose names compare equal keep the order they were found in.
pub fn sort_library_files(files: &mut Vec<String>)
    ensures
        final(files)@ == stable_sort_by(old(files)@, library_order()),
{
    let ghost input = files@;
    let n = files.len();
    let mut sorted: Vec<String> = Vec::new();
    let mut keys: Vec<Vec<char>> = Vec::new();
    let mut i: usize = 0;
    while i < n
        invariant
            i <= n,
            n == input.len(),
            files@ == input,
            sorted@ == stable_sort_by(input.take(i as int), library_order()),
            keys@.len() == sorted@.len(),
            forall|k: int| 0 <= k < keys@.len() ==> (#[trigger] keys@[k])@ == library_key(sorted@[k]@),
        decreases n - i,
    {
        let x = files[i].clone();
        let kx = library_key_chars(&x);
        let mut j: usize = sorted.len();
        while j > 0 && lex_compare(keys[j - 1].as_slice(), kx.as_slice()) > 0
            invariant
                j <= sorted@.len(),
                keys@.len() == sorted@.len(),
                forall|k: int| 0 <= k < keys@.len() ==> (#[trigger] keys@[k])@ == library_key(sorted@[k]@),
                kx@ == library_key(x@),
                forall|k: int| j <= k < sorted@.len() ==> !(library_order())(#[trigger] sorted@[k], x),
            decreases j,
        {
            j = j - 1;
        }
        proof {
            if j > 0 {
                assert(keys@[j - 1]@ == library_key(sorted@[j - 1]@));
            }
            lemma_insert_by_at(sorted@, x, library_order(), j as int);
            assert(input.take(i + 1).drop_last() =~= input.take(i as int));
            assert(input.take(i + 1).last() == input[i as int]);
        }
        let ghost before_keys = keys@;
        let ghost before_sorted = sorted@;
        sorted.insert(j, x);
        keys.insert(j, kx);
        proof {
            assert(sorted@ =~= before_sorted.take(j as int).push(x) + before_sorted.skip(j as int));
            assert forall|k: int| 0 <= k < keys@.len() implies (#[trigger] keys@[k])@ == library_key(sorted@[k]@) by {
                if k < j {
                    assert(keys@[k] == before_keys[k] && sorted@[k] == before_sorted[k]);
                } else if k > j {
                    assert(keys@[k] == before_keys[k - 1] && sorted@[k] == before_sorted[k - 1]);
                }
            }
        }
        i = i + 1;
    }
    assert(input.take(n as int) =~= input);
    *files = sorted;
}

/// Sorting a library list keeps every file and leaves the list in order.
pub proof fn lemma_sorted_library_files(files: Seq<String>)
    ensures
        stable_sort_by(files, library_order()).to_multiset() == files.to_multiset(),
        sorted_by(stable_sort_by(files, library_order()), library_order()),
{
    lemma_library_order_total_preorder();
    lemma_stable_sort_multiset(files, library_order());
    lemma_stable_sort_sorted(files, library_order());
}

// ---------------------------------------------------------------------------
// Settings defaults
// ---------------------------------------------------------------------------

/// The format version written into new settings files.
pub const SETTINGS_FORMAT_VERSION: u32 = 1;

/// The format version assumed for settings that do not name one.
pub fn settings_format_version() -> (v: u32)
    ensures
        v == SETTINGS_FORMAT_VERSION,
{
    SETTINGS_FORMAT_VERSION
}

/// `true`, for settings that default to on.
pub fn default_true() -> (b: bool)
    ensures
        b,
{
    true
}

/// The preset of new settings: `game`.
pub fn default_preset() -> (s: String)
    ensures
        s@ == "game"@,
{
    String::from_str("game")
}

/// The encoder preference of new settings: `amf`.
pub fn default_encoder() -> (s: String)
    ensures
        s@ == "amf"@,
{
    String::from_str("amf")
}

/// The recording preview mode of new settings: `fps15`.
pub fn default_recording_preview() -> (s: String)
    ensures
        s@ == "fps15"@,
{
    String::from_str("fps15")
}

/// The streaming platform of new settings: `youtube`.
pub fn default_platform() -> (s: String)
    ensures
        s@ == "youtube"@,
{
    String::from_str("youtube")
}

/// The streaming bitrate of new settings, in kbit/s.
pub fn default_bitrate() -> (b: u32)
    ensures
        b == 12_000,
{
    12_000
}

} // verus!
