//! Capture sources, preview pacing, frame buffers and the GPU recorder's state.
use vstd::prelude::*;
use std::sync::Arc;
use std::time::Duration;
use crate::recording::{duration_from_nanos, duration_nanos};
use crate::order::{
    lemma_insert_by_at, lemma_lex_le_total, lemma_lex_le_transitive, lemma_stable_sort_multiset,
    lex_compare, lex_le, stable_sort_by, total_preorder,
};
use crate::text::{chars_of, push_str, string_from_chars, trim, trim_chars};

verus! {

/// The capture backend in use.
#[derive(Debug, Clone, Copy, PartialEq, Eq, Structural)]
pub enum CaptureBackend {
    WindowsGraphicsCapture,
}

impl Default for CaptureBackend {
    /// Windows Graphics Capture is the only backend.
    fn default() -> (b: Self)
        ensures
            b == CaptureBackend::WindowsGraphicsCapture,
    {
        CaptureBackend::WindowsGraphicsCapture
    }
}

/// How often the preview is read back while recording.
#[derive(Debug, Clone, Copy, PartialEq, Eq, Structural)]
pub enum PreviewMode {
    Fps30,
    Fps15,
    Off,
}

impl Default for PreviewMode {
    /// The preview runs at 30 FPS unless told otherwise.
    fn default() -> (m: Self)
        ensures
            m == PreviewMode::Fps30,
    {
        PreviewMode::Fps30
    }
}

/// The preview rate of a mode, `None` when the preview is off.
pub open spec fn preview_fps(mode: PreviewMode) -> Option<u32> {
    match mode {
        PreviewMode::Fps30 => Some(30u32),
        PreviewMode::Fps15 => Some(15u32),
        PreviewMode::Off => None,
    }
}

/// One frame period at `fps`, in nanoseconds rounded to the nearest.
pub open spec fn frame_period_nanos(fps: nat) -> nat {
    (2_000_000_000 + fps) / (2 * fps)
}

/// When preview frames are read back from the GPU.
#[derive(Debug, Clone, Copy, PartialEq, Eq, Structural)]
pub struct PreviewPolicy {
    mode: PreviewMode,
}

impl PreviewPolicy {
    /// The mode of this policy.
    pub closed spec fn mode(self) -> PreviewMode {
        self.mode
    }

    /// The policy outside recording: 30 FPS.
    pub fn normal() -> (p: Self)
        ensures
            p.mode() == PreviewMode::Fps30,
    {
        PreviewPolicy { mode: PreviewMode::Fps30 }
    }

    /// The policy while recording, with the chosen preview mode.
    pub fn for_recording(mode: PreviewMode) -> (p: Self)
        ensures
            p.mode() == mode,
    {
        PreviewPolicy { mode }
    }

    /// The preview frame rate, `None` when no preview is read back.
    pub fn target_fps(self) -> (f: Option<u32>)
        ensures
            f == preview_fps(self.mode()),
    {
        match self.mode {
            PreviewMode::Fps30 => Some(30),
            PreviewMode::Fps15 => Some(15),
            PreviewMode::Off => None,
        }
    }

    /// The time between two preview read-backs, `None` when the preview is off.
    pub fn interval(self) -> (d: Option<Duration>)
        ensures
            match preview_fps(self.mode()) {
                Some(fps) => d matches Some(x) && duration_nanos(x) == frame_period_nanos(
                    fps as nat,
                ),
                None => d is None,
            },
    {
        match self.target_fps() {
            Some(fps) => {
                let nanos: u64 = (2_000_000_000u64 + fps as u64) / (2 * fps as u64);
                Some(duration_from_nanos(nanos))
            },
            None => None,
        }
    }
}

/// A top-level window that can be captured.
#[derive(Debug, Clone, PartialEq, Eq)]
pub struct WindowInfo {
    pub hwnd: isize,
    pub title: String,
}

/// What is captured.
#[derive(Debug, Clone, PartialEq, Eq)]
pub enum CaptureSource {
    Desktop,
    Window(WindowInfo),
}

/// The name shown for a capture source.
pub open spec fn source_name(s: CaptureSource) -> Seq<char> {
    match s {
        CaptureSource::Desktop => "デスクトップ全体"@,
        CaptureSource::Window(w) => w.title@,
    }
}

impl CaptureSource {
    /// The name shown for this source: the window title, or "whole desktop".
    pub fn display_name(&self) -> (n: &str)
        ensures
            n@ == source_name(*self),
    {
        match self {
            CaptureSource::Desktop => "デスクトップ全体",
            CaptureSource::Window(window) => window.title.as_str(),
        }
    }
}

/// One captured frame of tightly packed RGBA pixels.
#[derive(Debug, Clone)]
pub struct CaptureFrame {
    pub sequence: u64,
    pub width: u32,
    pub height: u32,
    pub rgba: Arc<[u8]>,
}

/// Trusted: calls std's `From<Vec<u8>> for Arc<[u8]>`, which moves the bytes
/// into a shared allocation; the claim is that it holds the same bytes in
/// the same order.
#[verifier::external_body]
fn share_bytes(bytes: Vec<u8>) -> (a: Arc<[u8]>)
    ensures
        a@ == bytes@,
{
    Arc::<[u8]>::from(bytes)
}

impl CaptureFrame {
    /// A black test frame of `width` × `height` RGBA pixels.
    pub fn test(sequence: u64, width: u32, height: u32) -> (f: Self)
        requires
            width * height * 4 <= u32::MAX,
        ensures
            f.sequence == sequence,
            f.width == width,
            f.height == height,
            f.rgba@ == Seq::new((width * height * 4) as nat, |i: int| 0u8),
    {
        let count: u32 = width * height * 4;
        let bytes = vec![0u8; count as usize];
        assert(bytes@ =~= Seq::new((width * height * 4) as nat, |i: int| 0u8)) by {
            assert forall|i: int| 0 <= i < bytes@.len() implies bytes@[i] == 0u8 by {
                assert(cloned(0u8, bytes@[i]));
            }
        }
        CaptureFrame { sequence, width, height, rgba: share_bytes(bytes) }
    }
}

/// Rows `0..rows` of `width` RGBA pixels each, taken from `src` whose rows are `pitch` bytes apart.
pub open spec fn packed_rows(src: Seq<u8>, pitch: nat, row_bytes: nat, rows: nat) -> Seq<u8>
    decreases rows,
{
    if rows == 0 {
        Seq::empty()
    } else {
        packed_rows(src, pitch, row_bytes, (rows - 1) as nat) + src.subrange(
            (rows - 1) * pitch,
            (rows - 1) * pitch + row_bytes,
        )
    }
}

/// What `pack_pitched_rgba` returns: the packed rows, or nothing when the
/// geometry is empty, the pitch is shorter than a row, or `src` is too short.
pub open spec fn packed_rgba(src: Seq<u8>, pitch: nat, width: nat, height: nat) -> Seq<u8> {
    if width == 0 || height == 0 || pitch < width * 4 || src.len() < pitch * height {
        Seq::empty()
    } else {
        packed_rows(src, pitch, width * 4, height)
    }
}

/// The packed buffer holds exactly `height` rows of `width * 4` bytes.
pub proof fn lemma_packed_rows_len(src: Seq<u8>, pitch: nat, row_bytes: nat, rows: nat)
    requires
        row_bytes <= pitch,
        pitch * rows <= src.len(),
    ensures
        packed_rows(src, pitch, row_bytes, rows).len() == rows * row_bytes,
    decreases rows,
{
    if rows > 0 {
        assert(pitch * (rows - 1) <= pitch * rows) by (nonlinear_arith);
        lemma_packed_rows_len(src, pitch, row_bytes, (rows - 1) as nat);
        lemma_row_in_bounds(pitch, row_bytes, (rows - 1) as nat, rows, src.len());
        let start = (rows - 1) * pitch;
        assert(0 <= start) by (nonlinear_arith)
            requires
                rows >= 1,
                start == (rows - 1) * pitch,
        ;
        let row = src.subrange(start, start + row_bytes);
        assert(row.len() == row_bytes);
        assert(packed_rows(src, pitch, row_bytes, rows) == packed_rows(src, pitch, row_bytes, (rows - 1) as nat) + row);
        let prev = packed_rows(src, pitch, row_bytes, (rows - 1) as nat);
        assert(prev.len() == ((rows - 1) as nat) * row_bytes);
        assert((prev + row).len() == prev.len() + row.len());
        assert(((rows - 1) as nat) * row_bytes + row_bytes == rows * row_bytes) by (nonlinear_arith)
            requires
                rows >= 1,
        ;
        assert(packed_rows(src, pitch, row_bytes, rows).len() == rows * row_bytes);
    } else {
        assert(rows * row_bytes == 0) by (nonlinear_arith)
            requires
                rows == 0,
        ;
    }
}

/// A successful pack holds `width * height` pixels of four bytes and no padding.
pub proof fn lemma_packed_rgba_len(src: Seq<u8>, pitch: nat, width: nat, height: nat)
    requires
        width > 0,
        height > 0,
        width * 4 <= pitch,
        pitch * height <= src.len(),
    ensures
        packed_rgba(src, pitch, width, height).len() == width * 4 * height,
{
    lemma_packed_rows_len(src, pitch, width * 4, height);
    assert(height * (width * 4) == width * 4 * height) by (nonlinear_arith);
}

proof fn lemma_row_in_bounds(pitch: nat, row_bytes: nat, y: nat, height: nat, len: nat)
    requires
        row_bytes <= pitch,
        y < height,
        pitch * height <= len,
    ensures
        y * pitch + row_bytes <= len,
{
    assert(y * pitch + pitch <= height * pitch) by (nonlinear_arith)
        requires
            y < height,
    ;
    assert(pitch * height == height * pitch) by (nonlinear_arith);
}

/// Compacts a mapped texture whose rows are padded to `row_pitch` bytes into
/// tightly packed RGBA8 rows of `width` pixels.
pub fn pack_pitched_rgba(src: &[u8], row_pitch: usize, width: u32, height: u32) -> (out: Vec<u8>)
    ensures
        out@ == packed_rgba(src@, row_pitch as nat, width as nat, height as nat),
{
    if width == 0 || height == 0 {
        return Vec::new();
    }
    let row_bytes: usize = match (width as usize).checked_mul(4) {
        Some(b) => b,
        None => {
            return Vec::new();
        },
    };
    if row_pitch < row_bytes {
        return Vec::new();
    }
    let needed: usize = match row_pitch.checked_mul(height as usize) {
        Some(n) => n,
        None => {
            let src_len = src.len();
            assert(src_len < (row_pitch as nat) * (height as nat));
            return Vec::new();
        },
    };
    if src.len() < needed {
        return Vec::new();
    }
    let mut out: Vec<u8> = Vec::new();
    let mut y: usize = 0;
    while y < height as usize
        invariant
            y <= height,
            row_bytes == width * 4,
            row_bytes <= row_pitch,
            row_pitch * height <= src.len(),
            out@ == packed_rows(src@, row_pitch as nat, row_bytes as nat, y as nat),
        decreases height - y,
    {
        proof {
            lemma_row_in_bounds(row_pitch as nat, row_bytes as nat, y as nat, height as nat, src@.len());
        }
        let start: usize = y * row_pitch;
        let mut k: usize = 0;
        let ghost before = out@;
        while k < row_bytes
            invariant
                k <= row_bytes,
                start + row_bytes <= src.len(),
                out@ == before + src@.subrange(start as int, start + k),
            decreases row_bytes - k,
        {
            out.push(src[start + k]);
            k = k + 1;
            assert(src@.subrange(start as int, start + k) =~= src@.subrange(start as int, start + k - 1).push(src@[start + k - 1]));
        }
        y = y + 1;
    }
    out
}

/// Where and how the GPU recorder writes video.
#[derive(Debug, Clone)]
pub struct GpuRecordingConfig {
    pub path: String,
    pub width: u32,
    pub height: u32,
    pub fps: u32,
    pub bitrate_bps: u32,
}

/// The state of the GPU recorder.
#[derive(Debug, Clone, PartialEq, Eq)]
pub enum GpuRecordingStatus {
    Idle,
    Starting,
    Recording,
    Finishing,
    Finished,
    Failed(String),
}

impl Default for GpuRecordingStatus {
    /// The recorder starts idle.
    fn default() -> (s: Self)
        ensures
            s matches GpuRecordingStatus::Idle,
    {
        GpuRecordingStatus::Idle
    }
}

/// Why capture could not start.
#[derive(Debug, Clone)]
pub enum CaptureError {
    UnsupportedPlatform,
    Backend(String),
    WindowUnavailable,
}

/// The message shown for each capture error.
pub open spec fn capture_error_text(e: CaptureError) -> Seq<char> {
    match e {
        CaptureError::UnsupportedPlatform => "Windows以外ではWGCキャプチャを開始できません"@,
        CaptureError::Backend(m) => "WGCエラー: "@ + m@,
        CaptureError::WindowUnavailable => "選択したウィンドウをキャプチャできません"@,
    }
}

impl CaptureError {
    /// The message shown to the user for this error.
    pub fn message(&self) -> (m: String)
        ensures
            m@ == capture_error_text(*self),
    {
        match self {
            CaptureError::UnsupportedPlatform => String::from_str("Windows以外ではWGCキャプチャを開始できません"),
            CaptureError::Backend(message) => {
                let mut d: Vec<char> = Vec::new();
                push_str(&mut d, "WGCエラー: ");
                push_str(&mut d, message.as_str());
                string_from_chars(d.as_slice())
            },
            CaptureError::WindowUnavailable => String::from_str("選択したウィンドウをキャプチャできません"),
        }
    }
}

// ---------------------------------------------------------------------------
// The window list
// ---------------------------------------------------------------------------

/// Unicode lowercasing of a text (what `str::to_lowercase` returns).
pub uninterp spec fn unicode_lowercase(s: Seq<char>) -> Seq<char>;

/// Trusted: calls `str::to_lowercase`, which std documents as the lowercase
/// equivalent of the text by Unicode's `Lowercase` mapping; the mapping is
/// named, not spelt out, and depends on the text alone.
#[verifier::external_body]
fn to_lowercase(s: &str) -> (r: String)
    ensures
        r@ == unicode_lowercase(s@),
{
    s.to_lowercase()
}

/// A window as the list sees it: its handle and its title.
pub open spec fn window_view(w: WindowInfo) -> (isize, Seq<char>) {
    (w.hwnd, w.title@)
}

/// The views of a list of windows.
pub open spec fn window_views(ws: Seq<WindowInfo>) -> Seq<(isize, Seq<char>)> {
    ws.map_values(|w: WindowInfo| window_view(w))
}

/// The windows whose trimmed title is not empty, with that trimmed title.
pub open spec fn titled_windows(raw: Seq<(isize, Seq<char>)>) -> Seq<(isize, Seq<char>)>
    decreases raw.len(),
{
    if raw.len() == 0 {
        Seq::empty()
    } else {
        let w = raw.last();
        let rest = titled_windows(raw.drop_last());
        if trim(w.1).len() == 0 {
            rest
        } else {
            rest.push((w.0, trim(w.1)))
        }
    }
}

/// The list order of windows: by lowercase title.
pub open spec fn window_order() -> spec_fn((isize, Seq<char>), (isize, Seq<char>)) -> bool {
    |a: (isize, Seq<char>), b: (isize, Seq<char>)| lex_le(unicode_lowercase(a.1), unicode_lowercase(b.1))
}

/// `s` without each window whose handle repeats the one kept just before it.
pub open spec fn dedup_hwnd(s: Seq<(isize, Seq<char>)>) -> Seq<(isize, Seq<char>)>
    decreases s.len(),
{
    if s.len() == 0 {
        s
    } else {
        let t = dedup_hwnd(s.drop_last());
        if t.len() > 0 && t.last().0 == s.last().0 {
            t
        } else {
            t.push(s.last())
        }
    }
}

/// The window list shown to the user: titled windows, sorted by lowercase
/// title (equal titles keep their order), repeated handles next to each other dropped.
pub open spec fn window_list_of(raw: Seq<(isize, Seq<char>)>) -> Seq<(isize, Seq<char>)> {
    dedup_hwnd(stable_sort_by(titled_windows(raw), window_order()))
}

fn copy_window(w: &WindowInfo) -> (c: WindowInfo)
    ensures
        c == *w,
{
    WindowInfo { hwnd: w.hwnd, title: w.title.clone() }
}

/// Builds the window list from the capturable windows that the system
/// reported: blank titles are dropped and the others trimmed, the list is
/// sorted by lowercase title, and a window handle that repeats the one
/// before it is dropped.
pub fn window_list(raw: &[WindowInfo]) -> (list: Vec<WindowInfo>)
    ensures
        window_views(list@) == window_list_of(window_views(raw@)),
{
    let ghost rv = window_views(raw@);
    // Trimmed, non-blank titles.
    let mut titled: Vec<WindowInfo> = Vec::new();
    let mut i: usize = 0;
    while i < raw.len()
        invariant
            i <= raw.len(),
            rv == window_views(raw@),
            window_views(titled@) == titled_windows(rv.take(i as int)),
        decreases raw.len() - i,
    {
        proof {
            assert(rv.take(i + 1).drop_last() =~= rv.take(i as int));
            assert(rv.take(i + 1).last() == rv[i as int]);
        }
        let cs = chars_of(raw[i].title.as_str());
        let t = trim_chars(cs.as_slice());
        let ghost before = titled@;
        if t.len() > 0 {
            let title = string_from_chars(t.as_slice());
            titled.push(WindowInfo { hwnd: raw[i].hwnd, title });
            assert(window_views(titled@) =~= window_views(before).push(window_view(titled@.last())));
        }
        i = i + 1;
    }
    assert(rv.take(raw.len() as int) =~= rv);

    // Stable sort by lowercase title.
    let ghost input = window_views(titled@);
    let n = titled.len();
    let mut sorted: Vec<WindowInfo> = Vec::new();
    let mut keys: Vec<Vec<char>> = Vec::new();
    let mut k: usize = 0;
    while k < n
        invariant
            k <= n,
            n == input.len(),
            input == window_views(titled@),
            window_views(sorted@) == stable_sort_by(input.take(k as int), window_order()),
            keys@.len() == sorted@.len(),
            forall|m: int| 0 <= m < keys@.len() ==> (#[trigger] keys@[m])@ == unicode_lowercase(sorted@[m].title@),
        decreases n - k,
    {
        let x = copy_window(&titled[k]);
        let lower = to_lowercase(x.title.as_str());
        let kx = chars_of(lower.as_str());
        let mut j: usize = sorted.len();
        let ghost sv = window_views(sorted@);
        let ghost xv = window_view(x);
        while j > 0 && lex_compare(keys[j - 1].as_slice(), kx.as_slice()) > 0
            invariant
                j <= sorted@.len(),
                sv == window_views(sorted@),
                xv == window_view(x),
                keys@.len() == sorted@.len(),
                forall|m: int| 0 <= m < keys@.len() ==> (#[trigger] keys@[m])@ == unicode_lowercase(sorted@[m].title@),
                kx@ == unicode_lowercase(x.title@),
                forall|m: int| j <= m < sv.len() ==> !window_order()(#[trigger] sv[m], xv),
            decreases j,
        {
            proof {
                assert(sv[j - 1] == window_view(sorted@[j - 1]));
            }
            j = j - 1;
        }
        proof {
            if j > 0 {
                assert(keys@[j - 1]@ == unicode_lowercase(sorted@[j - 1].title@));
                assert(sv[j - 1] == window_view(sorted@[j - 1]));
            }
            lemma_insert_by_at(sv, xv, window_order(), j as int);
            assert(input.take(k + 1).drop_last() =~= input.take(k as int));
            assert(input.take(k + 1).last() == input[k as int]);
            assert(input[k as int] == xv);
        }
        let ghost before_keys = keys@;
        let ghost before_sorted = sorted@;
        sorted.insert(j, x);
        keys.insert(j, kx);
        proof {
            assert(sorted@ =~= before_sorted.take(j as int).push(x) + before_sorted.skip(j as int));
            assert(window_views(sorted@) =~= sv.take(j as int).push(xv) + sv.skip(j as int));
            assert forall|m: int| 0 <= m < keys@.len() implies (#[trigger] keys@[m])@ == unicode_lowercase(sorted@[m].title@) by {
                if m < j {
                    assert(keys@[m] == before_keys[m] && sorted@[m] == before_sorted[m]);
                } else if m > j {
                    assert(keys@[m] == before_keys[m - 1] && sorted@[m] == before_sorted[m - 1]);
                }
            }
        }
        k = k + 1;
    }
    assert(input.take(n as int) =~= input);

    // Drop a handle that repeats the one kept before it.
    let ghost sv = window_views(sorted@);
    let mut list: Vec<WindowInfo> = Vec::new();
    let mut d: usize = 0;
    while d < sorted.len()
        invariant
            d <= sorted.len(),
            sv == window_views(sorted@),
            window_views(list@) == dedup_hwnd(sv.take(d as int)),
        decreases sorted.len() - d,
    {
        proof {
            assert(sv.take(d + 1).drop_last() =~= sv.take(d as int));
            assert(sv.take(d + 1).last() == sv[d as int]);
        }
        let ghost before = list@;
        if list.len() > 0 && list[list.len() - 1].hwnd == sorted[d].hwnd {
            proof {
                assert(window_views(list@).last() == window_view(list@.last()));
            }
        } else {
            list.push(copy_window(&sorted[d]));
            proof {
                if before.len() > 0 {
                    assert(window_views(before).last() == window_view(before.last()));
                }
                assert(window_views(list@) =~= window_views(before).push(sv[d as int]));
            }
        }
        d = d + 1;
    }
    assert(sv.take(sorted.len() as int) =~= sv);
    list
}

/// The window order is a total preorder.
pub proof fn lemma_window_order_total_preorder()
    ensures
        total_preorder(window_order()),
{
    let le = window_order();
    assert forall|a: (isize, Seq<char>), b: (isize, Seq<char>)| #[trigger] le(a, b) || le(b, a) by {
        lemma_lex_le_total(unicode_lowercase(a.1), unicode_lowercase(b.1));
    }
    assert forall|a: (isize, Seq<char>), b: (isize, Seq<char>), c: (isize, Seq<char>)|
        #[trigger] le(a, b) && #[trigger] le(b, c) implies le(a, c) by {
        lemma_lex_le_transitive(unicode_lowercase(a.1), unicode_lowercase(b.1), unicode_lowercase(c.1));
    }
}

proof fn lemma_dedup_subsequence(s: Seq<(isize, Seq<char>)>)
    ensures
        forall|i: int| 0 <= i < dedup_hwnd(s).len() ==> exists|j: int| 0 <= j < s.len() && s[j] == #[trigger] dedup_hwnd(s)[i],
        forall|i: int| 0 <= i < dedup_hwnd(s).len() - 1 ==> (#[trigger] dedup_hwnd(s)[i]).0 != dedup_hwnd(s)[i + 1].0,
    decreases s.len(),
{
    if s.len() > 0 {
        lemma_dedup_subsequence(s.drop_last());
        let t = dedup_hwnd(s.drop_last());
        let r = dedup_hwnd(s);
        assert forall|i: int| 0 <= i < r.len() implies exists|j: int| 0 <= j < s.len() && s[j] == #[trigger] r[i] by {
            if i < t.len() {
                assert(r[i] == t[i]);
                let j = choose|j: int| 0 <= j < s.drop_last().len() && s.drop_last()[j] == t[i];
                assert(s[j] == r[i]);
            } else {
                assert(s[s.len() - 1] == r[i]);
            }
        }
        assert forall|i: int| 0 <= i < r.len() - 1 implies (#[trigger] r[i]).0 != r[i + 1].0 by {
            assert(r[i] == t[i]);
            if i + 1 < t.len() {
                assert(r[i + 1] == t[i + 1]);
            }
        }
    }
}

/// The window list never shows the same handle twice in a row, and every
/// entry is one of the titled windows.
pub proof fn lemma_window_list_no_adjacent_repeats(raw: Seq<(isize, Seq<char>)>)
    ensures
        forall|i: int|
            0 <= i < window_list_of(raw).len() - 1 ==> (#[trigger] window_list_of(raw)[i]).0
                != window_list_of(raw)[i + 1].0,
        forall|i: int|
            0 <= i < window_list_of(raw).len() ==> titled_windows(raw).contains(
                #[trigger] window_list_of(raw)[i],
            ),
{
    let sorted = stable_sort_by(titled_windows(raw), window_order());
    lemma_dedup_subsequence(sorted);
    lemma_stable_sort_multiset(titled_windows(raw), window_order());
    let r = window_list_of(raw);
    assert forall|i: int| 0 <= i < r.len() implies titled_windows(raw).contains(#[trigger] r[i]) by {
        let j = choose|j: int| 0 <= j < sorted.len() && sorted[j] == r[i];
        assert(sorted.to_multiset().count(sorted[j]) > 0) by {
            broadcast use vstd::seq_lib::group_to_multiset_ensures;
            assert(sorted.contains(sorted[j]));
        }
        assert(titled_windows(raw).to_multiset().count(r[i]) > 0);
        broadcast use vstd::seq_lib::group_to_multiset_ensures;
    }
}

} // verus!
