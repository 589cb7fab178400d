//! The files that one recording writes, and safe names for per-application tracks.
use vstd::prelude::*;
use crate::text::{
    ascii_lower_char, chars_of, decimal, decimal_chars, is_ascii_alphanumeric, is_whitespace,
    push_chars, push_str, string_from_chars, trim_end_char, trim_end_matches, trim_start_char,
    trim_start_matches,
};

verus! {

/// `name` placed inside the directory `root`, separated by `/`.
pub open spec fn join_path(root: Seq<char>, name: Seq<char>) -> Seq<char> {
    if root.len() == 0 {
        name
    } else if root.last() == '/' {
        root + name
    } else {
        root + "/"@ + name
    }
}

/// Places `name` inside the directory `root`.
pub fn join(root: &str, name: &str) -> (p: String)
    ensures
        p@ == join_path(root@, name@),
{
    let r = chars_of(root);
    let mut out: Vec<char> = Vec::new();
    push_chars(&mut out, r.as_slice());
    if r.len() > 0 && r[r.len() - 1] != '/' {
        out.push('/');
        assert(out@ =~= root@ + "/"@) by {
            reveal_strlit("/");
        }
    }
    push_str(&mut out, name);
    string_from_chars(out.as_slice())
}

/// The separate files of one recording, all inside `root`.
#[derive(Debug, Clone)]
pub struct RecordingPaths {
    pub root: String,
    pub video_only: String,
    pub final_video: String,
    pub microphone: String,
    pub desktop_audio: String,
    pub edit_json: String,
}

/// The recording files inside `root`.
pub open spec fn paths_in(p: RecordingPaths, root: Seq<char>) -> bool {
    &&& p.root@ == root
    &&& p.video_only@ == join_path(root, "video_only.mp4"@)
    &&& p.final_video@ == join_path(root, "recording.mp4"@)
    &&& p.microphone@ == join_path(root, "microphone.wav"@)
    &&& p.desktop_audio@ == join_path(root, "desktop.wav"@)
    &&& p.edit_json@ == join_path(root, "yaoyorozu_edit.json"@)
}

/// What one character of an application name becomes in a track file name.
pub open spec fn track_char(c: char) -> Seq<char> {
    if is_ascii_alphanumeric(c) {
        seq![ascii_lower_char(c)]
    } else if c == '-' || c == '_' {
        seq![c]
    } else if is_whitespace(c) {
        seq!['_']
    } else {
        Seq::empty()
    }
}

/// Every character of `s` mapped by `track_char`.
pub open spec fn track_chars(s: Seq<char>) -> Seq<char>
    decreases s.len(),
{
    if s.len() == 0 {
        Seq::empty()
    } else {
        track_chars(s.drop_last()) + track_char(s.last())
    }
}

/// `s` with every run of underscores shortened to one underscore.
pub open spec fn collapse_underscores(s: Seq<char>) -> Seq<char>
    decreases s.len(),
{
    if s.len() == 0 {
        s
    } else {
        let t = collapse_underscores(s.drop_last());
        if s.last() == '_' && t.len() > 0 && t.last() == '_' {
            t
        } else {
            t.push(s.last())
        }
    }
}

/// The file-name-safe form of an application name: lowercase ASCII letters and
/// digits, `-` and `_`, single underscores, none at either end, `audio` when nothing is left.
pub open spec fn sanitized_track_name(name: Seq<char>) -> Seq<char> {
    let t = trim_end_char(trim_start_char(collapse_underscores(track_chars(name)), '_'), '_');
    if t.len() == 0 {
        "audio"@
    } else {
        t
    }
}

/// A character that may appear in a track file name.
pub open spec fn is_track_name_char(c: char) -> bool {
    ('0' <= c && c <= '9') || ('a' <= c && c <= 'z') || c == '-' || c == '_'
}

/// A non-empty name of track characters with no doubled underscore and none at either end.
pub open spec fn is_safe_track_name(s: Seq<char>) -> bool {
    &&& s.len() > 0
    &&& forall|i: int| 0 <= i < s.len() ==> is_track_name_char(#[trigger] s[i])
    &&& forall|i: int| 0 <= i < s.len() - 1 ==> !(#[trigger] s[i] == '_' && s[i + 1] == '_')
    &&& s[0] != '_'
    &&& s.last() != '_'
}

proof fn lemma_track_chars_alphabet(s: Seq<char>)
    ensures
        forall|i: int|
            0 <= i < track_chars(s).len() ==> is_track_name_char(#[trigger] track_chars(s)[i]),
    decreases s.len(),
{
    if s.len() > 0 {
        lemma_track_chars_alphabet(s.drop_last());
        let t = track_chars(s.drop_last());
        let u = track_char(s.last());
        let r = track_chars(s);
        assert(r == t + u);
        assert forall|i: int| 0 <= i < r.len() implies is_track_name_char(#[trigger] r[i]) by {
            if i < t.len() {
                assert(r[i] == t[i]);
            } else {
                assert(r[i] == u[i - t.len()]);
            }
        }
    }
}

proof fn lemma_collapse_properties(s: Seq<char>)
    requires
        forall|i: int| 0 <= i < s.len() ==> is_track_name_char(#[trigger] s[i]),
    ensures
        forall|i: int|
            0 <= i < collapse_underscores(s).len() ==> is_track_name_char(
                #[trigger] collapse_underscores(s)[i],
            ),
        forall|i: int|
            0 <= i < collapse_underscores(s).len() - 1 ==> !(#[trigger] collapse_underscores(s)[i]
                == '_' && collapse_underscores(s)[i + 1] == '_'),
    decreases s.len(),
{
    if s.len() > 0 {
        let p = s.drop_last();
        assert forall|i: int| 0 <= i < p.len() implies is_track_name_char(#[trigger] p[i]) by {
            assert(p[i] == s[i]);
        }
        lemma_collapse_properties(p);
        let t = collapse_underscores(p);
        let r = collapse_underscores(s);
        let last = s[s.len() - 1];
        assert(is_track_name_char(last));
        if last == '_' && t.len() > 0 && t.last() == '_' {
            assert(r == t);
        } else {
            assert(r == t.push(last));
            assert forall|i: int| 0 <= i < r.len() implies is_track_name_char(#[trigger] r[i]) by {
                if i < t.len() {
                    assert(r[i] == t[i]);
                }
            }
            assert forall|i: int| 0 <= i < r.len() - 1 implies !(#[trigger] r[i] == '_' && r[i
                + 1] == '_') by {
                assert(r[i] == t[i]);
                if i + 1 < t.len() {
                    assert(r[i + 1] == t[i + 1]);
                }
            }
        }
    }
}

proof fn lemma_trim_start_char_is_suffix(s: Seq<char>, c: char)
    ensures
        exists|k: int| 0 <= k <= s.len() && trim_start_char(s, c) == s.subrange(k, s.len() as int),
        trim_start_char(s, c).len() > 0 ==> trim_start_char(s, c)[0] != c,
    decreases s.len(),
{
    if s.len() > 0 && s[0] == c {
        lemma_trim_start_char_is_suffix(s.drop_first(), c);
        let k = choose|k: int|
            0 <= k <= s.drop_first().len() && trim_start_char(s.drop_first(), c)
                == s.drop_first().subrange(k, s.drop_first().len() as int);
        assert(s.drop_first().subrange(k, s.drop_first().len() as int) =~= s.subrange(
            k + 1,
            s.len() as int,
        ));
    } else {
        assert(s.subrange(0, s.len() as int) =~= s);
    }
}

proof fn lemma_trim_end_char_is_prefix(s: Seq<char>, c: char)
    ensures
        exists|k: int| 0 <= k <= s.len() && trim_end_char(s, c) == s.subrange(0, k),
        trim_end_char(s, c).len() > 0 ==> trim_end_char(s, c).last() != c,
    decreases s.len(),
{
    if s.len() > 0 && s.last() == c {
        lemma_trim_end_char_is_prefix(s.drop_last(), c);
        let k = choose|k: int|
            0 <= k <= s.drop_last().len() && trim_end_char(s.drop_last(), c)
                == s.drop_last().subrange(0, k);
        assert(s.drop_last().subrange(0, k) =~= s.subrange(0, k));
    } else {
        assert(s.subrange(0, s.len() as int) =~= s);
    }
}

/// Every sanitized track name is a safe track name.
pub proof fn lemma_sanitized_track_name_is_safe(name: Seq<char>)
    ensures
        is_safe_track_name(sanitized_track_name(name)),
{
    let a = track_chars(name);
    lemma_track_chars_alphabet(name);
    lemma_collapse_properties(a);
    let b = collapse_underscores(a);
    let c = trim_start_char(b, '_');
    lemma_trim_start_char_is_suffix(b, '_');
    let k = choose|k: int| 0 <= k <= b.len() && c == b.subrange(k, b.len() as int);
    let d = trim_end_char(c, '_');
    lemma_trim_end_char_is_prefix(c, '_');
    let m = choose|m: int| 0 <= m <= c.len() && d == c.subrange(0, m);
    if d.len() == 0 {
        reveal_strlit("audio");
        assert(is_track_name_char('a'));
    } else {
        assert(d =~= b.subrange(k, k + m));
        assert forall|i: int| 0 <= i < d.len() implies is_track_name_char(#[trigger] d[i]) by {
            assert(d[i] == b[k + i]);
        }
        assert forall|i: int| 0 <= i < d.len() - 1 implies !(#[trigger] d[i] == '_' && d[i + 1]
            == '_') by {
            assert(d[i] == b[k + i]);
            assert(d[i + 1] == b[k + i + 1]);
        }
        assert(d[0] == c[0]);
    }
}

proof fn lemma_track_chars_identity(s: Seq<char>)
    requires
        forall|i: int| 0 <= i < s.len() ==> is_track_name_char(#[trigger] s[i]),
    ensures
        track_chars(s) == s,
    decreases s.len(),
{
    if s.len() > 0 {
        let p = s.drop_last();
        assert forall|i: int| 0 <= i < p.len() implies is_track_name_char(#[trigger] p[i]) by {
            assert(p[i] == s[i]);
        }
        lemma_track_chars_identity(p);
        assert(is_track_name_char(s[s.len() - 1]));
        assert(track_char(s.last()) == seq![s.last()]);
        assert(s =~= p + seq![s.last()]);
    }
}

proof fn lemma_collapse_identity(s: Seq<char>)
    requires
        forall|i: int| 0 <= i < s.len() - 1 ==> !(#[trigger] s[i] == '_' && s[i + 1] == '_'),
    ensures
        collapse_underscores(s) == s,
    decreases s.len(),
{
    if s.len() > 0 {
        let p = s.drop_last();
        assert forall|i: int| 0 <= i < p.len() - 1 implies !(#[trigger] p[i] == '_' && p[i + 1] == '_') by {
            assert(p[i] == s[i] && p[i + 1] == s[i + 1]);
        }
        lemma_collapse_identity(p);
        if p.len() > 0 {
            assert(!(s[s.len() - 2] == '_' && s[s.len() - 1] == '_'));
            assert(p.last() == s[s.len() - 2]);
        }
        assert(s =~= p.push(s.last()));
    }
}

/// A safe track name is already sanitized: sanitizing a sanitized name
/// gives it back unchanged.
pub proof fn lemma_sanitize_track_name_idempotent(name: Seq<char>)
    ensures
        sanitized_track_name(sanitized_track_name(name)) == sanitized_track_name(name),
{
    let s = sanitized_track_name(name);
    lemma_sanitized_track_name_is_safe(name);
    lemma_track_chars_identity(s);
    lemma_collapse_identity(s);
    assert(trim_start_char(s, '_') == s);
    assert(trim_end_char(s, '_') == s);
}

proof fn lemma_track_chars_underscores(s: Seq<char>)
    requires
        forall|i: int| 0 <= i < s.len() ==> !is_ascii_alphanumeric(#[trigger] s[i]) && s[i] != '-',
    ensures
        forall|i: int| 0 <= i < track_chars(s).len() ==> #[trigger] track_chars(s)[i] == '_',
    decreases s.len(),
{
    if s.len() > 0 {
        let p = s.drop_last();
        assert forall|i: int| 0 <= i < p.len() implies !is_ascii_alphanumeric(#[trigger] p[i]) && p[i] != '-' by {
            assert(p[i] == s[i]);
        }
        lemma_track_chars_underscores(p);
        let t = track_chars(p);
        let u = track_char(s.last());
        assert(!is_ascii_alphanumeric(s[s.len() - 1]) && s[s.len() - 1] != '-');
        let r = track_chars(s);
        assert forall|i: int| 0 <= i < r.len() implies #[trigger] r[i] == '_' by {
            if i < t.len() {
                assert(r[i] == t[i]);
            } else {
                assert(r[i] == u[i - t.len()]);
            }
        }
    }
}

proof fn lemma_collapse_underscores_only(s: Seq<char>)
    requires
        forall|i: int| 0 <= i < s.len() ==> #[trigger] s[i] == '_',
    ensures
        collapse_underscores(s).len() <= 1,
        forall|i: int| 0 <= i < collapse_underscores(s).len() ==> #[trigger] collapse_underscores(s)[i] == '_',
    decreases s.len(),
{
    if s.len() > 0 {
        let p = s.drop_last();
        assert forall|i: int| 0 <= i < p.len() implies #[trigger] p[i] == '_' by {
            assert(p[i] == s[i]);
        }
        lemma_collapse_underscores_only(p);
        assert(s[s.len() - 1] == '_');
        let t = collapse_underscores(p);
        if t.len() > 0 {
            assert(t[t.len() - 1] == '_');
        }
    }
}

/// A name with no ASCII letter, digit or `-` (only spaces, underscores and
/// other characters) becomes `audio`.
pub proof fn lemma_sanitize_track_name_fallback(name: Seq<char>)
    requires
        forall|i: int| 0 <= i < name.len() ==> !is_ascii_alphanumeric(#[trigger] name[i]) && name[i] != '-',
    ensures
        sanitized_track_name(name) == "audio"@,
{
    lemma_track_chars_underscores(name);
    let a = track_chars(name);
    lemma_collapse_underscores_only(a);
    let b = collapse_underscores(a);
    if b.len() == 1 {
        assert(b[0] == '_');
        assert(b.drop_first().len() == 0);
        assert(trim_start_char(b, '_') == trim_start_char(b.drop_first(), '_'));
    }
    assert(trim_start_char(b, '_').len() == 0);
}

fn track_char_exec(c: char) -> (r: Option<char>)
    ensures
        match r {
            Some(x) => track_char(c) == seq![x],
            None => track_char(c) == Seq::<char>::empty(),
        },
{
    if ('0' <= c && c <= '9') || ('a' <= c && c <= 'z') {
        Some(c)
    } else if 'A' <= c && c <= 'Z' {
        let code: u8 = (c as u8) + 32;
        Some(code as char)
    } else if c == '-' || c == '_' {
        Some(c)
    } else if crate::text::char_is_whitespace(c) {
        Some('_')
    } else {
        None
    }
}

/// Turns an application name into a name that is safe inside a file name.
pub fn sanitize_track_name(name: &str) -> (safe: String)
    ensures
        safe@ == sanitized_track_name(name@),
        is_safe_track_name(safe@),
{
    let cs = chars_of(name);
    let mut out: Vec<char> = Vec::new();
    let mut i: usize = 0;
    while i < cs.len()
        invariant
            i <= cs.len(),
            cs@ == name@,
            out@ == collapse_underscores(track_chars(cs@.take(i as int))),
        decreases cs.len() - i,
    {
        let ghost prev = track_chars(cs@.take(i as int));
        assert(cs@.take(i + 1).drop_last() =~= cs@.take(i as int));
        assert(cs@.take(i + 1).last() == cs@[i as int]);
        match track_char_exec(cs[i]) {
            Some(x) => {
                assert((prev + seq![x]).drop_last() =~= prev);
                if x == '_' && out.len() > 0 && out[out.len() - 1] == '_' {
                } else {
                    out.push(x);
                }
            },
            None => {
                assert(prev + Seq::<char>::empty() =~= prev);
            },
        }
        i = i + 1;
    }
    assert(cs@.take(cs.len() as int) =~= cs@);
    let front = trim_start_matches(out.as_slice(), '_');
    let both = trim_end_matches(front.as_slice(), '_');
    let safe = if both.len() == 0 {
        String::from_str("audio")
    } else {
        string_from_chars(both.as_slice())
    };
    proof {
        lemma_sanitized_track_name_is_safe(name@);
    }
    safe
}

/// An ASCII decimal digit.
pub open spec fn is_ascii_digit(c: char) -> bool {
    '0' <= c && c <= '9'
}

/// A year as chrono's `%Y` writes it: four digits for years 0 to 9999, and
/// otherwise a sign followed by at least four digits.
pub open spec fn is_year_text(y: Seq<char>) -> bool {
    ||| y.len() == 4 && forall|i: int| 0 <= i < 4 ==> is_ascii_digit(#[trigger] y[i])
    ||| y.len() >= 5 && (y[0] == '+' || y[0] == '-') && forall|i: int|
        1 <= i < y.len() ==> is_ascii_digit(#[trigger] y[i])
}

/// `-MM-DD_HH-MM-SS`: two digits each for month, day, hour, minute and second.
pub open spec fn is_time_of_day_text(t: Seq<char>) -> bool {
    &&& t.len() == 15
    &&& t[0] == '-' && t[3] == '-' && t[6] == '_' && t[9] == '-' && t[12] == '-'
    &&& forall|i: int|
        0 <= i < 15 && i != 0 && i != 3 && i != 6 && i != 9 && i != 12 ==> is_ascii_digit(
            #[trigger] t[i],
        )
}

/// A local time written as `%Y-%m-%d_%H-%M-%S`, such as `2024-05-01_21-07-09`.
pub open spec fn is_timestamp_text(s: Seq<char>) -> bool {
    &&& s.len() >= 19
    &&& is_year_text(s.take(s.len() - 15))
    &&& is_time_of_day_text(s.skip(s.len() - 15))
}

/// Trusted: formats `chrono::Local::now()` as `%Y-%m-%d_%H-%M-%S`. Which
/// time it shows depends on the clock and the machine's time zone, so only the
/// shape of the text is stated: chrono writes the year as four digits (with a
/// sign and more digits outside 0 to 9999) and every other field as two
/// zero-padded digits, separated as the format says.
#[verifier::external_body]
fn local_timestamp() -> (s: String)
    ensures
        is_timestamp_text(s@),
{
    chrono::Local::now().format("%Y-%m-%d_%H-%M-%S").to_string()
}

impl RecordingPaths {
    /// The recording files inside `root`.
    pub fn for_root(root: &str) -> (p: Self)
        ensures
            paths_in(p, root@),
    {
        RecordingPaths {
            video_only: join(root, "video_only.mp4"),
            final_video: join(root, "recording.mp4"),
            microphone: join(root, "microphone.wav"),
            desktop_audio: join(root, "desktop.wav"),
            edit_json: join(root, "yaoyorozu_edit.json"),
            root: String::from_str(root),
        }
    }

    /// The recording files inside a new directory of `base` named after the local time.
    pub fn timestamped(base: &str) -> (p: Self)
        ensures
            exists|stamp: Seq<char>| is_timestamp_text(stamp) && paths_in(p, join_path(base@, stamp)),
    {
        let stamp = local_timestamp();
        let root = join(base, stamp.as_str());
        Self::for_root(root.as_str())
    }

    /// The track file of an application channel: `application_<id>_<safe name>.wav` inside the root.
    pub fn application_audio(&self, channel_id: u64, name: &str) -> (p: String)
        ensures
            p@ == join_path(
                self.root@,
                "application_"@ + decimal(channel_id as nat) + "_"@ + sanitized_track_name(name@)
                    + ".wav"@,
            ),
    {
        let safe = sanitize_track_name(name);
        let mut file: Vec<char> = Vec::new();
        push_str(&mut file, "application_");
        let digits = decimal_chars(channel_id);
        push_chars(&mut file, digits.as_slice());
        push_str(&mut file, "_");
        push_str(&mut file, safe.as_str());
        push_str(&mut file, ".wav");
        let file_name = string_from_chars(file.as_slice());
        join(self.root.as_str(), file_name.as_str())
    }
}

proof fn lemma_join_distinct(root: Seq<char>, a: Seq<char>, b: Seq<char>)
    requires
        a != b,
    ensures
        join_path(root, a) != join_path(root, b),
{
    let pre = if root.len() == 0 {
        root
    } else if root.last() == '/' {
        root
    } else {
        root + "/"@
    };
    assert(join_path(root, a) == pre + a);
    assert(join_path(root, b) == pre + b);
    if pre + a == pre + b {
        assert(a =~= (pre + a).subrange(pre.len() as int, (pre + a).len() as int));
        assert(b =~= (pre + b).subrange(pre.len() as int, (pre + b).len() as int));
    }
}

/// The five files of a recording are five different files.
pub proof fn lemma_recording_files_distinct(p: RecordingPaths, root: Seq<char>)
    requires
        paths_in(p, root),
    ensures
        p.video_only@ != p.final_video@,
        p.video_only@ != p.microphone@,
        p.video_only@ != p.desktop_audio@,
        p.video_only@ != p.edit_json@,
        p.final_video@ != p.microphone@,
        p.final_video@ != p.desktop_audio@,
        p.final_video@ != p.edit_json@,
        p.microphone@ != p.desktop_audio@,
        p.microphone@ != p.edit_json@,
        p.desktop_audio@ != p.edit_json@,
{
    reveal_strlit("video_only.mp4");
    reveal_strlit("recording.mp4");
    reveal_strlit("microphone.wav");
    reveal_strlit("desktop.wav");
    reveal_strlit("yaoyorozu_edit.json");
    let names = seq!["video_only.mp4"@, "recording.mp4"@, "microphone.wav"@, "desktop.wav"@, "yaoyorozu_edit.json"@];
    assert("video_only.mp4"@[0] != "recording.mp4"@[0]);
    assert("video_only.mp4"@[0] != "microphone.wav"@[0]);
    assert("video_only.mp4"@[0] != "desktop.wav"@[0]);
    assert("video_only.mp4"@[0] != "yaoyorozu_edit.json"@[0]);
    assert("recording.mp4"@[0] != "microphone.wav"@[0]);
    assert("recording.mp4"@[0] != "desktop.wav"@[0]);
    assert("recording.mp4"@[0] != "yaoyorozu_edit.json"@[0]);
    assert("microphone.wav"@[0] != "desktop.wav"@[0]);
    assert("microphone.wav"@[0] != "yaoyorozu_edit.json"@[0]);
    assert("desktop.wav"@[0] != "yaoyorozu_edit.json"@[0]);
    lemma_join_distinct(root, "video_only.mp4"@, "recording.mp4"@);
    lemma_join_distinct(root, "video_only.mp4"@, "microphone.wav"@);
    lemma_join_distinct(root, "video_only.mp4"@, "desktop.wav"@);
    lemma_join_distinct(root, "video_only.mp4"@, "yaoyorozu_edit.json"@);
    lemma_join_distinct(root, "recording.mp4"@, "microphone.wav"@);
    lemma_join_distinct(root, "recording.mp4"@, "desktop.wav"@);
    lemma_join_distinct(root, "recording.mp4"@, "yaoyorozu_edit.json"@);
    lemma_join_distinct(root, "microphone.wav"@, "desktop.wav"@);
    lemma_join_distinct(root, "microphone.wav"@, "yaoyorozu_edit.json"@);
    lemma_join_distinct(root, "desktop.wav"@, "yaoyorozu_edit.json"@);
}

} // verus!
