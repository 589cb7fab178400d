//! Audio devices, application audio sources and the state the meters report.
use vstd::prelude::*;
use crate::order::{
    lemma_insert_by_at, lemma_lex_le_antisymmetric, lemma_lex_le_total, lemma_lex_le_transitive,
    lemma_stable_sort_len, lemma_stable_sort_multiset, lemma_stable_sort_sorted, lex_compare,
    lex_le, sorted_by, stable_sort_by, total_preorder,
};
use crate::text::{
    ascii_lower, chars_of, contains, decimal, decimal_chars, push_chars, push_str,
    string_from_chars, to_ascii_lower, trim, trim_chars, contains_str, trim_end_suffix,
    trim_end_suffix_chars,
};

verus! {

// ---------------------------------------------------------------------------
// Application audio sources
// ---------------------------------------------------------------------------

/// A process that plays audio and can be captured on its own.
#[derive(Debug, Clone, PartialEq, Eq)]
pub struct ApplicationAudioSource {
    /// PID reported by the Windows audio session.
    pub session_process_id: u32,
    /// PID used for process-loopback capture. For multi-process apps such as
    /// Discord this is the highest parent process with the same executable name.
    pub capture_process_id: u32,
    pub process_name: String,
    pub display_name: String,
}

/// The source belongs to Discord, judged by either name, ignoring ASCII case.
pub open spec fn source_is_discord(s: ApplicationAudioSource) -> bool {
    contains(ascii_lower(s.process_name@), "discord"@) || contains(
        ascii_lower(s.display_name@),
        "discord"@,
    )
}

/// The name shown for a source: the trimmed display name, or the trimmed
/// process name when the display name is blank.
pub open spec fn source_name(s: ApplicationAudioSource) -> Seq<char> {
    if trim(s.display_name@).len() == 0 {
        trim(s.process_name@)
    } else {
        trim(s.display_name@)
    }
}

/// The label of a source: Discord is starred, other sources show their capture PID.
pub open spec fn source_label(s: ApplicationAudioSource) -> Seq<char> {
    if source_is_discord(s) {
        "★ Discord — "@ + source_name(s)
    } else {
        source_name(s) + " (PID "@ + decimal(s.capture_process_id as nat) + ")"@
    }
}

/// The order of the source list: Discord first, then by label ignoring ASCII
/// case, then by capture PID.
pub open spec fn source_le(a: ApplicationAudioSource, b: ApplicationAudioSource) -> bool {
    if source_is_discord(a) != source_is_discord(b) {
        source_is_discord(a)
    } else if ascii_lower(source_label(a)) != ascii_lower(source_label(b)) {
        lex_le(ascii_lower(source_label(a)), ascii_lower(source_label(b)))
    } else {
        a.capture_process_id <= b.capture_process_id
    }
}

/// `source_le` as a relation value.
pub open spec fn source_order() -> spec_fn(ApplicationAudioSource, ApplicationAudioSource) -> bool {
    |a: ApplicationAudioSource, b: ApplicationAudioSource| source_le(a, b)
}

impl ApplicationAudioSource {
    /// A source with the given PIDs and names.
    pub fn new(
        session_process_id: u32,
        capture_process_id: u32,
        process_name: &str,
        display_name: &str,
    ) -> (s: Self)
        ensures
            s.session_process_id == session_process_id,
            s.capture_process_id == capture_process_id,
            s.process_name@ == process_name@,
            s.display_name@ == display_name@,
    {
        ApplicationAudioSource {
            session_process_id,
            capture_process_id,
            process_name: String::from_str(process_name),
            display_name: String::from_str(display_name),
        }
    }

    /// Whether either name mentions Discord, ignoring ASCII case.
    pub fn is_discord(&self) -> (b: bool)
        ensures
            b == source_is_discord(*self),
    {
        let p = chars_of(self.process_name.as_str());
        let pl = to_ascii_lower(p.as_slice());
        if contains_str(pl.as_slice(), "discord") {
            return true;
        }
        let d = chars_of(self.display_name.as_str());
        let dl = to_ascii_lower(d.as_slice());
        contains_str(dl.as_slice(), "discord")
    }
}

fn source_label_chars(source: &ApplicationAudioSource) -> (out: Vec<char>)
    ensures
        out@ == source_label(*source),
{
    let d = chars_of(source.display_name.as_str());
    let dt = trim_chars(d.as_slice());
    let name = if dt.len() == 0 {
        let p = chars_of(source.process_name.as_str());
        trim_chars(p.as_slice())
    } else {
        dt
    };
    let mut out: Vec<char> = Vec::new();
    if source.is_discord() {
        push_str(&mut out, "★ Discord — ");
        push_chars(&mut out, name.as_slice());
    } else {
        push_chars(&mut out, name.as_slice());
        push_str(&mut out, " (PID ");
        let digits = decimal_chars(source.capture_process_id as u64);
        push_chars(&mut out, digits.as_slice());
        push_str(&mut out, ")");
    }
    out
}

/// The label shown for an application audio source.
pub fn application_source_label(source: &ApplicationAudioSource) -> (label: String)
    ensures
        label@ == source_label(*source),
{
    let out = source_label_chars(source);
    string_from_chars(out.as_slice())
}

/// The source order is a total preorder.
pub proof fn lemma_source_order_total_preorder()
    ensures
        total_preorder(source_order()),
{
    let le = source_order();
    assert forall|a: ApplicationAudioSource, b: ApplicationAudioSource| #[trigger]
        le(a, b) || le(b, a) by {
        lemma_lex_le_total(ascii_lower(source_label(a)), ascii_lower(source_label(b)));
    }
    assert forall|a: ApplicationAudioSource, b: ApplicationAudioSource, c: ApplicationAudioSource|
        #[trigger] le(a, b) && #[trigger] le(b, c) implies le(a, c) by {
        let la = ascii_lower(source_label(a));
        let lb = ascii_lower(source_label(b));
        let lc = ascii_lower(source_label(c));
        if source_is_discord(a) == source_is_discord(b) && source_is_discord(b)
            == source_is_discord(c) {
            if la != lb && lb != lc {
                lemma_lex_le_transitive(la, lb, lc);
                if la == lc {
                    lemma_lex_le_antisymmetric(la, lb);
                }
            }
        }
    }
}

fn copy_source(s: &ApplicationAudioSource) -> (c: ApplicationAudioSource)
    ensures
        c == *s,
{
    ApplicationAudioSource {
        session_process_id: s.session_process_id,
        capture_process_id: s.capture_process_id,
        process_name: s.process_name.clone(),
        display_name: s.display_name.clone(),
    }
}

/// The values that decide where a source goes in the list.
struct SourceKey {
    discord: bool,
    label: Vec<char>,
    pid: u32,
}

spec fn key_matches(k: SourceKey, s: ApplicationAudioSource) -> bool {
    &&& k.discord == source_is_discord(s)
    &&& k.label@ == ascii_lower(source_label(s))
    &&& k.pid == s.capture_process_id
}

fn key_of(s: &ApplicationAudioSource) -> (k: SourceKey)
    ensures
        key_matches(k, *s),
{
    let label = source_label_chars(s);
    SourceKey { discord: s.is_discord(), label: to_ascii_lower(label.as_slice()), pid: s.capture_process_id }
}

fn key_le(a: &SourceKey, b: &SourceKey) -> (r: bool)
    ensures
        forall|x: ApplicationAudioSource, y: ApplicationAudioSource|
            key_matches(*a, x) && key_matches(*b, y) ==> r == source_le(x, y),
{
    if a.discord != b.discord {
        a.discord
    } else {
        let c = lex_compare(a.label.as_slice(), b.label.as_slice());
        if c != 0 {
            c < 0
        } else {
            a.pid <= b.pid
        }
    }
}

/// Sorts application sources: Discord first, then by label ignoring ASCII
/// case, then by capture PID; sources that compare equal keep their order.
pub fn sort_application_sources(sources: &mut [ApplicationAudioSource])
    ensures
        final(sources)@ == stable_sort_by(old(sources)@, source_order()),
{
    let ghost input = sources@;
    let n = sources.len();
    let mut sorted: Vec<ApplicationAudioSource> = Vec::new();
    let mut keys: Vec<SourceKey> = Vec::new();
    let mut i: usize = 0;
    while i < n
        invariant
            i <= n,
            n == input.len(),
            sources@ == input,
            sorted@ == stable_sort_by(input.take(i as int), source_order()),
            keys@.len() == sorted@.len(),
            forall|k: int| 0 <= k < keys@.len() ==> key_matches(#[trigger] keys@[k], sorted@[k]),
        decreases n - i,
    {
        let x = copy_source(&sources[i]);
        let kx = key_of(&x);
        let mut j: usize = sorted.len();
        while j > 0 && !key_le(&keys[j - 1], &kx)
            invariant
                j <= sorted@.len(),
                keys@.len() == sorted@.len(),
                forall|k: int| 0 <= k < keys@.len() ==> key_matches(#[trigger] keys@[k], sorted@[k]),
                key_matches(kx, x),
                forall|k: int| j <= k < sorted@.len() ==> !source_le(#[trigger] sorted@[k], x),
            decreases j,
        {
            j = j - 1;
        }
        proof {
            if j > 0 {
                assert(key_matches(keys@[j - 1], sorted@[j - 1]));
            }
            lemma_insert_by_at(sorted@, x, source_order(), j as int);
            assert(input.take(i + 1).drop_last() =~= input.take(i as int));
            assert(input.take(i + 1).last() == input[i as int]);
        }
        let ghost before_keys = keys@;
        let ghost before_sorted = sorted@;
        sorted.insert(j, x);
        keys.insert(j, kx);
        proof {
            assert(sorted@ =~= before_sorted.take(j as int).push(x) + before_sorted.skip(j as int));
            assert forall|k: int| 0 <= k < keys@.len() implies key_matches(#[trigger] keys@[k], sorted@[k]) by {
                if k < j {
                    assert(keys@[k] == before_keys[k] && sorted@[k] == before_sorted[k]);
                } else if k > j {
                    assert(keys@[k] == before_keys[k - 1] && sorted@[k] == before_sorted[k - 1]);
                }
            }
        }
        i = i + 1;
    }
    assert(input.take(n as int) =~= input);
    proof {
        lemma_stable_sort_len(input, source_order());
    }
    let mut w: usize = 0;
    while w < n
        invariant
            w <= n,
            n == sorted@.len(),
            n == sources@.len(),
            forall|k: int| 0 <= k < w ==> sources@[k] == sorted@[k],
        decreases n - w,
    {
        let c = copy_source(&sorted[w]);
        sources[w] = c;
        w = w + 1;
    }
    assert(sources@ =~= sorted@);
}

/// Sorting source lists keeps every source, and puts each Discord source
/// before every other source.
pub proof fn lemma_sorted_sources_discord_first(sources: Seq<ApplicationAudioSource>)
    ensures
        stable_sort_by(sources, source_order()).to_multiset() == sources.to_multiset(),
        forall|i: int, j: int|
            0 <= i < j < stable_sort_by(sources, source_order()).len() && source_is_discord(
                #[trigger] stable_sort_by(sources, source_order())[j],
            ) ==> source_is_discord(#[trigger] stable_sort_by(sources, source_order())[i]),
        sorted_by(stable_sort_by(sources, source_order()), source_order()),
{
    lemma_source_order_total_preorder();
    lemma_stable_sort_sorted(sources, source_order());
    lemma_stable_sort_multiset(sources, source_order());
    let r = stable_sort_by(sources, source_order());
    assert forall|i: int, j: int|
        0 <= i < j < r.len() && source_is_discord(#[trigger] r[j]) implies source_is_discord(
        #[trigger] r[i],
    ) by {
        assert(source_order()(r[i], r[j]));
    }
}

/// One running process: its PID, its parent's PID if known, and its
/// executable name.
#[derive(Debug, Clone)]
pub struct ProcessInfo {
    pub pid: u32,
    pub parent: Option<u32>,
    pub name: String,
}

/// The first process of `table` with the given PID.
pub open spec fn find_process(table: Seq<ProcessInfo>, pid: u32) -> Option<ProcessInfo>
    decreases table.len(),
{
    if table.len() == 0 {
        None
    } else if table[0].pid == pid {
        Some(table[0])
    } else {
        find_process(table.drop_first(), pid)
    }
}

/// The parent that the walk up from `pid` moves to: one that is in the table
/// and whose executable name equals `lower` ignoring ASCII case.
pub open spec fn same_named_parent(table: Seq<ProcessInfo>, pid: u32, lower: Seq<char>) -> Option<u32> {
    match find_process(table, pid) {
        Some(p) => match p.parent {
            Some(pp) => match find_process(table, pp) {
                Some(q) => if ascii_lower(q.name@) == lower {
                    Some(pp)
                } else {
                    None
                },
                None => None,
            },
            None => None,
        },
        None => None,
    }
}

/// The walk up from `pid` through same-named parents, at most `steps` steps.
pub open spec fn climb(table: Seq<ProcessInfo>, pid: u32, lower: Seq<char>, steps: nat) -> u32
    decreases steps,
{
    if steps == 0 {
        pid
    } else {
        match same_named_parent(table, pid, lower) {
            Some(pp) => climb(table, pp, lower, (steps - 1) as nat),
            None => pid,
        }
    }
}

/// Once the walk has reached a process with no same-named parent, more steps
/// change nothing: the step bound only matters for a chain of parents that
/// loops back on itself.
pub proof fn lemma_climb_settles(table: Seq<ProcessInfo>, pid: u32, lower: Seq<char>, n: nat, m: nat)
    requires
        n <= m,
        same_named_parent(table, climb(table, pid, lower, n), lower) is None,
    ensures
        climb(table, pid, lower, m) == climb(table, pid, lower, n),
    decreases n,
{
    if n == 0 {
        if m > 0 {
            assert(climb(table, pid, lower, m) == pid);
        }
    } else {
        match same_named_parent(table, pid, lower) {
            Some(pp) => {
                lemma_climb_settles(table, pp, lower, (n - 1) as nat, (m - 1) as nat);
            },
            None => {},
        }
    }
}

fn lookup_process(table: &[ProcessInfo], pid: u32) -> (i: Option<usize>)
    ensures
        match i {
            Some(k) => k < table@.len() && find_process(table@, pid) == Some(table@[k as int]),
            None => find_process(table@, pid) is None,
        },
{
    let mut k: usize = 0;
    assert(table@.skip(0) =~= table@);
    while k < table.len()
        invariant
            k <= table.len(),
            find_process(table@, pid) == find_process(table@.skip(k as int), pid),
        decreases table.len() - k,
    {
        assert(table@.skip(k as int)[0] == table@[k as int]);
        if table[k].pid == pid {
            return Some(k);
        }
        assert(table@.skip(k as int).drop_first() =~= table@.skip(k + 1));
        k = k + 1;
    }
    assert(table@.skip(k as int).len() == 0);
    None
}

/// The process to capture an audio session of `pid` from, and the session
/// process's name: applications such as Discord or Chromium play audio from a
/// child process, so the walk climbs to parents while the executable name
/// stays the same (ignoring ASCII case). A PID missing from the table is its
/// own root, named `PID <pid>`. The walk takes at most as many steps as the
/// table has entries, which any chain of distinct parents allows.
pub fn root_process_for_audio_session(table: &[ProcessInfo], pid: u32) -> (r: (u32, String))
    ensures
        match find_process(table@, pid) {
            None => r.0 == pid && r.1@ == "PID "@ + decimal(pid as nat),
            Some(p) => r.0 == climb(table@, pid, ascii_lower(p.name@), table@.len()) && r.1@ == p.name@,
        },
{
    let start = match lookup_process(table, pid) {
        Some(k) => k,
        None => {
            let mut t: Vec<char> = Vec::new();
            push_str(&mut t, "PID ");
            let digits = decimal_chars(pid as u64);
            push_chars(&mut t, digits.as_slice());
            return (pid, string_from_chars(t.as_slice()));
        },
    };
    let name = table[start].name.clone();
    let nc = chars_of(name.as_str());
    let lower = to_ascii_lower(nc.as_slice());
    let ghost l = lower@;
    let mut root = pid;
    let mut steps = table.len();
    while steps > 0
        invariant
            steps <= table.len(),
            l == lower@,
            climb(table@, pid, l, table@.len()) == climb(table@, root, l, steps as nat),
        ensures
            climb(table@, pid, l, table@.len()) == root,
        decreases steps,
    {
        let cur = match lookup_process(table, root) {
            Some(k) => k,
            None => {
                assert(same_named_parent(table@, root, l) is None);
                break;
            },
        };
        let pp = match table[cur].parent {
            Some(pp) => pp,
            None => {
                assert(same_named_parent(table@, root, l) is None);
                break;
            },
        };
        let q = match lookup_process(table, pp) {
            Some(k) => k,
            None => {
                assert(same_named_parent(table@, root, l) is None);
                break;
            },
        };
        let qc = chars_of(table[q].name.as_str());
        let ql = to_ascii_lower(qc.as_slice());
        if ql.len() != lower.len() || !crate::text::matches_at(ql.as_slice(), lower.as_slice(), 0) {
            proof {
                if ql@ =~= l {
                    assert(ql@.subrange(0, ql@.len() as int) =~= ql@);
                }
                assert(same_named_parent(table@, root, l) is None);
            }
            break;
        }
        proof {
            assert(ql@.subrange(0, lower@.len() as int) =~= ql@);
            assert(same_named_parent(table@, root, l) == Some(pp));
        }
        root = pp;
        steps = steps - 1;
    }
    (root, name)
}

/// One audio session found on an output device: the PID that plays the
/// audio, the PID to capture it from (the topmost parent with the same
/// executable name), that process's executable name, and the session's own
/// display name, which may be blank.
#[derive(Debug, Clone)]
pub struct AudioSessionInfo {
    pub session_process_id: u32,
    pub capture_process_id: u32,
    pub process_name: String,
    pub session_display_name: String,
}

/// The name shown for a session: its display name, or the executable name
/// without its `.exe` when the display name is blank.
pub open spec fn session_display_name(s: AudioSessionInfo) -> Seq<char> {
    if trim(s.session_display_name@).len() == 0 {
        trim_end_suffix(s.process_name@, ".exe"@)
    } else {
        s.session_display_name@
    }
}

/// A session is listed unless its PID is 0 (the system) or our own process.
pub open spec fn session_listed(s: AudioSessionInfo, own_pid: u32) -> bool {
    s.session_process_id != 0 && s.session_process_id != own_pid
}

/// Some session of `s` is captured from `pid`.
pub open spec fn has_capture_pid(s: Seq<AudioSessionInfo>, pid: u32) -> bool {
    exists|i: int| 0 <= i < s.len() && (#[trigger] s[i]).capture_process_id == pid
}

/// The listed sessions, keeping only the first one per capture PID.
pub open spec fn first_sessions(s: Seq<AudioSessionInfo>, own_pid: u32) -> Seq<AudioSessionInfo>
    decreases s.len(),
{
    if s.len() == 0 {
        s
    } else {
        let p = first_sessions(s.drop_last(), own_pid);
        if session_listed(s.last(), own_pid) && !has_capture_pid(p, s.last().capture_process_id) {
            p.push(s.last())
        } else {
            p
        }
    }
}

/// Sessions in order of capture PID.
pub open spec fn capture_pid_order() -> spec_fn(AudioSessionInfo, AudioSessionInfo) -> bool {
    |a: AudioSessionInfo, b: AudioSessionInfo| a.capture_process_id <= b.capture_process_id
}

/// `src` is the source listed for session `s`.
pub open spec fn source_of_session(src: ApplicationAudioSource, s: AudioSessionInfo) -> bool {
    &&& src.session_process_id == s.session_process_id
    &&& src.capture_process_id == s.capture_process_id
    &&& src.process_name@ == s.process_name@
    &&& src.display_name@ == session_display_name(s)
}

/// `sources` are the sources listed for `sessions`, one for one.
pub open spec fn sources_of_sessions(sources: Seq<ApplicationAudioSource>, sessions: Seq<AudioSessionInfo>) -> bool {
    &&& sources.len() == sessions.len()
    &&& forall|i: int| 0 <= i < sources.len() ==> source_of_session(#[trigger] sources[i], sessions[i])
}

/// Each capture PID appears at most once among the kept sessions, every
/// kept session is listed, and every listed session's capture PID is kept.
pub proof fn lemma_first_sessions(s: Seq<AudioSessionInfo>, own_pid: u32)
    ensures
        forall|i: int, j: int|
            0 <= i < j < first_sessions(s, own_pid).len() ==> (#[trigger] first_sessions(s, own_pid)[i]).capture_process_id
                != (#[trigger] first_sessions(s, own_pid)[j]).capture_process_id,
        forall|i: int|
            0 <= i < first_sessions(s, own_pid).len() ==> session_listed(
                #[trigger] first_sessions(s, own_pid)[i],
                own_pid,
            ),
        forall|i: int|
            0 <= i < s.len() && session_listed(#[trigger] s[i], own_pid) ==> has_capture_pid(
                first_sessions(s, own_pid),
                s[i].capture_process_id,
            ),
    decreases s.len(),
{
    if s.len() > 0 {
        let q = s.drop_last();
        lemma_first_sessions(q, own_pid);
        let p = first_sessions(q, own_pid);
        let r = first_sessions(s, own_pid);
        let x = s.last();
        assert forall|i: int|
            0 <= i < s.len() && session_listed(#[trigger] s[i], own_pid) implies has_capture_pid(r, s[i].capture_process_id) by {
            if i < s.len() - 1 {
                assert(q[i] == s[i]);
                assert(has_capture_pid(p, s[i].capture_process_id));
                let k = choose|k: int| 0 <= k < p.len() && (#[trigger] p[k]).capture_process_id == s[i].capture_process_id;
                assert(r[k] == p[k]);
            } else if has_capture_pid(p, x.capture_process_id) {
                let k = choose|k: int| 0 <= k < p.len() && (#[trigger] p[k]).capture_process_id == x.capture_process_id;
                assert(r[k] == p[k]);
            } else {
                assert(r[r.len() - 1] == x);
            }
        }
        assert forall|i: int, j: int| 0 <= i < j < r.len() implies (#[trigger] r[i]).capture_process_id != (#[trigger] r[j]).capture_process_id by {
            if j < p.len() {
                assert(r[i] == p[i] && r[j] == p[j]);
            } else {
                assert(r[i] == p[i]);
                assert(r[j] == x);
                if p[i].capture_process_id == x.capture_process_id {
                    assert(has_capture_pid(p, x.capture_process_id));
                }
            }
        }
        assert forall|i: int| 0 <= i < r.len() implies session_listed(#[trigger] r[i], own_pid) by {
            if i < p.len() {
                assert(r[i] == p[i]);
            }
        }
    }
}

fn copy_session(s: &AudioSessionInfo) -> (c: AudioSessionInfo)
    ensures
        c == *s,
{
    AudioSessionInfo {
        session_process_id: s.session_process_id,
        capture_process_id: s.capture_process_id,
        process_name: s.process_name.clone(),
        session_display_name: s.session_display_name.clone(),
    }
}

fn listed_first_sessions(sessions: &[AudioSessionInfo], own_pid: u32) -> (kept: Vec<AudioSessionInfo>)
    ensures
        kept@ == first_sessions(sessions@, own_pid),
{
    let mut kept: Vec<AudioSessionInfo> = Vec::new();
    let mut i: usize = 0;
    while i < sessions.len()
        invariant
            i <= sessions.len(),
            kept@ == first_sessions(sessions@.take(i as int), own_pid),
        decreases sessions.len() - i,
    {
        let s = &sessions[i];
        let mut seen = false;
        let mut k: usize = 0;
        while k < kept.len()
            invariant
                k <= kept.len(),
                seen == exists|j: int| 0 <= j < k && (#[trigger] kept@[j]).capture_process_id == s.capture_process_id,
            decreases kept.len() - k,
        {
            if kept[k].capture_process_id == s.capture_process_id {
                seen = true;
            }
            k = k + 1;
        }
        proof {
            assert(sessions@.take(i + 1).drop_last() =~= sessions@.take(i as int));
            assert(sessions@.take(i + 1).last() == sessions@[i as int]);
        }
        if s.session_process_id != 0 && s.session_process_id != own_pid && !seen {
            kept.push(copy_session(s));
        }
        i = i + 1;
    }
    assert(sessions@.take(sessions.len() as int) =~= sessions@);
    kept
}

fn sort_by_capture_pid(sessions: Vec<AudioSessionInfo>) -> (sorted: Vec<AudioSessionInfo>)
    ensures
        sorted@ == stable_sort_by(sessions@, capture_pid_order()),
{
    let ghost input = sessions@;
    let n = sessions.len();
    let mut sorted: Vec<AudioSessionInfo> = Vec::new();
    let mut i: usize = 0;
    while i < n
        invariant
            i <= n,
            n == input.len(),
            sessions@ == input,
            sorted@ == stable_sort_by(input.take(i as int), capture_pid_order()),
        decreases n - i,
    {
        let x = copy_session(&sessions[i]);
        let mut j: usize = sorted.len();
        while j > 0 && sorted[j - 1].capture_process_id > x.capture_process_id
            invariant
                j <= sorted@.len(),
                forall|k: int| j <= k < sorted@.len() ==> !(capture_pid_order())(#[trigger] sorted@[k], x),
            decreases j,
        {
            j = j - 1;
        }
        proof {
            lemma_insert_by_at(sorted@, x, capture_pid_order(), j as int);
            assert(input.take(i + 1).drop_last() =~= input.take(i as int));
            assert(input.take(i + 1).last() == input[i as int]);
        }
        let ghost before = sorted@;
        sorted.insert(j, x);
        assert(sorted@ =~= before.take(j as int).push(x) + before.skip(j as int));
        i = i + 1;
    }
    assert(input.take(n as int) =~= input);
    sorted
}

fn source_for_session(s: &AudioSessionInfo) -> (src: ApplicationAudioSource)
    ensures
        source_of_session(src, *s),
{
    let d = chars_of(s.session_display_name.as_str());
    let dt = trim_chars(d.as_slice());
    let display_name = if dt.len() == 0 {
        let p = chars_of(s.process_name.as_str());
        let stem = trim_end_suffix_chars(p.as_slice(), ".exe");
        string_from_chars(stem.as_slice())
    } else {
        s.session_display_name.clone()
    };
    ApplicationAudioSource {
        session_process_id: s.session_process_id,
        capture_process_id: s.capture_process_id,
        process_name: s.process_name.clone(),
        display_name,
    }
}

/// The application sources behind the audio sessions of the output devices:
/// sessions of the system (PID 0) and of `own_pid` are left out, each
/// capture PID is listed once (for its first session), in capture-PID order
/// before the list is sorted like every source list.
pub fn application_sources_from_sessions(sessions: &[AudioSessionInfo], own_pid: u32) -> (sources: Vec<
    ApplicationAudioSource,
>)
    ensures
        exists|m: Seq<ApplicationAudioSource>|
            sources_of_sessions(m, stable_sort_by(first_sessions(sessions@, own_pid), capture_pid_order()))
                && sources@ == stable_sort_by(m, source_order()),
{
    let kept = listed_first_sessions(sessions, own_pid);
    let ordered = sort_by_capture_pid(kept);
    let mut sources: Vec<ApplicationAudioSource> = Vec::new();
    let mut i: usize = 0;
    while i < ordered.len()
        invariant
            i <= ordered.len(),
            sources_of_sessions(sources@, ordered@.take(i as int)),
        decreases ordered.len() - i,
    {
        let src = source_for_session(&ordered[i]);
        sources.push(src);
        i = i + 1;
        proof {
            let t = ordered@.take(i as int);
            assert forall|k: int| 0 <= k < sources@.len() implies source_of_session(#[trigger] sources@[k], t[k]) by {
                if k < i - 1 {
                    assert(t[k] == ordered@.take(i - 1)[k]);
                }
            }
        }
    }
    assert(ordered@.take(ordered.len() as int) =~= ordered@);
    let ghost m = sources@;
    sort_application_sources(sources.as_mut_slice());
    assert(sources_of_sessions(m, stable_sort_by(first_sessions(sessions@, own_pid), capture_pid_order())));
    sources
}

// ---------------------------------------------------------------------------
// Devices
// ---------------------------------------------------------------------------

/// Whether a device records or plays.
#[derive(Debug, Clone, Copy, PartialEq, Eq, Structural)]
pub enum AudioDeviceKind {
    Input,
    Output,
}

/// An audio endpoint with its stable id and display name.
#[derive(Debug, Clone, PartialEq, Eq)]
pub struct AudioDeviceInfo {
    pub id: String,
    pub name: String,
    pub kind: AudioDeviceKind,
    pub is_default: bool,
}

/// Which device to use: the system default, or one chosen by id.
#[derive(Debug, Clone, PartialEq, Eq)]
pub enum AudioDeviceSelection {
    Default,
    DeviceId(String),
}

impl Default for AudioDeviceSelection {
    /// The system default device.
    fn default() -> (s: Self)
        ensures
            s matches AudioDeviceSelection::Default,
    {
        AudioDeviceSelection::Default
    }
}

/// The chosen input and output devices.
#[derive(Debug, Clone, PartialEq, Eq)]
pub struct AudioDeviceState {
    pub input: AudioDeviceSelection,
    pub output: AudioDeviceSelection,
}

impl Default for AudioDeviceState {
    /// Both directions use the system default.
    fn default() -> (s: Self)
        ensures
            s.input matches AudioDeviceSelection::Default,
            s.output matches AudioDeviceSelection::Default,
    {
        AudioDeviceState { input: AudioDeviceSelection::Default, output: AudioDeviceSelection::Default }
    }
}

/// Whether a device is in use, gone, or being reopened.
#[derive(Debug, Clone, Copy, PartialEq, Eq, Structural)]
pub enum AudioDeviceConnectionState {
    Connected,
    Disconnected,
    Reconnecting,
}

impl Default for AudioDeviceConnectionState {
    /// A device starts out reconnecting.
    fn default() -> (s: Self)
        ensures
            s == AudioDeviceConnectionState::Reconnecting,
    {
        AudioDeviceConnectionState::Reconnecting
    }
}

/// The first device in `devices` whose id is `id`, if any.
pub open spec fn device_named(devices: Seq<AudioDeviceInfo>, id: Seq<char>, i: int) -> bool {
    &&& 0 <= i < devices.len()
    &&& devices[i].id@ == id
    &&& forall|j: int| 0 <= j < i ==> devices[j].id@ != id
}

/// The label of a selection: "Windows default", the chosen device's name, or
/// "disconnected device" when no listed device has the chosen id.
pub open spec fn selection_text(selection: AudioDeviceSelection, devices: Seq<AudioDeviceInfo>) -> Seq<char> {
    match selection {
        AudioDeviceSelection::Default => "Windows既定"@,
        AudioDeviceSelection::DeviceId(id) => if exists|i: int| device_named(devices, id@, i) {
            devices[choose|i: int| device_named(devices, id@, i)].name@
        } else {
            "切断されたデバイス"@
        },
    }
}

/// The label shown for a device selection.
pub fn selection_label(selection: &AudioDeviceSelection, devices: &[AudioDeviceInfo]) -> (label: String)
    ensures
        label@ == selection_text(*selection, devices@),
{
    match selection {
        AudioDeviceSelection::Default => String::from_str("Windows既定"),
        AudioDeviceSelection::DeviceId(id) => {
            let mut i: usize = 0;
            while i < devices.len()
                invariant
                    i <= devices.len(),
                    *selection == AudioDeviceSelection::DeviceId(*id),
                    forall|j: int| 0 <= j < i ==> devices@[j].id@ != id@,
                decreases devices.len() - i,
            {
                if devices[i].id == *id {
                    proof {
                        assert(device_named(devices@, id@, i as int));
                        let k = choose|k: int| device_named(devices@, id@, k);
                        if k < i {
                            assert(devices@[k].id@ != id@);
                        }
                        if k > i {
                            assert(devices@[i as int].id@ != id@);
                        }
                        assert(k == i);
                    }
                    return devices[i].name.clone();
                }
                i = i + 1;
            }
            String::from_str("切断されたデバイス")
        },
    }
}

/// Which meter a device feeds.
#[derive(Debug, Clone, Copy, PartialEq, Eq, Structural)]
pub enum MeterPath {
    Microphone,
    Desktop,
}

fn copy_selection(s: &AudioDeviceSelection) -> (c: AudioDeviceSelection)
    ensures
        c == *s,
{
    match s {
        AudioDeviceSelection::Default => AudioDeviceSelection::Default,
        AudioDeviceSelection::DeviceId(id) => AudioDeviceSelection::DeviceId(id.clone()),
    }
}

/// The selection that a meter path reads: input for the microphone, output for the desktop.
pub fn current_selection(state: &AudioDeviceState, path: MeterPath) -> (s: AudioDeviceSelection)
    ensures
        s == match path {
            MeterPath::Microphone => state.input,
            MeterPath::Desktop => state.output,
        },
{
    match path {
        MeterPath::Microphone => copy_selection(&state.input),
        MeterPath::Desktop => copy_selection(&state.output),
    }
}

/// What the meters say about each device.
#[derive(Debug, Clone)]
pub struct AudioDeviceStatus {
    pub microphone: String,
    pub desktop: String,
    pub microphone_connection: AudioDeviceConnectionState,
    pub desktop_connection: AudioDeviceConnectionState,
}

/// The message shown while a path is being reopened.
pub open spec fn reconnecting_text(path: MeterPath) -> Seq<char> {
    match path {
        MeterPath::Microphone => "マイク: 再接続中"@,
        MeterPath::Desktop => "PC音声: 再接続中"@,
    }
}

impl Default for AudioDeviceStatus {
    /// Both devices start out reconnecting.
    fn default() -> (s: Self)
        ensures
            s.microphone@ == reconnecting_text(MeterPath::Microphone),
            s.desktop@ == reconnecting_text(MeterPath::Desktop),
            s.microphone_connection == AudioDeviceConnectionState::Reconnecting,
            s.desktop_connection == AudioDeviceConnectionState::Reconnecting,
    {
        AudioDeviceStatus {
            microphone: String::from_str("マイク: 再接続中"),
            desktop: String::from_str("PC音声: 再接続中"),
            microphone_connection: AudioDeviceConnectionState::Reconnecting,
            desktop_connection: AudioDeviceConnectionState::Reconnecting,
        }
    }
}

impl AudioDeviceStatus {
    /// Records the state and message of one path, leaving the other path as it was.
    pub fn set_status(&mut self, path: MeterPath, connection: AudioDeviceConnectionState, message: String)
        ensures
            match path {
                MeterPath::Microphone => {
                    &&& final(self).microphone_connection == connection
                    &&& final(self).microphone == message
                    &&& final(self).desktop_connection == old(self).desktop_connection
                    &&& final(self).desktop == old(self).desktop
                },
                MeterPath::Desktop => {
                    &&& final(self).desktop_connection == connection
                    &&& final(self).desktop == message
                    &&& final(self).microphone_connection == old(self).microphone_connection
                    &&& final(self).microphone == old(self).microphone
                },
            },
    {
        match path {
            MeterPath::Microphone => {
                self.microphone_connection = connection;
                self.microphone = message;
            },
            MeterPath::Desktop => {
                self.desktop_connection = connection;
                self.desktop = message;
            },
        }
    }

    /// Marks a path as reconnecting after its device selection changed.
    pub fn mark_reconnecting(&mut self, path: MeterPath)
        ensures
            match path {
                MeterPath::Microphone => {
                    &&& final(self).microphone_connection == AudioDeviceConnectionState::Reconnecting
                    &&& final(self).microphone@ == reconnecting_text(path)
                    &&& final(self).desktop_connection == old(self).desktop_connection
                    &&& final(self).desktop == old(self).desktop
                },
                MeterPath::Desktop => {
                    &&& final(self).desktop_connection == AudioDeviceConnectionState::Reconnecting
                    &&& final(self).desktop@ == reconnecting_text(path)
                    &&& final(self).microphone_connection == old(self).microphone_connection
                    &&& final(self).microphone == old(self).microphone
                },
            },
    {
        let message = match path {
            MeterPath::Microphone => String::from_str("マイク: 再接続中"),
            MeterPath::Desktop => String::from_str("PC音声: 再接続中"),
        };
        self.set_status(path, AudioDeviceConnectionState::Reconnecting, message);
    }
}

/// What happened on a meter path's device loop.
#[derive(Debug, Clone)]
pub enum MeterEvent {
    /// COM could not be initialized on the meter thread.
    ComInitFailed,
    /// The loop is about to open the selected device again.
    Reconnecting,
    /// Opening or reading the device failed, with the error text.
    Failed(String),
    /// The device with this name is open and being measured.
    Connected(String),
}

/// What the meter loop does after an event.
#[derive(Debug, Clone, Copy, PartialEq, Eq, Structural)]
pub enum MeterNext {
    /// End the meter thread.
    Stop,
    /// Open the selected device.
    Open,
    /// Wait `METER_RETRY_MS` and try again.
    Retry,
    /// Read levels until the selection changes or the meter stops.
    Measure,
}

/// How long a meter path waits before opening a failed device again.
pub const METER_RETRY_MS: u64 = 500;

/// The name of a meter path in status messages.
pub open spec fn meter_prefix(path: MeterPath) -> Seq<char> {
    match path {
        MeterPath::Microphone => "マイク"@,
        MeterPath::Desktop => "PC音声"@,
    }
}

/// The connection state that an event leaves a path in.
pub open spec fn meter_event_state(e: MeterEvent) -> AudioDeviceConnectionState {
    match e {
        MeterEvent::ComInitFailed => AudioDeviceConnectionState::Disconnected,
        MeterEvent::Reconnecting => AudioDeviceConnectionState::Reconnecting,
        MeterEvent::Failed(_) => AudioDeviceConnectionState::Disconnected,
        MeterEvent::Connected(_) => AudioDeviceConnectionState::Connected,
    }
}

/// The status message that an event shows for a path.
pub open spec fn meter_event_text(path: MeterPath, e: MeterEvent) -> Seq<char> {
    match e {
        MeterEvent::ComInitFailed => meter_prefix(path) + ": COM初期化失敗"@,
        MeterEvent::Reconnecting => reconnecting_text(path),
        MeterEvent::Failed(m) => meter_prefix(path) + ": 切断 ("@ + m@ + ")"@,
        MeterEvent::Connected(n) => meter_prefix(path) + ": "@ + n@,
    }
}

/// What the loop does after an event: stop without COM, open the device
/// when reconnecting, retry after a failure, measure once connected.
pub open spec fn meter_next(e: MeterEvent) -> MeterNext {
    match e {
        MeterEvent::ComInitFailed => MeterNext::Stop,
        MeterEvent::Reconnecting => MeterNext::Open,
        MeterEvent::Failed(_) => MeterNext::Retry,
        MeterEvent::Connected(_) => MeterNext::Measure,
    }
}

impl AudioDeviceStatus {
    /// Records an event of a meter path's device loop in that path's status,
    /// leaving the other path as it was, and tells the loop what to do next.
    pub fn record_meter_event(&mut self, path: MeterPath, event: MeterEvent) -> (next: MeterNext)
        ensures
            next == meter_next(event),
            match path {
                MeterPath::Microphone => {
                    &&& final(self).microphone_connection == meter_event_state(event)
                    &&& final(self).microphone@ == meter_event_text(path, event)
                    &&& final(self).desktop_connection == old(self).desktop_connection
                    &&& final(self).desktop == old(self).desktop
                },
                MeterPath::Desktop => {
                    &&& final(self).desktop_connection == meter_event_state(event)
                    &&& final(self).desktop@ == meter_event_text(path, event)
                    &&& final(self).microphone_connection == old(self).microphone_connection
                    &&& final(self).microphone == old(self).microphone
                },
            },
    {
        let mut text: Vec<char> = Vec::new();
        match path {
            MeterPath::Microphone => push_str(&mut text, "マイク"),
            MeterPath::Desktop => push_str(&mut text, "PC音声"),
        }
        let (state, next) = match &event {
            MeterEvent::ComInitFailed => {
                push_str(&mut text, ": COM初期化失敗");
                (AudioDeviceConnectionState::Disconnected, MeterNext::Stop)
            },
            MeterEvent::Reconnecting => {
                text = Vec::new();
                match path {
                    MeterPath::Microphone => push_str(&mut text, "マイク: 再接続中"),
                    MeterPath::Desktop => push_str(&mut text, "PC音声: 再接続中"),
                }
                (AudioDeviceConnectionState::Reconnecting, MeterNext::Open)
            },
            MeterEvent::Failed(m) => {
                push_str(&mut text, ": 切断 (");
                push_str(&mut text, m.as_str());
                push_str(&mut text, ")");
                (AudioDeviceConnectionState::Disconnected, MeterNext::Retry)
            },
            MeterEvent::Connected(n) => {
                push_str(&mut text, ": ");
                push_str(&mut text, n.as_str());
                (AudioDeviceConnectionState::Connected, MeterNext::Measure)
            },
        };
        self.set_status(path, state, string_from_chars(text.as_slice()));
        next
    }
}

// ---------------------------------------------------------------------------
// Channels, meters, errors and recording files
// ---------------------------------------------------------------------------

/// Identifies a mixer channel.
pub type AudioChannelId = u64;

/// What a mixer channel carries.
#[derive(Debug, Clone, Copy, PartialEq, Eq, Structural)]
pub enum AudioChannelKind {
    Desktop,
    Microphone,
    Custom,
    Application,
}

/// Why an audio operation failed.
#[derive(Debug, Clone)]
pub enum AudioError {
    UnsupportedPlatform,
    Backend(String),
}

/// The message shown for each audio error.
pub open spec fn audio_error_text(e: AudioError) -> Seq<char> {
    match e {
        AudioError::UnsupportedPlatform => "Windows以外ではWASAPIを利用できません"@,
        AudioError::Backend(m) => "WASAPIエラー: "@ + m@,
    }
}

impl AudioError {
    /// The message shown to the user for this error.
    pub fn message(&self) -> (m: String)
        ensures
            m@ == audio_error_text(*self),
    {
        match self {
            AudioError::UnsupportedPlatform => String::from_str("Windows以外ではWASAPIを利用できません"),
            AudioError::Backend(message) => {
                let mut d: Vec<char> = Vec::new();
                push_str(&mut d, "WASAPIエラー: ");
                push_str(&mut d, message.as_str());
                string_from_chars(d.as_slice())
            },
        }
    }
}

/// Which meter is being driven.
#[derive(Debug, Clone, Copy, PartialEq, Eq, Structural)]
pub enum AudioMeterTarget {
    Microphone,
    Desktop,
}

/// How a meter obtains its level.
#[derive(Debug, Clone, Copy, PartialEq, Eq, Structural)]
pub enum AudioMeterStrategy {
    ActiveCapture,
    EndpointPeak,
}

/// The microphone meter runs its own capture stream, since some endpoints
/// report no peak until one is active; the desktop meter reads the endpoint peak.
pub fn meter_strategy_for(target: AudioMeterTarget) -> (s: AudioMeterStrategy)
    ensures
        s == match target {
            AudioMeterTarget::Microphone => AudioMeterStrategy::ActiveCapture,
            AudioMeterTarget::Desktop => AudioMeterStrategy::EndpointPeak,
        },
{
    match target {
        AudioMeterTarget::Microphone => AudioMeterStrategy::ActiveCapture,
        AudioMeterTarget::Desktop => AudioMeterStrategy::EndpointPeak,
    }
}

/// A channel streamed to the encoder over a local UDP port.
#[derive(Debug, Clone)]
pub struct LiveAudioInput {
    pub id: AudioChannelId,
    pub name: String,
    pub port: u16,
}

/// Where one application channel is recorded.
#[derive(Debug, Clone)]
pub struct ApplicationRecordingPath {
    pub channel_id: AudioChannelId,
    pub process_id: u32,
    pub path: String,
}

/// Where the microphone, desktop and application tracks are recorded.
#[derive(Debug, Clone)]
pub struct AudioRecordingPaths {
    pub microphone: String,
    pub desktop: String,
    pub applications: Vec<ApplicationRecordingPath>,
}

} // verus!
