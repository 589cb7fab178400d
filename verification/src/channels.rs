//! The channel list of the audio mixer: which channels exist, under which
//! ids, and how each is routed. A channel's audio state (its gain and its
//! meter level) is carried as a payload `A` that the list stores and hands
//! back but never reads.
use vstd::prelude::*;
use crate::audio::{source_is_discord, AudioChannelId, AudioChannelKind, ApplicationAudioSource};
use crate::text::{chars_of, decimal, decimal_chars, push_chars, push_str, string_from_chars, trim, trim_chars};

verus! {

/// The id of the built-in desktop-audio channel.
pub const DESKTOP_CHANNEL_ID: u64 = 1;

/// The id of the built-in microphone channel.
pub const MICROPHONE_CHANNEL_ID: u64 = 2;

/// The id that the first added channel gets.
pub const FIRST_ADDED_CHANNEL_ID: u64 = 100;

/// One mixer channel and its routing.
#[derive(Debug, Clone)]
pub struct Channel<A> {
    pub id: AudioChannelId,
    pub name: String,
    pub kind: AudioChannelKind,
    pub muted: bool,
    pub enabled: bool,
    pub record_individual: bool,
    pub include_in_stream_mix: bool,
    pub source_id: Option<String>,
    pub process_id: Option<u32>,
    /// The channel's audio state, which the list does not interpret.
    pub audio: A,
}

/// `id` is a built-in channel, which cannot be removed.
pub open spec fn is_builtin_channel(id: AudioChannelId) -> bool {
    id == DESKTOP_CHANNEL_ID || id == MICROPHONE_CHANNEL_ID
}

/// Some channel of `s` has the id `id`.
pub open spec fn has_channel<A>(s: Seq<Channel<A>>, id: AudioChannelId) -> bool {
    exists|i: int| 0 <= i < s.len() && (#[trigger] s[i]).id == id
}

/// The position of the channel with id `id` in `s`, when there is one.
pub open spec fn channel_index<A>(s: Seq<Channel<A>>, id: AudioChannelId) -> int {
    choose|i: int| 0 <= i < s.len() && (#[trigger] s[i]).id == id
}

/// No two channels of `s` share an id.
pub open spec fn ids_unique<A>(s: Seq<Channel<A>>) -> bool {
    forall|i: int, j: int| 0 <= i < j < s.len() ==> (#[trigger] s[i]).id != (#[trigger] s[j]).id
}

/// `s` without its channels whose id is `id`, the others in their order.
pub open spec fn without_channel<A>(s: Seq<Channel<A>>, id: AudioChannelId) -> Seq<Channel<A>>
    decreases s.len(),
{
    if s.len() == 0 {
        s
    } else if s.last().id == id {
        without_channel(s.drop_last(), id)
    } else {
        without_channel(s.drop_last(), id).push(s.last())
    }
}

/// The name of a channel recording an application: Discord by that name,
/// other applications by their display name, or their process name when the
/// display name is blank.
pub open spec fn application_channel_name(s: ApplicationAudioSource) -> Seq<char> {
    if source_is_discord(s) {
        "Discord"@
    } else if trim(s.display_name@).len() == 0 {
        s.process_name@
    } else {
        s.display_name@
    }
}

/// A channel as added, fresh: enabled, unmuted, routed to the stream mix.
pub open spec fn fresh_channel<A>(c: Channel<A>, kind: AudioChannelKind, record_individual: bool, audio: A) -> bool {
    &&& c.id == 0
    &&& c.kind == kind
    &&& !c.muted
    &&& c.enabled
    &&& c.record_individual == record_individual
    &&& c.include_in_stream_mix
    &&& c.audio == audio
}

impl<A: Copy> Channel<A> {
    /// A user-added channel named `name`: not recorded as a track of its own.
    pub fn custom(name: &str, audio: A) -> (c: Self)
        ensures
            fresh_channel(c, AudioChannelKind::Custom, false, audio),
            c.name@ == name@,
            c.source_id is None,
            c.process_id is None,
    {
        Channel {
            id: 0,
            name: String::from_str(name),
            kind: AudioChannelKind::Custom,
            muted: false,
            enabled: true,
            record_individual: false,
            include_in_stream_mix: true,
            source_id: None,
            process_id: None,
            audio,
        }
    }

    /// A channel that records one application by its capture PID, as a track
    /// of its own.
    pub fn application(source: &ApplicationAudioSource, audio: A) -> (c: Self)
        ensures
            fresh_channel(c, AudioChannelKind::Application, true, audio),
            c.name@ == application_channel_name(*source),
            c.source_id matches Some(s) && s@ == "application:pid:"@ + decimal(
                source.capture_process_id as nat,
            ),
            c.process_id == Some(source.capture_process_id),
    {
        let name = if source.is_discord() {
            String::from_str("Discord")
        } else {
            let d = chars_of(source.display_name.as_str());
            let dt = trim_chars(d.as_slice());
            if dt.len() == 0 {
                source.process_name.clone()
            } else {
                source.display_name.clone()
            }
        };
        let mut sid: Vec<char> = Vec::new();
        push_str(&mut sid, "application:pid:");
        let digits = decimal_chars(source.capture_process_id as u64);
        push_chars(&mut sid, digits.as_slice());
        Channel {
            id: 0,
            name,
            kind: AudioChannelKind::Application,
            muted: false,
            enabled: true,
            record_individual: true,
            include_in_stream_mix: true,
            source_id: Some(string_from_chars(sid.as_slice())),
            process_id: Some(source.capture_process_id),
            audio,
        }
    }
}

fn copy_text(s: &Option<String>) -> (r: Option<String>)
    ensures
        r == *s,
{
    match s {
        Some(t) => Some(t.clone()),
        None => None,
    }
}

fn copy_channel<A: Copy>(c: &Channel<A>) -> (r: Channel<A>)
    ensures
        r == *c,
{
    Channel {
        id: c.id,
        name: c.name.clone(),
        kind: c.kind,
        muted: c.muted,
        enabled: c.enabled,
        record_individual: c.record_individual,
        include_in_stream_mix: c.include_in_stream_mix,
        source_id: copy_text(&c.source_id),
        process_id: c.process_id,
        audio: c.audio,
    }
}

/// The channels of the mixer and the id that the next added channel gets.
#[derive(Debug)]
pub struct ChannelList<A> {
    channels: Vec<Channel<A>>,
    next_id: AudioChannelId,
}

impl<A> ChannelList<A> {
    /// The channels, in the order they were added.
    pub closed spec fn entries(&self) -> Seq<Channel<A>> {
        self.channels@
    }

    /// The id that the next added channel gets.
    pub closed spec fn next_channel_id(&self) -> AudioChannelId {
        self.next_id
    }

    /// Ids are unique and below the next id, and both built-in channels are there.
    pub open spec fn wf(&self) -> bool {
        &&& ids_unique(self.entries())
        &&& forall|i: int| 0 <= i < self.entries().len() ==> (#[trigger] self.entries()[i]).id
            < self.next_channel_id()
        &&& has_channel(self.entries(), DESKTOP_CHANNEL_ID)
        &&& has_channel(self.entries(), MICROPHONE_CHANNEL_ID)
    }
}

/// The built-in desktop-audio channel.
pub open spec fn desktop_channel<A>(c: Channel<A>, audio: A) -> bool {
    &&& c.id == DESKTOP_CHANNEL_ID
    &&& c.name@ == "PC音声"@
    &&& c.source_id matches Some(s) && s@ == "desktop"@
    &&& c.process_id is None
    &&& fresh_builtin(c, AudioChannelKind::Desktop, audio)
}

/// The built-in microphone channel.
pub open spec fn microphone_channel<A>(c: Channel<A>, audio: A) -> bool {
    &&& c.id == MICROPHONE_CHANNEL_ID
    &&& c.name@ == "マイク"@
    &&& c.source_id matches Some(s) && s@ == "microphone"@
    &&& c.process_id is None
    &&& fresh_builtin(c, AudioChannelKind::Microphone, audio)
}

/// A built-in channel as it starts: enabled, unmuted, recorded on its own
/// and routed to the stream mix.
pub open spec fn fresh_builtin<A>(c: Channel<A>, kind: AudioChannelKind, audio: A) -> bool {
    &&& c.kind == kind
    &&& !c.muted
    &&& c.enabled
    &&& c.record_individual
    &&& c.include_in_stream_mix
    &&& c.audio == audio
}

/// The channel with `id` removed from `s` and the others kept.
proof fn lemma_without_channel<A>(s: Seq<Channel<A>>, id: AudioChannelId)
    ensures
        forall|j: AudioChannelId| #[trigger] has_channel(without_channel(s, id), j) ==> has_channel(s, j)
            && j != id,
        forall|j: AudioChannelId| j != id && has_channel(s, j) ==> #[trigger] has_channel(
            without_channel(s, id),
            j,
        ),
        ids_unique(s) ==> ids_unique(without_channel(s, id)),
        without_channel(s, id).len() <= s.len(),
        without_channel(s, id).len() == s.len() <==> !has_channel(s, id),
        !has_channel(s, id) ==> without_channel(s, id) == s,
    decreases s.len(),
{
    if s.len() > 0 {
        let p = s.drop_last();
        let x = s.last();
        lemma_without_channel(p, id);
        let w = without_channel(p, id);
        assert(s =~= p.push(x));
        assert forall|j: AudioChannelId| #[trigger] has_channel(without_channel(s, id), j) implies has_channel(s, j) && j != id by {
            let r = without_channel(s, id);
            let k = choose|k: int| 0 <= k < r.len() && (#[trigger] r[k]).id == j;
            if x.id == id {
                assert(has_channel(w, j));
                let m = choose|m: int| 0 <= m < p.len() && (#[trigger] p[m]).id == j;
                assert(s[m] == p[m]);
            } else if k == w.len() {
                assert(s[s.len() - 1] == x);
            } else {
                assert(r[k] == w[k]);
                assert(has_channel(w, j));
                let m = choose|m: int| 0 <= m < p.len() && (#[trigger] p[m]).id == j;
                assert(s[m] == p[m]);
            }
        }
        assert forall|j: AudioChannelId| j != id && has_channel(s, j) implies #[trigger] has_channel(without_channel(s, id), j) by {
            let r = without_channel(s, id);
            let m = choose|m: int| 0 <= m < s.len() && (#[trigger] s[m]).id == j;
            if m == s.len() - 1 {
                assert(r[r.len() - 1] == x);
            } else {
                assert(p[m] == s[m]);
                assert(has_channel(w, j));
                let k = choose|k: int| 0 <= k < w.len() && (#[trigger] w[k]).id == j;
                if x.id != id {
                    assert(r[k] == w[k]);
                }
            }
        }
        if ids_unique(s) {
            assert(ids_unique(p)) by {
                assert forall|i: int, j: int| 0 <= i < j < p.len() implies (#[trigger] p[i]).id != (#[trigger] p[j]).id by {
                    assert(p[i] == s[i] && p[j] == s[j]);
                }
            }
            if x.id != id {
                let r = without_channel(s, id);
                assert(!has_channel(w, x.id)) by {
                    if has_channel(w, x.id) {
                        let m = choose|m: int| 0 <= m < p.len() && (#[trigger] p[m]).id == x.id;
                        assert(s[m].id == s[s.len() - 1].id);
                    }
                }
                assert forall|i: int, j: int| 0 <= i < j < r.len() implies (#[trigger] r[i]).id != (#[trigger] r[j]).id by {
                    if j == w.len() {
                        assert(r[i] == w[i]);
                        if w[i].id == x.id {
                            assert(has_channel(w, x.id));
                        }
                    } else {
                        assert(r[i] == w[i] && r[j] == w[j]);
                    }
                }
            }
        }
        if !has_channel(s, id) {
            assert(!has_channel(p, id)) by {
                if has_channel(p, id) {
                    let m = choose|m: int| 0 <= m < p.len() && (#[trigger] p[m]).id == id;
                    assert(s[m] == p[m]);
                }
            }
        }
        if has_channel(s, id) && x.id != id {
            let m = choose|m: int| 0 <= m < s.len() && (#[trigger] s[m]).id == id;
            assert(p[m] == s[m]);
        }
        if x.id == id {
            assert(s[s.len() - 1] == x);
        }
    }
}

impl<A: Copy> ChannelList<A> {
    /// The desktop-audio channel and the microphone channel, with the given
    /// audio state; added channels will be numbered from 100.
    pub fn with_builtins(desktop: A, microphone: A) -> (l: Self)
        ensures
            l.wf(),
            l.entries().len() == 2,
            desktop_channel(l.entries()[0], desktop),
            microphone_channel(l.entries()[1], microphone),
            l.next_channel_id() == FIRST_ADDED_CHANNEL_ID,
    {
        let mut channels: Vec<Channel<A>> = Vec::new();
        channels.push(Channel {
            id: DESKTOP_CHANNEL_ID,
            name: String::from_str("PC音声"),
            kind: AudioChannelKind::Desktop,
            muted: false,
            enabled: true,
            record_individual: true,
            include_in_stream_mix: true,
            source_id: Some(String::from_str("desktop")),
            process_id: None,
            audio: desktop,
        });
        channels.push(Channel {
            id: MICROPHONE_CHANNEL_ID,
            name: String::from_str("マイク"),
            kind: AudioChannelKind::Microphone,
            muted: false,
            enabled: true,
            record_individual: true,
            include_in_stream_mix: true,
            source_id: Some(String::from_str("microphone")),
            process_id: None,
            audio: microphone,
        });
        let l = ChannelList { channels, next_id: FIRST_ADDED_CHANNEL_ID };
        assert(l.entries()[0].id == DESKTOP_CHANNEL_ID);
        assert(l.entries()[1].id == MICROPHONE_CHANNEL_ID);
        l
    }

    /// The id that the next added channel gets.
    pub fn next_id(&self) -> (n: AudioChannelId)
        ensures
            n == self.next_channel_id(),
    {
        self.next_id
    }

    /// A copy of every channel, in order.
    pub fn channels(&self) -> (v: Vec<Channel<A>>)
        ensures
            v@ == self.entries(),
    {
        let mut v: Vec<Channel<A>> = Vec::new();
        let mut i: usize = 0;
        while i < self.channels.len()
            invariant
                i <= self.channels.len(),
                v@ == self.channels@.take(i as int),
            decreases self.channels.len() - i,
        {
            v.push(copy_channel(&self.channels[i]));
            i = i + 1;
            assert(v@ =~= self.channels@.take(i as int));
        }
        assert(self.channels@.take(i as int) =~= self.channels@);
        v
    }

    fn position(&self, id: AudioChannelId) -> (p: Option<usize>)
        requires
            self.wf(),
        ensures
            match p {
                Some(i) => has_channel(self.entries(), id) && i == channel_index(self.entries(), id),
                None => !has_channel(self.entries(), id),
            },
    {
        let mut i: usize = 0;
        while i < self.channels.len()
            invariant
                i <= self.channels.len(),
                self.wf(),
                forall|k: int| 0 <= k < i ==> (#[trigger] self.channels@[k]).id != id,
            decreases self.channels.len() - i,
        {
            if self.channels[i].id == id {
                proof {
                    let s = self.entries();
                    assert(s[i as int].id == id);
                    let c = channel_index(s, id);
                    assert(0 <= c < s.len() && s[c].id == id);
                    if c != i {
                        if c < i {
                            assert(s[c].id != s[i as int].id);
                        } else {
                            assert(s[i as int].id != s[c].id);
                        }
                    }
                }
                return Some(i);
            }
            i = i + 1;
        }
        None
    }

    /// The channel with the given id, if there is one.
    pub fn channel(&self, id: AudioChannelId) -> (c: Option<Channel<A>>)
        requires
            self.wf(),
        ensures
            c == if has_channel(self.entries(), id) {
                Some(self.entries()[channel_index(self.entries(), id)])
            } else {
                None
            },
    {
        match self.position(id) {
            Some(i) => Some(copy_channel(&self.channels[i])),
            None => None,
        }
    }

    /// Adds `channel` under the next id, which it returns.
    pub fn add_channel(&mut self, channel: Channel<A>) -> (id: AudioChannelId)
        requires
            old(self).wf(),
            old(self).next_channel_id() < u64::MAX,
        ensures
            final(self).wf(),
            id == old(self).next_channel_id(),
            !has_channel(old(self).entries(), id),
            final(self).next_channel_id() == id + 1,
            final(self).entries() == old(self).entries().push((Channel { id, ..channel })),
    {
        let id = self.next_id;
        self.next_id = self.next_id + 1;
        let mut channel = channel;
        channel.id = id;
        let ghost before = self.channels@;
        self.channels.push(channel);
        proof {
            let s = self.channels@;
            assert(s.drop_last() == before);
            assert forall|i: int, j: int| 0 <= i < j < s.len() implies (#[trigger] s[i]).id != (#[trigger] s[j]).id by {
                if j == s.len() - 1 {
                    assert(s[i] == before[i]);
                } else {
                    assert(s[i] == before[i] && s[j] == before[j]);
                }
            }
            assert forall|i: int| 0 <= i < s.len() implies (#[trigger] s[i]).id < self.next_id by {
                if i < before.len() {
                    assert(s[i] == before[i]);
                }
            }
            let d = choose|k: int| 0 <= k < before.len() && (#[trigger] before[k]).id == DESKTOP_CHANNEL_ID;
            assert(s[d] == before[d]);
            let m = choose|k: int| 0 <= k < before.len() && (#[trigger] before[k]).id == MICROPHONE_CHANNEL_ID;
            assert(s[m] == before[m]);
            if has_channel(before, id) {
                let k = choose|k: int| 0 <= k < before.len() && (#[trigger] before[k]).id == id;
                assert(before[k].id < id);
            }
        }
        id
    }

    /// Removes the channel with `id`; the built-in channels stay. Tells
    /// whether a channel was removed.
    pub fn remove_channel(&mut self, id: AudioChannelId) -> (removed: bool)
        requires
            old(self).wf(),
        ensures
            final(self).wf(),
            removed == (!is_builtin_channel(id) && has_channel(old(self).entries(), id)),
            final(self).entries() == if is_builtin_channel(id) {
                old(self).entries()
            } else {
                without_channel(old(self).entries(), id)
            },
            final(self).next_channel_id() == old(self).next_channel_id(),
    {
        if id == DESKTOP_CHANNEL_ID || id == MICROPHONE_CHANNEL_ID {
            return false;
        }
        let ghost s = self.channels@;
        proof {
            lemma_without_channel(s, id);
        }
        let before = self.channels.len();
        let mut kept: Vec<Channel<A>> = Vec::new();
        let mut i: usize = 0;
        while i < self.channels.len()
            invariant
                i <= self.channels.len(),
                self.channels@ == s,
                kept@ == without_channel(s.take(i as int), id),
            decreases self.channels.len() - i,
        {
            let c = copy_channel(&self.channels[i]);
            proof {
                assert(s.take(i + 1).drop_last() =~= s.take(i as int));
                assert(s.take(i + 1).last() == s[i as int]);
            }
            if c.id != id {
                kept.push(c);
            }
            i = i + 1;
        }
        assert(s.take(i as int) =~= s);
        self.channels = kept;
        proof {
            let w = self.channels@;
            assert forall|k: int| 0 <= k < w.len() implies (#[trigger] w[k]).id < self.next_id by {
                assert(has_channel(w, w[k].id));
                let m = choose|m: int| 0 <= m < s.len() && (#[trigger] s[m]).id == w[k].id;
                assert(s[m].id < self.next_id);
            }
        }
        self.channels.len() != before
    }

    /// Replaces the channel at position `i` by `c`, which keeps its id.
    fn replace_at(&mut self, i: usize, c: Channel<A>)
        requires
            old(self).wf(),
            i < old(self).entries().len(),
            c.id == old(self).entries()[i as int].id,
        ensures
            final(self).wf(),
            final(self).entries() == old(self).entries().update(i as int, c),
            final(self).next_channel_id() == old(self).next_channel_id(),
    {
        let ghost s = self.channels@;
        self.channels.set(i, c);
        proof {
            let t = self.channels@;
            assert forall|a: int, b: int| 0 <= a < b < t.len() implies (#[trigger] t[a]).id != (#[trigger] t[b]).id by {
                assert(t[a].id == s[a].id && t[b].id == s[b].id);
            }
            assert forall|k: int| 0 <= k < t.len() implies (#[trigger] t[k]).id < self.next_id by {
                assert(t[k].id == s[k].id);
            }
            let d = choose|k: int| 0 <= k < s.len() && (#[trigger] s[k]).id == DESKTOP_CHANNEL_ID;
            assert(t[d].id == s[d].id);
            let m = choose|k: int| 0 <= k < s.len() && (#[trigger] s[k]).id == MICROPHONE_CHANNEL_ID;
            assert(t[m].id == s[m].id);
        }
    }

    /// Mutes or unmutes the channel with `id`; tells whether there was one.
    pub fn set_muted(&mut self, id: AudioChannelId, muted: bool) -> (found: bool)
        requires
            old(self).wf(),
        ensures
            final(self).wf(),
            found == has_channel(old(self).entries(), id),
            final(self).entries() == if found {
                let i = channel_index(old(self).entries(), id);
                old(self).entries().update(i, (Channel { muted, ..old(self).entries()[i] }))
            } else {
                old(self).entries()
            },
            final(self).next_channel_id() == old(self).next_channel_id(),
    {
        match self.position(id) {
            Some(i) => {
                let mut c = copy_channel(&self.channels[i]);
                c.muted = muted;
                self.replace_at(i, c);
                true
            },
            None => false,
        }
    }

    /// Turns the channel with `id` on or off; tells whether there was one.
    pub fn set_enabled(&mut self, id: AudioChannelId, enabled: bool) -> (found: bool)
        requires
            old(self).wf(),
        ensures
            final(self).wf(),
            found == has_channel(old(self).entries(), id),
            final(self).entries() == if found {
                let i = channel_index(old(self).entries(), id);
                old(self).entries().update(i, (Channel { enabled, ..old(self).entries()[i] }))
            } else {
                old(self).entries()
            },
            final(self).next_channel_id() == old(self).next_channel_id(),
    {
        match self.position(id) {
            Some(i) => {
                let mut c = copy_channel(&self.channels[i]);
                c.enabled = enabled;
                self.replace_at(i, c);
                true
            },
            None => false,
        }
    }

    /// Routes the channel with `id` into the stream mix or out of it; tells
    /// whether there was one.
    pub fn set_include_in_stream_mix(&mut self, id: AudioChannelId, value: bool) -> (found: bool)
        requires
            old(self).wf(),
        ensures
            final(self).wf(),
            found == has_channel(old(self).entries(), id),
            final(self).entries() == if found {
                let i = channel_index(old(self).entries(), id);
                old(self).entries().update(
                    i,
                    (Channel { include_in_stream_mix: value, ..old(self).entries()[i] }),
                )
            } else {
                old(self).entries()
            },
            final(self).next_channel_id() == old(self).next_channel_id(),
    {
        match self.position(id) {
            Some(i) => {
                let mut c = copy_channel(&self.channels[i]);
                c.include_in_stream_mix = value;
                self.replace_at(i, c);
                true
            },
            None => false,
        }
    }

    /// Decides whether the channel with `id` keeps a track file of its own;
    /// tells whether there was one.
    pub fn set_record_individual(&mut self, id: AudioChannelId, value: bool) -> (found: bool)
        requires
            old(self).wf(),
        ensures
            final(self).wf(),
            found == has_channel(old(self).entries(), id),
            final(self).entries() == if found {
                let i = channel_index(old(self).entries(), id);
                old(self).entries().update(
                    i,
                    (Channel { record_individual: value, ..old(self).entries()[i] }),
                )
            } else {
                old(self).entries()
            },
            final(self).next_channel_id() == old(self).next_channel_id(),
    {
        match self.position(id) {
            Some(i) => {
                let mut c = copy_channel(&self.channels[i]);
                c.record_individual = value;
                self.replace_at(i, c);
                true
            },
            None => false,
        }
    }

    /// Replaces the audio state of the channel with `id`; tells whether
    /// there was one.
    pub fn set_audio(&mut self, id: AudioChannelId, audio: A) -> (found: bool)
        requires
            old(self).wf(),
        ensures
            final(self).wf(),
            found == has_channel(old(self).entries(), id),
            final(self).entries() == if found {
                let i = channel_index(old(self).entries(), id);
                old(self).entries().update(i, (Channel { audio, ..old(self).entries()[i] }))
            } else {
                old(self).entries()
            },
            final(self).next_channel_id() == old(self).next_channel_id(),
    {
        match self.position(id) {
            Some(i) => {
                let mut c = copy_channel(&self.channels[i]);
                c.audio = audio;
                self.replace_at(i, c);
                true
            },
            None => false,
        }
    }
}

// ---------------------------------------------------------------------------
// The tracks of a finished recording
// ---------------------------------------------------------------------------

/// An application track of a recording and the channel it was started with.
#[derive(Debug, Clone)]
pub struct ApplicationTrack<A> {
    pub channel_id: AudioChannelId,
    pub process_id: u32,
    pub path: String,
    pub start_channel: Channel<A>,
}

/// The channel that governs an application track when the recording ends:
/// the mixer's channel with the track's id, or the channel the track was
/// started with when that channel has been removed since.
pub open spec fn current_or_start<A>(s: Seq<Channel<A>>, t: ApplicationTrack<A>) -> Channel<A> {
    if has_channel(s, t.channel_id) {
        s[channel_index(s, t.channel_id)]
    } else {
        t.start_channel
    }
}

/// The file of a built-in channel, when that channel is in `s` and does not
/// keep a track file of its own.
pub open spec fn unwanted_builtin_file<A>(s: Seq<Channel<A>>, id: AudioChannelId, path: Seq<char>) -> Seq<Seq<char>> {
    if has_channel(s, id) && !s[channel_index(s, id)].record_individual {
        seq![path]
    } else {
        Seq::empty()
    }
}

/// The files of the application tracks whose governing channel does not keep
/// a track file of its own, in track order.
pub open spec fn unwanted_application_files<A>(s: Seq<Channel<A>>, tracks: Seq<ApplicationTrack<A>>) -> Seq<Seq<char>>
    decreases tracks.len(),
{
    if tracks.len() == 0 {
        Seq::empty()
    } else {
        unwanted_application_files(s, tracks.drop_last()) + if current_or_start(s, tracks.last()).record_individual {
            Seq::empty()
        } else {
            seq![tracks.last().path@]
        }
    }
}

/// The track files that a finished recording deletes: the microphone's, the
/// desktop's, then the application tracks', each when its channel does not
/// keep a track file of its own.
pub open spec fn unwanted_track_files<A>(
    s: Seq<Channel<A>>,
    microphone: Seq<char>,
    desktop: Seq<char>,
    tracks: Seq<ApplicationTrack<A>>,
) -> Seq<Seq<char>> {
    unwanted_builtin_file(s, MICROPHONE_CHANNEL_ID, microphone) + unwanted_builtin_file(
        s,
        DESKTOP_CHANNEL_ID,
        desktop,
    ) + unwanted_application_files(s, tracks)
}

impl<A: Copy> ChannelList<A> {
    /// The channel that governs `track` now (see `current_or_start`).
    pub fn current_or_start_channel(&self, track: &ApplicationTrack<A>) -> (c: Channel<A>)
        requires
            self.wf(),
        ensures
            c == current_or_start(self.entries(), *track),
    {
        match self.channel(track.channel_id) {
            Some(c) => c,
            None => copy_channel(&track.start_channel),
        }
    }

    /// The track files to delete once the final video is written (see
    /// `unwanted_track_files`).
    pub fn unwanted_track_files(&self, microphone: &str, desktop: &str, tracks: &[ApplicationTrack<A>]) -> (files: Vec<String>)
        requires
            self.wf(),
        ensures
            files@.map_values(|f: String| f@) == unwanted_track_files(self.entries(), microphone@, desktop@, tracks@),
    {
        let ghost s = self.entries();
        let mut files: Vec<String> = Vec::new();
        match self.channel(MICROPHONE_CHANNEL_ID) {
            Some(c) => {
                if !c.record_individual {
                    files.push(String::from_str(microphone));
                }
            },
            None => {},
        }
        match self.channel(DESKTOP_CHANNEL_ID) {
            Some(c) => {
                if !c.record_individual {
                    files.push(String::from_str(desktop));
                }
            },
            None => {},
        }
        let ghost head = files@.map_values(|f: String| f@);
        assert(head =~= unwanted_builtin_file(s, MICROPHONE_CHANNEL_ID, microphone@) + unwanted_builtin_file(s, DESKTOP_CHANNEL_ID, desktop@));
        let mut i: usize = 0;
        while i < tracks.len()
            invariant
                i <= tracks.len(),
                self.wf(),
                s == self.entries(),
                files@.map_values(|f: String| f@) == head + unwanted_application_files(s, tracks@.take(i as int)),
            decreases tracks.len() - i,
        {
            let c = self.current_or_start_channel(&tracks[i]);
            proof {
                assert(tracks@.take(i + 1).drop_last() =~= tracks@.take(i as int));
                assert(tracks@.take(i + 1).last() == tracks@[i as int]);
            }
            let ghost before = files@;
            let ghost t = tracks@.take(i + 1);
            assert(c == current_or_start(s, t.last()));
            assert(unwanted_application_files(s, t) == unwanted_application_files(s, t.drop_last()) + if current_or_start(s, t.last()).record_individual {
                Seq::empty()
            } else {
                seq![t.last().path@]
            });
            if !c.record_individual {
                files.push(tracks[i].path.clone());
                assert(files@.map_values(|f: String| f@) =~= before.map_values(|f: String| f@).push(tracks@[i as int].path@));
            } else {
                assert(files@ == before);
            }
            assert(files@.map_values(|f: String| f@) =~= head + unwanted_application_files(s, t));
            i = i + 1;
        }
        assert(tracks@.take(tracks.len() as int) =~= tracks@);
        files
    }
}

/// How a built-in track is routed into the final mix: `(enabled, included in
/// the stream mix)` of its channel, or both on when the channel is missing.
pub open spec fn builtin_routing<A>(s: Seq<Channel<A>>, id: AudioChannelId) -> (bool, bool) {
    if has_channel(s, id) {
        (s[channel_index(s, id)].enabled, s[channel_index(s, id)].include_in_stream_mix)
    } else {
        (true, true)
    }
}

/// How an application track is routed into the final mix: by its governing channel.
pub open spec fn application_routing<A>(s: Seq<Channel<A>>, t: ApplicationTrack<A>) -> (bool, bool) {
    (current_or_start(s, t).enabled, current_or_start(s, t).include_in_stream_mix)
}

impl<A: Copy> ChannelList<A> {
    /// The routing `(enabled, included in the stream mix)` of every track of a
    /// finished recording, in mux order: the microphone, the desktop, then
    /// the application tracks. A track goes into the final mix when both are on.
    pub fn final_mix_routing(&self, tracks: &[ApplicationTrack<A>]) -> (r: Vec<(bool, bool)>)
        requires
            self.wf(),
        ensures
            r@.len() == tracks@.len() + 2,
            r@[0] == builtin_routing(self.entries(), MICROPHONE_CHANNEL_ID),
            r@[1] == builtin_routing(self.entries(), DESKTOP_CHANNEL_ID),
            forall|i: int| 0 <= i < tracks@.len() ==> #[trigger] r@[i + 2] == application_routing(self.entries(), tracks@[i]),
    {
        let mut r: Vec<(bool, bool)> = Vec::new();
        let mic = match self.channel(MICROPHONE_CHANNEL_ID) {
            Some(c) => (c.enabled, c.include_in_stream_mix),
            None => (true, true),
        };
        let desk = match self.channel(DESKTOP_CHANNEL_ID) {
            Some(c) => (c.enabled, c.include_in_stream_mix),
            None => (true, true),
        };
        r.push(mic);
        r.push(desk);
        let mut i: usize = 0;
        while i < tracks.len()
            invariant
                i <= tracks.len(),
                self.wf(),
                r@.len() == i + 2,
                r@[0] == builtin_routing(self.entries(), MICROPHONE_CHANNEL_ID),
                r@[1] == builtin_routing(self.entries(), DESKTOP_CHANNEL_ID),
                forall|k: int| 0 <= k < i ==> #[trigger] r@[k + 2] == application_routing(self.entries(), tracks@[k]),
            decreases tracks.len() - i,
        {
            let c = self.current_or_start_channel(&tracks[i]);
            r.push((c.enabled, c.include_in_stream_mix));
            i = i + 1;
        }
        r
    }
}

/// Removing a channel that was just added gives back the list as it was
/// before: the new channel's id was not in use.
pub proof fn lemma_remove_undoes_add<A>(s: Seq<Channel<A>>, c: Channel<A>)
    requires
        !has_channel(s, c.id),
    ensures
        without_channel(s.push(c), c.id) == s,
{
    lemma_without_channel(s, c.id);
    assert(s.push(c).drop_last() =~= s);
}

/// Removing a channel leaves every other channel in the list, and the
/// removed one gone.
pub proof fn lemma_remove_keeps_others<A>(s: Seq<Channel<A>>, id: AudioChannelId, other: AudioChannelId)
    ensures
        !has_channel(without_channel(s, id), id),
        other != id ==> (has_channel(without_channel(s, id), other) == has_channel(s, other)),
{
    lemma_without_channel(s, id);
}

} // verus!
