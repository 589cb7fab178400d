//! Session presets, edit markers, the editor manifest and worker messages.
use vstd::prelude::*;
use crossbeam_channel::{Receiver, Sender};

verus! {

/// Output geometry and frame rate presets.
#[derive(Debug, Clone, Copy, PartialEq, Eq, Structural)]
pub enum StreamPreset {
    Game,
    Work,
    Light,
}

/// `(width, height, fps)` of each preset.
pub open spec fn preset_dimensions(p: StreamPreset) -> (u32, u32, u32) {
    match p {
        StreamPreset::Game => (1920, 1080, 60),
        StreamPreset::Work => (1920, 1080, 30),
        StreamPreset::Light => (1280, 720, 30),
    }
}

impl StreamPreset {
    /// Width, height and frame rate of the preset.
    pub fn dimensions(self) -> (d: (u32, u32, u32))
        ensures
            d == preset_dimensions(self),
    {
        match self {
            StreamPreset::Game => (1920, 1080, 60),
            StreamPreset::Work => (1920, 1080, 30),
            StreamPreset::Light => (1280, 720, 30),
        }
    }
}

/// The preset chosen for a session.
#[derive(Debug, Clone, PartialEq, Eq, Structural)]
pub struct SessionConfig {
    pub preset: StreamPreset,
}

impl Default for SessionConfig {
    /// A session starts with the game preset.
    fn default() -> (c: Self)
        ensures
            c.preset == StreamPreset::Game,
    {
        SessionConfig { preset: StreamPreset::Game }
    }
}

/// What an edit marker asks the editor to do.
#[derive(Debug, Clone, PartialEq, Eq, Structural)]
pub enum MarkerKind {
    Cut,
    Short,
    Chapter,
    Note,
}

/// A timestamped marker placed while recording.
#[derive(Debug, Clone, PartialEq, Eq)]
pub struct EditMarker {
    pub time_ms: u64,
    pub kind: MarkerKind,
    pub label: String,
}

impl EditMarker {
    /// A marker at `time_ms` of the given kind and label.
    pub fn new(time_ms: u64, kind: MarkerKind, label: &str) -> (m: Self)
        ensures
            m.time_ms == time_ms,
            m.kind == kind,
            m.label@ == label@,
    {
        EditMarker { time_ms, kind, label: String::from_str(label) }
    }
}

/// File names of the media that an edit manifest refers to.
#[derive(Debug, Clone)]
pub struct MediaPaths {
    pub video: String,
    pub microphone: String,
    pub desktop_audio: String,
}

impl Default for MediaPaths {
    /// `recording.mp4`, `microphone.wav` and `desktop.wav`.
    fn default() -> (m: Self)
        ensures
            m.video@ == "recording.mp4"@,
            m.microphone@ == "microphone.wav"@,
            m.desktop_audio@ == "desktop.wav"@,
    {
        MediaPaths {
            video: String::from_str("recording.mp4"),
            microphone: String::from_str("microphone.wav"),
            desktop_audio: String::from_str("desktop.wav"),
        }
    }
}

/// The manifest that the editor reads beside a recording.
#[derive(Debug, Clone)]
pub struct EditManifest {
    pub format: String,
    pub version: u32,
    pub session: SessionConfig,
    pub media: MediaPaths,
    pub markers: Vec<EditMarker>,
}

impl EditManifest {
    /// An empty manifest of format `yaoyorozu_stream_edit`, version 1, with the default media names.
    pub fn new(session: SessionConfig) -> (m: Self)
        ensures
            m.format@ == "yaoyorozu_stream_edit"@,
            m.version == 1,
            m.session == session,
            m.media.video@ == "recording.mp4"@,
            m.media.microphone@ == "microphone.wav"@,
            m.media.desktop_audio@ == "desktop.wav"@,
            m.markers@.len() == 0,
    {
        EditManifest {
            format: String::from_str("yaoyorozu_stream_edit"),
            version: 1,
            session,
            media: MediaPaths::default(),
            markers: Vec::new(),
        }
    }
}

/// Commands sent to a background worker.
#[derive(Debug, Clone, PartialEq, Eq, Structural)]
pub enum WorkerCommand {
    Start,
    Stop,
    Shutdown,
}

/// State reported by a background worker.
#[derive(Debug, Clone, PartialEq, Eq)]
pub enum WorkerStatus {
    Idle,
    Starting,
    Running,
    Stopping,
    Failed(String),
}

/// Events reported by a background worker.
#[derive(Debug, Clone, PartialEq, Eq)]
pub enum WorkerEvent {
    Status(WorkerStatus),
    DroppedFrame(u64),
}

#[verifier::external_type_specification]
#[verifier::external_body]
#[verifier::reject_recursive_types(T)]
pub struct ExCommandSender<T>(Sender<T>);

#[verifier::external_type_specification]
#[verifier::external_body]
#[verifier::reject_recursive_types(T)]
pub struct ExCommandReceiver<T>(Receiver<T>);

/// The capacity that a worker command channel was created with.
pub uninterp spec fn command_channel_capacity(tx: Sender<WorkerCommand>) -> nat;

/// Whether a worker command channel holds no message yet.
pub uninterp spec fn command_channel_empty(rx: Receiver<WorkerCommand>) -> bool;

/// Whether a sender and a receiver are the two ends of one channel, so that
/// what is sent on the one arrives at the other.
pub uninterp spec fn command_channel_linked(tx: Sender<WorkerCommand>, rx: Receiver<WorkerCommand>) -> bool;

/// Trusted: calls `crossbeam_channel::bounded`. Its source builds a
/// zero-capacity (rendezvous) channel for `cap == 0` and an array channel of
/// `cap` slots otherwise and returns its two ends; the claim is that the two
/// ends belong to that one channel, that the sender reports that capacity
/// and that the new channel holds no message. The source panics when
/// `cap + 1` has no next power of two that doubles within its index type,
/// which the bound of `requires` rules out on 32- and 64-bit targets.
#[verifier::external_body]
fn bounded_command_channel(cap: usize) -> (ch: (Sender<WorkerCommand>, Receiver<WorkerCommand>))
    requires
        cap <= 0x3fff_ffff,
    ensures
        command_channel_capacity(ch.0) == cap,
        command_channel_empty(ch.1),
        command_channel_linked(ch.0, ch.1),
{
    crossbeam_channel::bounded(cap)
}

/// A worker command channel whose capacity is `capacity`, raised to at least one.
pub fn bounded_worker_channel(capacity: usize) -> (ch: (
    Sender<WorkerCommand>,
    Receiver<WorkerCommand>,
))
    requires
        capacity <= 0x3fff_ffff,
    ensures
        command_channel_capacity(ch.0) == if capacity == 0 {
            1
        } else {
            capacity as nat
        },
        command_channel_empty(ch.1),
        command_channel_linked(ch.0, ch.1),
{
    let cap = if capacity == 0 {
        1
    } else {
        capacity
    };
    bounded_command_channel(cap)
}

} // verus!
