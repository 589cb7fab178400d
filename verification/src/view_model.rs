//! The state of the main screen: session preset, live flag and edit markers.
use vstd::prelude::*;
use crate::session::{EditMarker, MarkerKind, SessionConfig, StreamPreset};

verus! {

/// What the main screen shows about the current session.
#[derive(Debug)]
pub struct StreamViewModel {
    pub session: SessionConfig,
    pub is_live: bool,
    pub has_finished_session: bool,
    pub markers: Vec<EditMarker>,
}

/// A finished session that is no longer live can be handed to the editor.
pub open spec fn can_send(vm: StreamViewModel) -> bool {
    !vm.is_live && vm.has_finished_session
}

impl Default for StreamViewModel {
    /// The game preset, not live, nothing finished and no marker.
    fn default() -> (vm: Self)
        ensures
            vm.session.preset == StreamPreset::Game,
            !vm.is_live,
            !vm.has_finished_session,
            vm.markers@.len() == 0,
    {
        StreamViewModel {
            session: SessionConfig::default(),
            is_live: false,
            has_finished_session: false,
            markers: Vec::new(),
        }
    }
}

impl StreamViewModel {
    /// Goes live; the session is no longer finished.
    pub fn start(&mut self)
        ensures
            final(self).is_live,
            !final(self).has_finished_session,
            final(self).session == old(self).session,
            final(self).markers@ == old(self).markers@,
            !can_send(*final(self)),
    {
        self.is_live = true;
        self.has_finished_session = false;
    }

    /// Stops being live; the session is finished.
    pub fn stop(&mut self)
        ensures
            !final(self).is_live,
            final(self).has_finished_session,
            final(self).session == old(self).session,
            final(self).markers@ == old(self).markers@,
            can_send(*final(self)),
    {
        self.is_live = false;
        self.has_finished_session = true;
    }

    /// Whether the finished session can be handed to the editor.
    pub fn can_send_to_aviutl2(&self) -> (b: bool)
        ensures
            b == can_send(*self),
    {
        !self.is_live && self.has_finished_session
    }

    /// Appends a marker at `time_ms`.
    pub fn add_marker(&mut self, time_ms: u64, kind: MarkerKind, label: &str)
        ensures
            final(self).markers@.len() == old(self).markers@.len() + 1,
            final(self).markers@.drop_last() == old(self).markers@,
            final(self).markers@.last().time_ms == time_ms,
            final(self).markers@.last().kind == kind,
            final(self).markers@.last().label@ == label@,
            final(self).session == old(self).session,
            final(self).is_live == old(self).is_live,
            final(self).has_finished_session == old(self).has_finished_session,
    {
        self.markers.push(EditMarker::new(time_ms, kind, label));
        assert(self.markers@.drop_last() =~= old(self).markers@);
    }

    /// Chooses the preset of the session.
    pub fn set_preset(&mut self, preset: StreamPreset)
        ensures
            final(self).session.preset == preset,
            final(self).is_live == old(self).is_live,
            final(self).has_finished_session == old(self).has_finished_session,
            final(self).markers@ == old(self).markers@,
    {
        self.session.preset = preset;
    }
}

} // verus!
