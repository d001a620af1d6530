//! The audio thread's transport: whether the sequencer plays, and where.

use crate::messaging::command::Command;
use vstd::prelude::*;

verus! {

/// Transport state kept by the audio thread across callbacks.
#[derive(Debug, Clone, Copy, PartialEq, Eq)]
pub struct TransportState {
    /// The sequencer is playing.
    pub is_playing: bool,
    /// Playback position, in samples.
    pub position: u64,
}

/// The state after `cmd`, and whether the metronome scheduler must forget
/// its last click: starting keeps the position, stopping rewinds to the
/// start, and a jump moves the position; other commands leave the transport
/// alone.
pub open spec fn spec_apply(s: TransportState, cmd: Command) -> (TransportState, bool) {
    match cmd {
        Command::SetTransportPlaying(playing) => {
            if playing && !s.is_playing {
                (TransportState { is_playing: true, position: s.position }, false)
            } else if !playing && s.is_playing {
                (TransportState { is_playing: false, position: 0 }, true)
            } else {
                (s, false)
            }
        },
        Command::SetTransportPosition(p) => (TransportState { is_playing: s.is_playing, position: p }, true),
        _ => (s, false),
    }
}

/// The state after `frames` samples were rendered: the position moves only
/// while playing.
pub open spec fn spec_advance(s: TransportState, frames: u64) -> TransportState {
    if s.is_playing {
        TransportState { is_playing: true, position: (s.position + frames) as u64 }
    } else {
        s
    }
}

impl TransportState {
    /// Stopped at the start.
    pub fn new() -> (r: Self)
        ensures
            !r.is_playing,
            r.position == 0,
    {
        TransportState { is_playing: false, position: 0 }
    }

    /// Applies a command read from a command channel; returns whether the
    /// metronome scheduler must be reset.
    pub fn apply_command(&mut self, cmd: &Command) -> (reset_metronome: bool)
        ensures
            (*final(self), reset_metronome) == spec_apply(*old(self), *cmd),
    {
        match cmd {
            Command::SetTransportPlaying(playing) => {
                if *playing && !self.is_playing {
                    self.is_playing = true;
                    false
                } else if !*playing && self.is_playing {
                    self.is_playing = false;
                    self.position = 0;
                    true
                } else {
                    false
                }
            },
            Command::SetTransportPosition(p) => {
                self.position = *p;
                true
            },
            _ => false,
        }
    }

    /// Moves the position past `frames` rendered samples, while playing.
    pub fn advance(&mut self, frames: u64)
        requires
            old(self).is_playing ==> old(self).position + frames <= u64::MAX,
        ensures
            *final(self) == spec_advance(*old(self), frames),
    {
        if self.is_playing {
            self.position = self.position + frames;
        }
    }
}

/// Stopping halts, and rewinds a playing transport: after a stop command the
/// transport is stopped, and if it was playing it stands at position 0. (A
/// transport that already stood still keeps its position.)
pub proof fn law_stop_rewinds(s: TransportState)
    ensures
        !spec_apply(s, Command::SetTransportPlaying(false)).0.is_playing,
        s.is_playing ==> spec_apply(s, Command::SetTransportPlaying(false)).0.position == 0,
        !s.is_playing ==> spec_apply(s, Command::SetTransportPlaying(false)).0 == s,
{
}

/// Starting keeps the place: a play command never moves the position, and
/// sending it twice is the same as sending it once.
pub proof fn law_play_keeps_position(s: TransportState)
    ensures
        spec_apply(s, Command::SetTransportPlaying(true)).0 == (TransportState { is_playing: true, position: s.position }),
        spec_apply(spec_apply(s, Command::SetTransportPlaying(true)).0, Command::SetTransportPlaying(true)).0
            == spec_apply(s, Command::SetTransportPlaying(true)).0,
{
}

/// A stopped transport does not move, however many samples are rendered.
pub proof fn law_stopped_transport_stays(s: TransportState, frames: u64)
    requires
        !s.is_playing,
    ensures
        spec_advance(s, frames) == s,
{
}

/// Seeking moves only the position: playback goes on (or stays stopped) from
/// the new position, and the metronome scheduler is reset. Commands that are
/// not transport commands leave the transport alone.
pub proof fn law_seek_moves_only_position(s: TransportState, p: u64, c: Command)
    ensures
        spec_apply(s, Command::SetTransportPosition(p)) == (TransportState { is_playing: s.is_playing, position: p }, true),
        !(c is SetTransportPlaying || c is SetTransportPosition) ==> spec_apply(s, c) == (s, false),
{
}

} // verus!
