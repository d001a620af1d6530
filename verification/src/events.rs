//! Events streamed from the audio engine to the user interface, and the
//! emitter that holds them back until the interface is attached.
//!
//! Levels, loads and tempos are `f32`; events carry their bit patterns
//! (`f32::to_bits`).

use crate::messaging::notification::current_unix_millis;
use vstd::prelude::*;

verus! {

#[verifier::external_type_specification]
#[verifier::external_body]
pub struct ExJsonValue(serde_json::Value);

/// An event for the user interface.
#[derive(Debug)]
pub enum AudioEvent {
    /// MIDI note events (for visual feedback); `on` is false for a note off.
    MidiNote { note: u8, velocity: u8, on: bool, timestamp: u64 },
    /// Active voices count (for performance monitoring).
    ActiveVoices { count: u32, timestamp: u64 },
    /// CPU usage percentage (for performance monitoring).
    CpuUsage { percentage_bits: u32, timestamp: u64 },
    /// Audio level meter (for VU meters).
    AudioLevel {
        left_bits: u32,
        right_bits: u32,
        peak_left_bits: u32,
        peak_right_bits: u32,
        timestamp: u64,
    },
    /// Parameter changes (for UI synchronization).
    ParameterChanged { parameter: String, value: serde_json::Value, timestamp: u64 },
    /// Transport position updates; `musical_time` reads "bars:beats:ticks".
    TransportPosition {
        samples: u64,
        musical_time: String,
        is_playing: bool,
        tempo_bits: u32,
        timestamp: u64,
    },
    /// Metronome events.
    MetronomeTick { beat: u32, is_accent: bool, timestamp: u64 },
    /// Error notifications; `severity` is "warning", "error" or "info".
    Error { message: String, severity: String, timestamp: u64 },
}

/// The name under which the interface listens for an event.
pub open spec fn spec_event_name(e: AudioEvent) -> Seq<char> {
    match e {
        AudioEvent::MidiNote { .. } => "audio:midi-note"@,
        AudioEvent::ActiveVoices { .. } => "audio:active-voices"@,
        AudioEvent::CpuUsage { .. } => "audio:cpu-usage"@,
        AudioEvent::AudioLevel { .. } => "audio:level"@,
        AudioEvent::ParameterChanged { .. } => "audio:parameter-changed"@,
        AudioEvent::TransportPosition { .. } => "audio:transport-position"@,
        AudioEvent::MetronomeTick { .. } => "audio:metronome-tick"@,
        AudioEvent::Error { .. } => "audio:error"@,
    }
}

/// The name under which the interface listens for `event`.
pub fn event_name(event: &AudioEvent) -> (r: &'static str)
    ensures
        r@ == spec_event_name(*event),
{
    match event {
        AudioEvent::MidiNote { .. } => "audio:midi-note",
        AudioEvent::ActiveVoices { .. } => "audio:active-voices",
        AudioEvent::CpuUsage { .. } => "audio:cpu-usage",
        AudioEvent::AudioLevel { .. } => "audio:level",
        AudioEvent::ParameterChanged { .. } => "audio:parameter-changed",
        AudioEvent::TransportPosition { .. } => "audio:transport-position",
        AudioEvent::MetronomeTick { .. } => "audio:metronome-tick",
        AudioEvent::Error { .. } => "audio:error",
    }
}

/// Event emitter: delivers events once the interface is attached, and
/// keeps the earlier ones, in order, until then.
pub struct AudioEventEmitter {
    attached: bool,
    pending_events: Vec<AudioEvent>,
}

impl AudioEventEmitter {
    /// Whether the interface is attached.
    pub closed spec fn spec_attached(&self) -> bool {
        self.attached
    }

    /// The events held back, oldest first.
    pub closed spec fn spec_pending(&self) -> Seq<AudioEvent> {
        self.pending_events@
    }

    /// Well-formedness: nothing is held back once the interface is attached.
    pub open spec fn wf(&self) -> bool {
        self.spec_attached() ==> self.spec_pending().len() == 0
    }

    /// An emitter without interface and without events.
    pub fn new() -> (r: Self)
        ensures
            r.wf(),
            !r.spec_attached(),
            r.spec_pending() == Seq::<AudioEvent>::empty(),
    {
        Self { attached: false, pending_events: Vec::new() }
    }

    /// Attaches the interface and hands back the events held until now,
    /// oldest first, for delivery.
    pub fn set_app_handle(&mut self) -> (r: Vec<AudioEvent>)
        ensures
            final(self).wf(),
            final(self).spec_attached(),
            final(self).spec_pending() == Seq::<AudioEvent>::empty(),
            r@ == old(self).spec_pending(),
    {
        self.attached = true;
        let mut held: Vec<AudioEvent> = Vec::new();
        std::mem::swap(&mut held, &mut self.pending_events);
        held
    }

    /// Emits an event: with the interface attached it is handed back for
    /// delivery at once; before that it is held, after the earlier ones.
    pub fn emit(&mut self, event: AudioEvent) -> (r: Option<AudioEvent>)
        requires
            old(self).wf(),
        ensures
            final(self).wf(),
            final(self).spec_attached() == old(self).spec_attached(),
            old(self).spec_attached() ==> r == Some(event) && final(self).spec_pending()
                == old(self).spec_pending(),
            !old(self).spec_attached() ==> r is None && final(self).spec_pending() == old(
                self,
            ).spec_pending().push(event),
    {
        if self.attached {
            Some(event)
        } else {
            self.pending_events.push(event);
            None
        }
    }

    /// Emits a note event.
    pub fn midi_note(&mut self, note: u8, velocity: u8, on: bool, timestamp: u64) -> (r: Option<
        AudioEvent,
    >)
        requires
            old(self).wf(),
        ensures
            emitted(*old(self), *final(self), r, AudioEvent::MidiNote { note, velocity, on, timestamp }),
    {
        self.emit(AudioEvent::MidiNote { note, velocity, on, timestamp })
    }

    /// Emits an active voice count.
    pub fn active_voices(&mut self, count: u32, timestamp: u64) -> (r: Option<AudioEvent>)
        requires
            old(self).wf(),
        ensures
            emitted(*old(self), *final(self), r, AudioEvent::ActiveVoices { count, timestamp }),
    {
        self.emit(AudioEvent::ActiveVoices { count, timestamp })
    }

    /// Emits a CPU load.
    pub fn cpu_usage(&mut self, percentage_bits: u32, timestamp: u64) -> (r: Option<AudioEvent>)
        requires
            old(self).wf(),
        ensures
            emitted(*old(self), *final(self), r, AudioEvent::CpuUsage { percentage_bits, timestamp }),
    {
        self.emit(AudioEvent::CpuUsage { percentage_bits, timestamp })
    }

    /// Emits audio levels.
    pub fn audio_level(
        &mut self,
        left_bits: u32,
        right_bits: u32,
        peak_left_bits: u32,
        peak_right_bits: u32,
        timestamp: u64,
    ) -> (r: Option<AudioEvent>)
        requires
            old(self).wf(),
        ensures
            emitted(
                *old(self),
                *final(self),
                r,
                AudioEvent::AudioLevel {
                    left_bits,
                    right_bits,
                    peak_left_bits,
                    peak_right_bits,
                    timestamp,
                },
            ),
    {
        self.emit(
            AudioEvent::AudioLevel { left_bits, right_bits, peak_left_bits, peak_right_bits, timestamp },
        )
    }

    /// Emits a parameter change.
    pub fn parameter_changed(
        &mut self,
        parameter: String,
        value: serde_json::Value,
        timestamp: u64,
    ) -> (r: Option<AudioEvent>)
        requires
            old(self).wf(),
        ensures
            emitted(
                *old(self),
                *final(self),
                r,
                AudioEvent::ParameterChanged { parameter, value, timestamp },
            ),
    {
        self.emit(AudioEvent::ParameterChanged { parameter, value, timestamp })
    }

    /// Emits a transport position.
    pub fn transport_position(
        &mut self,
        samples: u64,
        musical_time: String,
        is_playing: bool,
        tempo_bits: u32,
        timestamp: u64,
    ) -> (r: Option<AudioEvent>)
        requires
            old(self).wf(),
        ensures
            emitted(
                *old(self),
                *final(self),
                r,
                AudioEvent::TransportPosition {
                    samples,
                    musical_time,
                    is_playing,
                    tempo_bits,
                    timestamp,
                },
            ),
    {
        self.emit(
            AudioEvent::TransportPosition { samples, musical_time, is_playing, tempo_bits, timestamp },
        )
    }

    /// Emits a metronome tick.
    pub fn metronome_tick(&mut self, beat: u32, is_accent: bool, timestamp: u64) -> (r: Option<
        AudioEvent,
    >)
        requires
            old(self).wf(),
        ensures
            emitted(*old(self), *final(self), r, AudioEvent::MetronomeTick { beat, is_accent, timestamp }),
    {
        self.emit(AudioEvent::MetronomeTick { beat, is_accent, timestamp })
    }

    /// Emits an error notification.
    pub fn error(&mut self, message: String, severity: String, timestamp: u64) -> (r: Option<
        AudioEvent,
    >)
        requires
            old(self).wf(),
        ensures
            emitted(*old(self), *final(self), r, AudioEvent::Error { message, severity, timestamp }),
    {
        self.emit(AudioEvent::Error { message, severity, timestamp })
    }
}

impl Default for AudioEventEmitter {
    fn default() -> (r: Self)
        ensures
            r.wf(),
            !r.spec_attached(),
            r.spec_pending() == Seq::<AudioEvent>::empty(),
    {
        Self::new()
    }
}

/// `emit` of `e` took the emitter from `a` to `b` and returned `r`.
pub open spec fn emitted(a: AudioEventEmitter, b: AudioEventEmitter, r: Option<AudioEvent>, e: AudioEvent) -> bool {
    &&& b.wf()
    &&& b.spec_attached() == a.spec_attached()
    &&& a.spec_attached() ==> r == Some(e) && b.spec_pending() == a.spec_pending()
    &&& !a.spec_attached() ==> r is None && b.spec_pending() == a.spec_pending().push(e)
}

/// What an emitter delivers: each event either at once or, if emitted
/// before the interface was attached, when it is attached.
pub open spec fn delivered(attached_before: bool, pending: Seq<AudioEvent>, emitted_events: Seq<AudioEvent>) -> Seq<AudioEvent> {
    if attached_before {
        emitted_events
    } else {
        pending + emitted_events
    }
}

/// No event is lost or reordered: events emitted one after another on a
/// detached emitter come out of the attachment in the order of emission,
/// after the ones already held.
pub proof fn law_events_delivered_in_order(
    a: AudioEventEmitter,
    b: AudioEventEmitter,
    c: AudioEventEmitter,
    e1: AudioEvent,
    e2: AudioEvent,
    r1: Option<AudioEvent>,
    r2: Option<AudioEvent>,
)
    requires
        a.wf(),
        !a.spec_attached(),
        emitted(a, b, r1, e1),
        emitted(b, c, r2, e2),
    ensures
        r1 is None,
        r2 is None,
        c.spec_pending() == delivered(false, a.spec_pending(), seq![e1, e2]),
{
    assert(c.spec_pending() =~= a.spec_pending() + seq![e1, e2]);
}

/// The current time in milliseconds since the Unix epoch (zero for a clock
/// set before the epoch), to stamp events.
pub fn get_timestamp() -> u64 {
    current_unix_millis()
}

} // verus!
