//! MIDI event types and raw message parsing.

use vstd::prelude::*;

verus! {

/// A decoded MIDI channel message (the channel nibble is ignored).
#[derive(Debug, Clone, Copy, PartialEq, Eq)]
#[allow(inconsistent_fields)]
pub enum MidiEvent {
    NoteOn { note: u8, velocity: u8 },
    NoteOff { note: u8 },
    ControlChange { controller: u8, value: u8 },
    PitchBend { value: i16 },
}

/// MIDI event with sample-accurate timing.
/// `samples_from_now` is the offset, in samples, from the first sample of
/// the current audio callback at which the event must be processed.
#[derive(Debug, Clone, Copy)]
pub struct MidiEventTimed {
    pub event: MidiEvent,
    pub samples_from_now: u32,
}

/// The message type of a status byte: its high nibble.
pub open spec fn message_kind(status: u8) -> u8 {
    status / 16
}

/// The 14-bit pitch-bend word built from its two data bytes:
/// the MSB shifted left by seven bits, or-ed with the LSB.
pub open spec fn pitch_bend_word(lsb: u8, msb: u8) -> i16 {
    ((msb as i16) << 7u16) | (lsb as i16)
}

/// What a raw MIDI message decodes to.
///
/// Every supported message (note on, note off, control change, pitch bend)
/// needs a status byte and two data bytes; anything shorter, and any other
/// message type, decodes to nothing. A note on with velocity zero is a note off.
pub open spec fn parse_midi(bytes: Seq<u8>) -> Option<MidiEvent> {
    if bytes.len() < 3 {
        None
    } else {
        let kind = message_kind(bytes[0]);
        if kind == 9 {
            if bytes[2] == 0 {
                Some(MidiEvent::NoteOff { note: bytes[1] })
            } else {
                Some(MidiEvent::NoteOn { note: bytes[1], velocity: bytes[2] })
            }
        } else if kind == 8 {
            Some(MidiEvent::NoteOff { note: bytes[1] })
        } else if kind == 11 {
            Some(MidiEvent::ControlChange { controller: bytes[1], value: bytes[2] })
        } else if kind == 14 {
            Some(MidiEvent::PitchBend { value: pitch_bend_word(bytes[1], bytes[2]) })
        } else {
            None
        }
    }
}

/// For proper 7-bit data bytes the pitch-bend word is `msb * 128 + lsb`.
pub proof fn law_pitch_bend_value(lsb: u8, msb: u8)
    requires
        lsb < 128,
        msb < 128,
    ensures
        pitch_bend_word(lsb, msb) == msb * 128 + lsb,
{
    let l = lsb as i16;
    let m = msb as i16;
    assert((m << 7u16) | l == m * 128 + l) by (bit_vector)
        requires
            0 <= l < 128,
            0 <= m < 128,
    ;
}

impl MidiEvent {
    /// Parse a raw MIDI message.
    pub fn from_bytes(bytes: &[u8]) -> (res: Option<Self>)
        ensures
            res == parse_midi(bytes@),
    {
        if bytes.len() == 0 {
            return None;
        }
        let status = bytes[0];
        let message_type = status & 0xF0;
        assert(message_type == message_kind(status) * 16) by (bit_vector)
            requires
                message_type == status & 0xF0,
        ;
        if message_type == 0x90 {
            if bytes.len() >= 3 {
                let note = bytes[1];
                let velocity = bytes[2];
                if velocity == 0 {
                    Some(MidiEvent::NoteOff { note })
                } else {
                    Some(MidiEvent::NoteOn { note, velocity })
                }
            } else {
                None
            }
        } else if message_type == 0x80 {
            if bytes.len() >= 3 {
                Some(MidiEvent::NoteOff { note: bytes[1] })
            } else {
                None
            }
        } else if message_type == 0xB0 {
            if bytes.len() >= 3 {
                Some(MidiEvent::ControlChange { controller: bytes[1], value: bytes[2] })
            } else {
                None
            }
        } else if message_type == 0xE0 {
            if bytes.len() >= 3 {
                let lsb = bytes[1] as i16;
                let msb = bytes[2] as i16;
                let value = (msb << 7u16) | lsb;
                Some(MidiEvent::PitchBend { value })
            } else {
                None
            }
        } else {
            None
        }
    }
}

/// The channel (low nibble of the status byte) never changes what a message
/// decodes to: two messages that differ only in their channel decode alike.
pub proof fn law_channel_ignored(a: Seq<u8>, b: Seq<u8>)
    requires
        a.len() == b.len(),
        a.len() >= 1,
        message_kind(a[0]) == message_kind(b[0]),
        forall|i: int| 1 <= i < a.len() ==> a[i] == b[i],
    ensures
        parse_midi(a) == parse_midi(b),
{
    if a.len() >= 3 {
        assert(a[1] == b[1] && a[2] == b[2]);
    }
}

} // verus!
