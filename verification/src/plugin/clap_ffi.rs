//! Plain data of the CLAP plugin interface: versions, process status and
//! event records.
#![allow(non_camel_case_types)]

use vstd::prelude::*;

verus! {

/// CLAP version.
#[derive(Debug, Copy, Clone)]
pub struct clap_version {
    pub major: u32,
    pub minor: u32,
    pub revision: u32,
}

impl clap_version {
    pub fn new(major: u32, minor: u32, revision: u32) -> (r: Self)
        ensures
            r.major == major,
            r.minor == minor,
            r.revision == revision,
    {
        Self { major, minor, revision }
    }

    /// CLAP 1.0.0 (current stable).
    pub fn clap_1_0_0() -> (r: Self)
        ensures
            r.major == 1,
            r.minor == 0,
            r.revision == 0,
    {
        Self::new(1, 0, 0)
    }

    /// Two versions are compatible when their major numbers agree.
    pub fn is_compatible(&self, other: &Self) -> (r: bool)
        ensures
            r == (self.major == other.major),
    {
        self.major == other.major
    }
}

/// Compatibility is an equivalence: reflexive, symmetric and transitive.
pub proof fn law_compatibility_equivalence(a: clap_version, b: clap_version, c: clap_version)
    ensures
        a.major == a.major,
        (a.major == b.major) == (b.major == a.major),
        a.major == b.major && b.major == c.major ==> a.major == c.major,
{
}

/// CLAP process status, in the order of its numeric codes 0 to 4.
#[derive(Debug, Clone, Copy, PartialEq, Eq)]
pub enum clap_process_status {
    /// Processing succeeded
    CLAP_PROCESS_CONTINUE,
    /// Processing succeeded and plugin needs more processing (tail)
    CLAP_PROCESS_CONTINUE_IF_NOT_QUIET,
    /// Processing succeeded but plugin is in tail mode
    CLAP_PROCESS_TAIL,
    /// Processing succeeded and plugin has finished (sleep mode)
    CLAP_PROCESS_SLEEP,
    /// Processing failed
    CLAP_PROCESS_ERROR,
}

/// CLAP event header.
#[derive(Debug, Copy, Clone)]
pub struct clap_event_header {
    pub size: u32,
    pub time: u32,
    pub space_id: u16,
    pub type_: u16,
    pub flags: u32,
}

pub const CLAP_EVENT_NOTE_ON: u16 = 0;
pub const CLAP_EVENT_NOTE_OFF: u16 = 1;
pub const CLAP_EVENT_NOTE_CHOKE: u16 = 2;
pub const CLAP_EVENT_NOTE_END: u16 = 3;
pub const CLAP_EVENT_NOTE_EXPRESSION: u16 = 4;
pub const CLAP_EVENT_PARAM_VALUE: u16 = 5;
pub const CLAP_EVENT_PARAM_MOD: u16 = 6;
pub const CLAP_EVENT_PARAM_GESTURE_BEGIN: u16 = 7;
pub const CLAP_EVENT_PARAM_GESTURE_END: u16 = 8;
pub const CLAP_EVENT_TRANSPORT: u16 = 9;
pub const CLAP_EVENT_MIDI: u16 = 10;
pub const CLAP_EVENT_MIDI_SYSEX: u16 = 11;
pub const CLAP_EVENT_MIDI2: u16 = 12;

/// CLAP core event space.
pub const CLAP_CORE_EVENT_SPACE_ID: u16 = 0;

/// CLAP MIDI event (raw MIDI bytes).
#[derive(Debug, Copy, Clone)]
pub struct clap_event_midi {
    pub header: clap_event_header,
    pub port_index: u16,
    pub data: [u8; 3],
}

} // verus!
