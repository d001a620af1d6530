//! Sources and destinations of the modulation matrix.

use vstd::prelude::*;

verus! {

/// Where a modulation comes from (`Lfo(i)`: LFO number `i`).
#[derive(Debug, Clone, Copy, PartialEq, Eq)]
pub enum ModSource {
    Lfo(usize),
    Velocity,
    Aftertouch,
    Envelope,
}

/// What a modulation acts on (`OscillatorPitch(i)`: pitch of oscillator `i`).
#[derive(Debug, Clone, Copy, PartialEq, Eq)]
pub enum ModDestination {
    OscillatorPitch(usize),
    Amplitude,
    FilterCutoff,
    Pan,
}

/// The source a user-interface name selects (the first LFO for "lfo").
pub open spec fn spec_parse_mod_source(s: Seq<char>) -> Option<ModSource> {
    if s == "lfo"@ {
        Some(ModSource::Lfo(0))
    } else if s == "velocity"@ {
        Some(ModSource::Velocity)
    } else if s == "aftertouch"@ {
        Some(ModSource::Aftertouch)
    } else if s == "envelope"@ {
        Some(ModSource::Envelope)
    } else {
        None
    }
}

/// The destination a user-interface name selects (the first oscillator for "pitch").
pub open spec fn spec_parse_mod_destination(s: Seq<char>) -> Option<ModDestination> {
    if s == "pitch"@ {
        Some(ModDestination::OscillatorPitch(0))
    } else if s == "amplitude"@ {
        Some(ModDestination::Amplitude)
    } else if s == "filter"@ {
        Some(ModDestination::FilterCutoff)
    } else if s == "pan"@ {
        Some(ModDestination::Pan)
    } else {
        None
    }
}

/// Selects the source named `name` ("lfo", "velocity", "aftertouch", "envelope").
pub fn parse_mod_source(name: &str) -> (r: Option<ModSource>)
    ensures
        r == spec_parse_mod_source(name@),
{
    let s = name.to_owned();
    if s == String::from_str("lfo") {
        Some(ModSource::Lfo(0))
    } else if s == String::from_str("velocity") {
        Some(ModSource::Velocity)
    } else if s == String::from_str("aftertouch") {
        Some(ModSource::Aftertouch)
    } else if s == String::from_str("envelope") {
        Some(ModSource::Envelope)
    } else {
        None
    }
}

/// Selects the destination named `name` ("pitch", "amplitude", "filter", "pan").
pub fn parse_mod_destination(name: &str) -> (r: Option<ModDestination>)
    ensures
        r == spec_parse_mod_destination(name@),
{
    let s = name.to_owned();
    if s == String::from_str("pitch") {
        Some(ModDestination::OscillatorPitch(0))
    } else if s == String::from_str("amplitude") {
        Some(ModDestination::Amplitude)
    } else if s == String::from_str("filter") {
        Some(ModDestination::FilterCutoff)
    } else if s == String::from_str("pan") {
        Some(ModDestination::Pan)
    } else {
        None
    }
}

/// Destination names select destinations one to one: "pitch" the first oscillator's pitch, "amplitude" the amplitude, "filter" the filter cutoff, "pan" the pan; every other name selects none.
pub proof fn law_mod_destination_names(s: Seq<char>)
    ensures
        (spec_parse_mod_destination(s) == Some(ModDestination::OscillatorPitch(0))) <==> s == "pitch"@,
        (spec_parse_mod_destination(s) == Some(ModDestination::Amplitude)) <==> s == "amplitude"@,
        (spec_parse_mod_destination(s) == Some(ModDestination::FilterCutoff)) <==> s == "filter"@,
        (spec_parse_mod_destination(s) == Some(ModDestination::Pan)) <==> s == "pan"@,
        spec_parse_mod_destination(s) is None <==> !(s == "pitch"@ || s == "amplitude"@ || s == "filter"@ || s == "pan"@),
{
    reveal_strlit("pitch");
    reveal_strlit("amplitude");
    reveal_strlit("filter");
    reveal_strlit("pan");
    assert("pitch"@.len() != "amplitude"@.len());
    assert("pitch"@.len() != "filter"@.len());
    assert("pitch"@.len() != "pan"@.len());
    assert("amplitude"@.len() != "filter"@.len());
    assert("amplitude"@.len() != "pan"@.len());
    assert("filter"@.len() != "pan"@.len());
}

/// Source names select sources one to one: "lfo" the first LFO, "velocity", "aftertouch" and "envelope" their namesakes; every other name selects none.
pub proof fn law_mod_source_names(s: Seq<char>)
    ensures
        (spec_parse_mod_source(s) == Some(ModSource::Lfo(0))) <==> s == "lfo"@,
        (spec_parse_mod_source(s) == Some(ModSource::Velocity)) <==> s == "velocity"@,
        (spec_parse_mod_source(s) == Some(ModSource::Aftertouch)) <==> s == "aftertouch"@,
        (spec_parse_mod_source(s) == Some(ModSource::Envelope)) <==> s == "envelope"@,
        spec_parse_mod_source(s) is None <==> !(s == "lfo"@ || s == "velocity"@ || s == "aftertouch"@ || s == "envelope"@),
{
    reveal_strlit("lfo");
    reveal_strlit("velocity");
    reveal_strlit("aftertouch");
    reveal_strlit("envelope");
    assert("lfo"@.len() != "velocity"@.len());
    assert("lfo"@.len() != "aftertouch"@.len());
    assert("lfo"@.len() != "envelope"@.len());
    assert("velocity"@.len() != "aftertouch"@.len());
    assert("velocity"@[0] != "envelope"@[0]);
    assert("aftertouch"@.len() != "envelope"@.len());
}

} // verus!
