//! LFO destinations.

use vstd::prelude::*;

verus! {

/// What the LFO modulates.
#[derive(Debug, Clone, Copy, PartialEq, Eq)]
pub enum LfoDestination {
    Pitch,
    Volume,
    FilterCutoff,
}

/// The destination a user-interface name selects.
pub open spec fn spec_parse_lfo_destination(s: Seq<char>) -> Option<LfoDestination> {
    if s == "pitch"@ {
        Some(LfoDestination::Pitch)
    } else if s == "volume"@ {
        Some(LfoDestination::Volume)
    } else if s == "filter"@ {
        Some(LfoDestination::FilterCutoff)
    } else {
        None
    }
}

/// Selects the destination named `name` ("pitch", "volume", "filter").
pub fn parse_lfo_destination(name: &str) -> (r: Option<LfoDestination>)
    ensures
        r == spec_parse_lfo_destination(name@),
{
    let s = name.to_owned();
    if s == String::from_str("pitch") {
        Some(LfoDestination::Pitch)
    } else if s == String::from_str("volume") {
        Some(LfoDestination::Volume)
    } else if s == String::from_str("filter") {
        Some(LfoDestination::FilterCutoff)
    } else {
        None
    }
}

/// LFO destination names select destinations one to one: "pitch" the pitch, "volume" the volume, "filter" the filter cutoff; every other name selects none.
pub proof fn law_lfo_destination_names(s: Seq<char>)
    ensures
        (spec_parse_lfo_destination(s) == Some(LfoDestination::Pitch)) <==> s == "pitch"@,
        (spec_parse_lfo_destination(s) == Some(LfoDestination::Volume)) <==> s == "volume"@,
        (spec_parse_lfo_destination(s) == Some(LfoDestination::FilterCutoff)) <==> s == "filter"@,
        spec_parse_lfo_destination(s) is None <==> !(s == "pitch"@ || s == "volume"@ || s == "filter"@),
{
    reveal_strlit("pitch");
    reveal_strlit("volume");
    reveal_strlit("filter");
    assert("pitch"@.len() != "volume"@.len());
    assert("pitch"@.len() != "filter"@.len());
    assert("volume"@[0] != "filter"@[0]);
}

} // verus!
