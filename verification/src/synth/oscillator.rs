//! Oscillator waveforms.

use vstd::prelude::*;

verus! {

/// Oscillator waveform.
#[derive(Debug, Clone, Copy, PartialEq, Eq)]
pub enum WaveformType {
    Sine,
    Square,
    Saw,
    Triangle,
}

/// `{:?}` of a waveform.
pub open spec fn waveform_name(w: WaveformType) -> Seq<char> {
    match w {
        WaveformType::Sine => "Sine"@,
        WaveformType::Square => "Square"@,
        WaveformType::Saw => "Saw"@,
        WaveformType::Triangle => "Triangle"@,
    }
}

impl WaveformType {
    /// The name of the waveform, as `{:?}` shows it.
    pub fn name(&self) -> (r: &'static str)
        ensures
            r@ == waveform_name(*self),
    {
        match self {
            WaveformType::Sine => "Sine",
            WaveformType::Square => "Square",
            WaveformType::Saw => "Saw",
            WaveformType::Triangle => "Triangle",
        }
    }
}

/// The waveform a user-interface name selects.
pub open spec fn spec_parse_waveform(s: Seq<char>) -> Option<WaveformType> {
    if s == "sine"@ {
        Some(WaveformType::Sine)
    } else if s == "square"@ {
        Some(WaveformType::Square)
    } else if s == "saw"@ {
        Some(WaveformType::Saw)
    } else if s == "triangle"@ {
        Some(WaveformType::Triangle)
    } else {
        None
    }
}

/// Selects the waveform named `name` ("sine", "square", "saw", "triangle").
pub fn parse_waveform(name: &str) -> (r: Option<WaveformType>)
    ensures
        r == spec_parse_waveform(name@),
{
    let s = name.to_owned();
    if s == String::from_str("sine") {
        Some(WaveformType::Sine)
    } else if s == String::from_str("square") {
        Some(WaveformType::Square)
    } else if s == String::from_str("saw") {
        Some(WaveformType::Saw)
    } else if s == String::from_str("triangle") {
        Some(WaveformType::Triangle)
    } else {
        None
    }
}

/// Waveform names select waveforms one to one ("sine", "square", "saw", "triangle"); every other name selects none.
pub proof fn law_waveform_names(s: Seq<char>)
    ensures
        (spec_parse_waveform(s) == Some(WaveformType::Sine)) <==> s == "sine"@,
        (spec_parse_waveform(s) == Some(WaveformType::Square)) <==> s == "square"@,
        (spec_parse_waveform(s) == Some(WaveformType::Saw)) <==> s == "saw"@,
        (spec_parse_waveform(s) == Some(WaveformType::Triangle)) <==> s == "triangle"@,
        spec_parse_waveform(s) is None <==> !(s == "sine"@ || s == "square"@ || s == "saw"@ || s == "triangle"@),
{
    reveal_strlit("sine");
    reveal_strlit("square");
    reveal_strlit("saw");
    reveal_strlit("triangle");
    assert("sine"@.len() != "square"@.len());
    assert("sine"@.len() != "saw"@.len());
    assert("sine"@.len() != "triangle"@.len());
    assert("square"@.len() != "saw"@.len());
    assert("square"@.len() != "triangle"@.len());
    assert("saw"@.len() != "triangle"@.len());
}

} // verus!
