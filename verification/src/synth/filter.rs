//! Filter types.

use vstd::prelude::*;

verus! {

/// Response of the voice filter.
#[derive(Debug, Clone, Copy, PartialEq, Eq)]
pub enum FilterType {
    LowPass,
    HighPass,
    BandPass,
    Notch,
}

/// The filter type a user-interface name selects.
pub open spec fn spec_parse_filter_type(s: Seq<char>) -> Option<FilterType> {
    if s == "lowpass"@ {
        Some(FilterType::LowPass)
    } else if s == "highpass"@ {
        Some(FilterType::HighPass)
    } else if s == "bandpass"@ {
        Some(FilterType::BandPass)
    } else if s == "notch"@ {
        Some(FilterType::Notch)
    } else {
        None
    }
}

/// Selects the filter type named `name` ("lowpass", "highpass", "bandpass", "notch").
pub fn parse_filter_type(name: &str) -> (r: Option<FilterType>)
    ensures
        r == spec_parse_filter_type(name@),
{
    let s = name.to_owned();
    if s == String::from_str("lowpass") {
        Some(FilterType::LowPass)
    } else if s == String::from_str("highpass") {
        Some(FilterType::HighPass)
    } else if s == String::from_str("bandpass") {
        Some(FilterType::BandPass)
    } else if s == String::from_str("notch") {
        Some(FilterType::Notch)
    } else {
        None
    }
}

/// Filter names select filter types one to one ("lowpass", "highpass", "bandpass", "notch"); every other name selects none.
pub proof fn law_filter_type_names(s: Seq<char>)
    ensures
        (spec_parse_filter_type(s) == Some(FilterType::LowPass)) <==> s == "lowpass"@,
        (spec_parse_filter_type(s) == Some(FilterType::HighPass)) <==> s == "highpass"@,
        (spec_parse_filter_type(s) == Some(FilterType::BandPass)) <==> s == "bandpass"@,
        (spec_parse_filter_type(s) == Some(FilterType::Notch)) <==> s == "notch"@,
        spec_parse_filter_type(s) is None <==> !(s == "lowpass"@ || s == "highpass"@ || s == "bandpass"@ || s == "notch"@),
{
    reveal_strlit("lowpass");
    reveal_strlit("highpass");
    reveal_strlit("bandpass");
    reveal_strlit("notch");
    assert("lowpass"@.len() != "highpass"@.len());
    assert("lowpass"@.len() != "bandpass"@.len());
    assert("lowpass"@.len() != "notch"@.len());
    assert("highpass"@[0] != "bandpass"@[0]);
    assert("highpass"@.len() != "notch"@.len());
    assert("bandpass"@.len() != "notch"@.len());
}

} // verus!
