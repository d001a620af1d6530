//! Polyphony modes.

use vstd::prelude::*;

verus! {

/// Polyphony mode: several voices, one voice, or one voice without
/// retriggering (legato).
#[derive(Debug, Clone, Copy, PartialEq, Eq)]
pub enum PolyMode {
    Poly,
    Mono,
    Legato,
}

/// `{:?}` of a polyphony mode.
pub open spec fn poly_mode_name(m: PolyMode) -> Seq<char> {
    match m {
        PolyMode::Poly => "Poly"@,
        PolyMode::Mono => "Mono"@,
        PolyMode::Legato => "Legato"@,
    }
}

impl PolyMode {
    /// The name of the mode, as `{:?}` shows it.
    pub fn name(&self) -> (r: &'static str)
        ensures
            r@ == poly_mode_name(*self),
    {
        match self {
            PolyMode::Poly => "Poly",
            PolyMode::Mono => "Mono",
            PolyMode::Legato => "Legato",
        }
    }
}

impl Default for PolyMode {
    /// Polyphonic.
    fn default() -> (r: Self)
        ensures
            r == PolyMode::Poly,
    {
        PolyMode::Poly
    }
}

/// The mode a user-interface name selects.
pub open spec fn spec_parse_poly_mode(s: Seq<char>) -> Option<PolyMode> {
    if s == "poly"@ {
        Some(PolyMode::Poly)
    } else if s == "mono"@ {
        Some(PolyMode::Mono)
    } else if s == "legato"@ {
        Some(PolyMode::Legato)
    } else {
        None
    }
}

/// Selects the mode named `name` ("poly", "mono", "legato").
pub fn parse_poly_mode(name: &str) -> (r: Option<PolyMode>)
    ensures
        r == spec_parse_poly_mode(name@),
{
    let s = name.to_owned();
    if s == String::from_str("poly") {
        Some(PolyMode::Poly)
    } else if s == String::from_str("mono") {
        Some(PolyMode::Mono)
    } else if s == String::from_str("legato") {
        Some(PolyMode::Legato)
    } else {
        None
    }
}

/// Polyphony names select modes one to one ("poly", "mono", "legato"); every other name selects none.
pub proof fn law_poly_mode_names(s: Seq<char>)
    ensures
        (spec_parse_poly_mode(s) == Some(PolyMode::Poly)) <==> s == "poly"@,
        (spec_parse_poly_mode(s) == Some(PolyMode::Mono)) <==> s == "mono"@,
        (spec_parse_poly_mode(s) == Some(PolyMode::Legato)) <==> s == "legato"@,
        spec_parse_poly_mode(s) is None <==> !(s == "poly"@ || s == "mono"@ || s == "legato"@),
{
    reveal_strlit("poly");
    reveal_strlit("mono");
    reveal_strlit("legato");
    assert("poly"@[0] != "mono"@[0]);
    assert("poly"@.len() != "legato"@.len());
    assert("mono"@.len() != "legato"@.len());
}

} // verus!
