//! Default MIDI CC assignments (General MIDI).

use vstd::prelude::*;

verus! {

pub const VOLUME: u8 = 7;
pub const PAN: u8 = 10;
pub const EXPRESSION: u8 = 11;
pub const SUSTAIN: u8 = 64;
pub const PORTAMENTO: u8 = 65;
pub const SOSTENUTO: u8 = 66;
pub const SOFT_PEDAL: u8 = 67;
pub const LEGATO_FOOTSWITCH: u8 = 68;
pub const HOLD_2: u8 = 69;

// Effects controllers
pub const EFFECTS_1: u8 = 12;
pub const EFFECTS_2: u8 = 13;
pub const EFFECTS_3: u8 = 14;
pub const EFFECTS_4: u8 = 15;
pub const EFFECTS_5: u8 = 16;

/// The controllers offered for mapping by default, with their names.
pub open spec fn default_assignments() -> Seq<(u8, Seq<char>)> {
    seq![
        (VOLUME, "Volume"@),
        (PAN, "Pan"@),
        (EXPRESSION, "Expression"@),
        (SUSTAIN, "Sustain"@),
        (PORTAMENTO, "Portamento"@),
        (SOSTENUTO, "Sostenuto"@),
        (SOFT_PEDAL, "Soft Pedal"@),
        (LEGATO_FOOTSWITCH, "Legato"@),
        (HOLD_2, "Hold 2"@),
    ]
}

/// The default assignments, in the order the user interface lists them.
pub fn default_midi_assignments() -> (r: Vec<(u8, String)>)
    ensures
        r@.len() == default_assignments().len(),
        forall|i: int| 0 <= i < r@.len() ==> #[trigger] r@[i].0 == default_assignments()[i].0
            && r@[i].1@ == default_assignments()[i].1,
{
    let mut v: Vec<(u8, String)> = Vec::new();
    v.push((VOLUME, String::from_str("Volume")));
    v.push((PAN, String::from_str("Pan")));
    v.push((EXPRESSION, String::from_str("Expression")));
    v.push((SUSTAIN, String::from_str("Sustain")));
    v.push((PORTAMENTO, String::from_str("Portamento")));
    v.push((SOSTENUTO, String::from_str("Sostenuto")));
    v.push((SOFT_PEDAL, String::from_str("Soft Pedal")));
    v.push((LEGATO_FOOTSWITCH, String::from_str("Legato")));
    v.push((HOLD_2, String::from_str("Hold 2")));
    v
}

} // verus!
