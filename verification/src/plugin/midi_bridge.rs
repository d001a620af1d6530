//! The MIDI-to-plugin bridge's routing: which controller drives which
//! plugin parameter, and what becomes of each incoming MIDI event.
//!
//! Parameter ranges are `f32`; mappings carry their bit patterns
//! (`f32::to_bits`). Scaling a controller value into the range, and moving
//! events through the bridge's queues, is left to the caller.

pub mod default_cc_assignments;

use crate::midi::event::{MidiEvent, MidiEventTimed};
use crate::plugin::error::PluginError;
use crate::plugin::parameters::PluginInstanceId;
use vstd::prelude::*;

verus! {

/// MIDI CC to plugin parameter mapping.
#[derive(Debug, Clone)]
pub struct MidiMapping {
    /// MIDI CC controller number (0-127)
    pub cc_number: u8,
    /// Plugin instance ID
    pub plugin_instance_id: PluginInstanceId,
    /// Plugin parameter index
    pub parameter_index: u32,
    /// Mapping name for UI display
    pub name: String,
    /// Bits of the minimum value (0.0 to 1.0)
    pub min_value_bits: u32,
    /// Bits of the maximum value (0.0 to 1.0)
    pub max_value_bits: u32,
}

/// What a mapping holds, as plain values.
pub ghost struct MidiMappingView {
    pub cc_number: u8,
    pub plugin_instance_id: PluginInstanceId,
    pub parameter_index: u32,
    pub name: Seq<char>,
    pub min_value_bits: u32,
    pub max_value_bits: u32,
}

impl View for MidiMapping {
    type V = MidiMappingView;

    open spec fn view(&self) -> MidiMappingView {
        MidiMappingView {
            cc_number: self.cc_number,
            plugin_instance_id: self.plugin_instance_id,
            parameter_index: self.parameter_index,
            name: self.name@,
            min_value_bits: self.min_value_bits,
            max_value_bits: self.max_value_bits,
        }
    }
}

impl MidiMapping {
    /// A copy of this mapping.
    pub fn duplicate(&self) -> (r: Self)
        ensures
            r@ == self@,
    {
        MidiMapping {
            cc_number: self.cc_number,
            plugin_instance_id: self.plugin_instance_id,
            parameter_index: self.parameter_index,
            name: self.name.clone(),
            min_value_bits: self.min_value_bits,
            max_value_bits: self.max_value_bits,
        }
    }
}

/// The views of a list of mappings.
pub open spec fn mappings_view(v: Seq<MidiMapping>) -> Seq<MidiMappingView> {
    v.map_values(|m: MidiMapping| m@)
}

/// Whether every controller has at most one mapping.
pub open spec fn controllers_unique(ms: Seq<MidiMappingView>) -> bool {
    forall|i: int, j: int|
        0 <= i < ms.len() && 0 <= j < ms.len() && i != j ==> #[trigger] ms[i].cc_number
            != #[trigger] ms[j].cc_number
}

/// Whether controller `cc` has a mapping.
pub open spec fn has_controller(ms: Seq<MidiMappingView>, cc: u8) -> bool {
    exists|i: int| 0 <= i < ms.len() && #[trigger] ms[i].cc_number == cc
}

/// The position of the mapping of `cc` (meaningful when `has_controller`).
pub open spec fn controller_index(ms: Seq<MidiMappingView>, cc: u8) -> int {
    choose|i: int| 0 <= i < ms.len() && #[trigger] ms[i].cc_number == cc
}

/// The mapping of controller `cc`, if any.
pub open spec fn mapping_of(ms: Seq<MidiMappingView>, cc: u8) -> Option<MidiMappingView> {
    if has_controller(ms, cc) {
        Some(ms[controller_index(ms, cc)])
    } else {
        None
    }
}

/// The mappings after adding `m`: it replaces the mapping of its
/// controller where that stands, or comes last.
pub open spec fn mapping_insert(ms: Seq<MidiMappingView>, m: MidiMappingView) -> Seq<MidiMappingView> {
    if has_controller(ms, m.cc_number) {
        ms.update(controller_index(ms, m.cc_number), m)
    } else {
        ms.push(m)
    }
}

/// The mappings after adding each of `added` in order.
pub open spec fn mapping_insert_all(ms: Seq<MidiMappingView>, added: Seq<MidiMappingView>) -> Seq<
    MidiMappingView,
>
    decreases added.len(),
{
    if added.len() == 0 {
        ms
    } else {
        mapping_insert(mapping_insert_all(ms, added.drop_last()), added.last())
    }
}

/// The mappings without the one of controller `cc`.
pub open spec fn mapping_remove(ms: Seq<MidiMappingView>, cc: u8) -> Seq<MidiMappingView> {
    if has_controller(ms, cc) {
        ms.remove(controller_index(ms, cc))
    } else {
        ms
    }
}

/// The latest mapping of a controller wins: adding a mapping keeps one
/// mapping per controller, and the added mapping is the one of its
/// controller afterwards.
pub proof fn law_latest_mapping_wins(ms: Seq<MidiMappingView>, m: MidiMappingView)
    requires
        controllers_unique(ms),
    ensures
        controllers_unique(mapping_insert(ms, m)),
        mapping_of(mapping_insert(ms, m), m.cc_number) == Some(m),
{
    let r = mapping_insert(ms, m);
    let k = if has_controller(ms, m.cc_number) {
        controller_index(ms, m.cc_number)
    } else {
        ms.len() as int
    };
    assert(r[k] == m);
    assert(has_controller(r, m.cc_number));
    let c = controller_index(r, m.cc_number);
    assert(c == k);
}

/// Removing the mapping of a controller leaves it unmapped and keeps one
/// mapping per controller.
pub proof fn law_removed_controller_is_unmapped(ms: Seq<MidiMappingView>, cc: u8)
    requires
        controllers_unique(ms),
    ensures
        controllers_unique(mapping_remove(ms, cc)),
        mapping_of(mapping_remove(ms, cc), cc) is None,
{
    let r = mapping_remove(ms, cc);
    if has_controller(ms, cc) {
        let k = controller_index(ms, cc);
        assert forall|i: int| 0 <= i < r.len() implies #[trigger] r[i].cc_number != cc by {
            if i < k {
                assert(r[i] == ms[i]);
            } else {
                assert(r[i] == ms[i + 1]);
            }
        }
        assert forall|i: int, j: int|
            0 <= i < r.len() && 0 <= j < r.len() && i != j implies #[trigger] r[i].cc_number
            != #[trigger] r[j].cc_number by {
            let a = if i < k { i } else { i + 1 };
            let b = if j < k { j } else { j + 1 };
            assert(r[i] == ms[a]);
            assert(r[j] == ms[b]);
        }
    }
}

/// Where an incoming MIDI event goes.
#[derive(Debug, Clone, Copy)]
pub enum MidiRoute {
    /// A mapped controller moved: set the mapped plugin parameter from the
    /// controller value (0-127), scaled into the mapping's range.
    SetParameter {
        plugin_instance_id: PluginInstanceId,
        parameter_index: u32,
        value: u8,
        min_value_bits: u32,
        max_value_bits: u32,
    },
    /// Any other event is forwarded to the plugins.
    Forward(MidiEventTimed),
    /// A controller without mapping: nothing to do.
    Unmapped,
}

/// The route of an event under the mappings `ms`.
pub open spec fn spec_route(ms: Seq<MidiMappingView>, event: MidiEventTimed) -> MidiRoute {
    match event.event {
        MidiEvent::ControlChange { controller, value } => match mapping_of(ms, controller) {
            Some(m) => MidiRoute::SetParameter {
                plugin_instance_id: m.plugin_instance_id,
                parameter_index: m.parameter_index,
                value,
                min_value_bits: m.min_value_bits,
                max_value_bits: m.max_value_bits,
            },
            None => MidiRoute::Unmapped,
        },
        _ => MidiRoute::Forward(event),
    }
}

/// Bits of `0.0f32`.
pub const ZERO_BITS: u32 = 0;

/// Bits of `1.0f32`.
pub const ONE_BITS: u32 = 0x3f80_0000;

/// The name of the `i`-th parameter mapped automatically.
pub open spec fn auto_name(i: int) -> Seq<char> {
    if i == 0 {
        "Volume"@
    } else if i == 1 {
        "Pan"@
    } else if i == 2 {
        "Cutoff"@
    } else if i == 3 {
        "Resonance"@
    } else if i == 4 {
        "Attack"@
    } else if i == 5 {
        "Decay"@
    } else if i == 6 {
        "Sustain"@
    } else {
        "Release"@
    }
}

/// How many parameters are mapped automatically.
pub const AUTO_MAPPED: u8 = 8;

/// The `i`-th automatic mapping of a plugin, starting at controller `start_cc`:
/// controller `start_cc + i` drives parameter `i` over the full range.
pub open spec fn auto_mapping(id: PluginInstanceId, start_cc: u8, i: int) -> MidiMappingView {
    MidiMappingView {
        cc_number: (start_cc + i) as u8,
        plugin_instance_id: id,
        parameter_index: i as u32,
        name: auto_name(i),
        min_value_bits: ZERO_BITS,
        max_value_bits: ONE_BITS,
    }
}

/// The automatic mappings of a plugin, in parameter order.
pub open spec fn auto_mappings(id: PluginInstanceId, start_cc: u8) -> Seq<MidiMappingView> {
    Seq::new(AUTO_MAPPED as nat, |i: int| auto_mapping(id, start_cc, i))
}

/// The name of the `i`-th automatically mapped parameter.
fn auto_parameter_name(i: u8) -> (r: &'static str)
    requires
        i < AUTO_MAPPED,
    ensures
        r@ == auto_name(i as int),
{
    match i {
        0 => "Volume",
        1 => "Pan",
        2 => "Cutoff",
        3 => "Resonance",
        4 => "Attack",
        5 => "Decay",
        6 => "Sustain",
        _ => "Release",
    }
}

/// MIDI bridge for plugin communication: the table of controller mappings.
pub struct MidiPluginBridge {
    mappings: Vec<MidiMapping>,
}

impl MidiPluginBridge {
    /// The mappings, in the order in which their controllers were first mapped.
    pub closed spec fn spec_mappings(&self) -> Seq<MidiMappingView> {
        mappings_view(self.mappings@)
    }

    /// Well-formedness: one mapping per controller.
    pub open spec fn wf(&self) -> bool {
        controllers_unique(self.spec_mappings())
    }

    /// A bridge without mappings.
    pub fn new() -> (r: Self)
        ensures
            r.wf(),
            r.spec_mappings() == Seq::<MidiMappingView>::empty(),
    {
        let r = MidiPluginBridge { mappings: Vec::new() };
        assert(r.spec_mappings() =~= Seq::<MidiMappingView>::empty());
        r
    }

    /// The position of the mapping of controller `cc`, if any.
    fn find_controller(&self, cc: u8) -> (r: Option<usize>)
        ensures
            match r {
                Some(i) => i < self.mappings@.len() && self.spec_mappings()[i as int].cc_number == cc,
                None => !has_controller(self.spec_mappings(), cc),
            },
    {
        let mut i: usize = 0;
        while i < self.mappings.len()
            invariant
                i <= self.mappings@.len(),
                forall|j: int| 0 <= j < i ==> #[trigger] self.spec_mappings()[j].cc_number != cc,
            decreases self.mappings@.len() - i,
        {
            assert(self.spec_mappings()[i as int] == self.mappings@[i as int]@);
            if self.mappings[i].cc_number == cc {
                return Some(i);
            }
            i = i + 1;
        }
        None
    }

    /// Maps the mapping's controller to its parameter, replacing an earlier
    /// mapping of that controller.
    pub fn add_mapping(&mut self, mapping: MidiMapping) -> (r: Result<(), PluginError>)
        requires
            old(self).wf(),
        ensures
            r is Ok,
            final(self).wf(),
            final(self).spec_mappings() == mapping_insert(old(self).spec_mappings(), mapping@),
    {
        let ghost before = self.spec_mappings();
        let ghost m = mapping@;
        proof {
            law_latest_mapping_wins(before, m);
        }
        match self.find_controller(mapping.cc_number) {
            Some(i) => {
                proof {
                    let k = controller_index(before, m.cc_number);
                    assert(before[k].cc_number == m.cc_number);
                    assert(k == i);
                }
                self.mappings.set(i, mapping);
                assert(self.spec_mappings() =~= mapping_insert(before, m));
            },
            None => {
                self.mappings.push(mapping);
                assert(self.spec_mappings() =~= mapping_insert(before, m));
            },
        }
        Ok(())
    }

    /// Removes the mapping of controller `cc_number`, if any.
    pub fn remove_mapping(&mut self, cc_number: u8) -> (r: Result<(), PluginError>)
        requires
            old(self).wf(),
        ensures
            r is Ok,
            final(self).wf(),
            final(self).spec_mappings() == mapping_remove(old(self).spec_mappings(), cc_number),
    {
        let ghost before = self.spec_mappings();
        if let Some(i) = self.find_controller(cc_number) {
            proof {
                let k = controller_index(before, cc_number);
                assert(before[k].cc_number == cc_number);
                assert(k == i);
            }
            self.mappings.remove(i);
            assert(self.spec_mappings() =~= mapping_remove(before, cc_number));
        }
        Ok(())
    }

    /// Copies of all mappings, in table order.
    pub fn get_mappings(&self) -> (r: Vec<MidiMapping>)
        ensures
            mappings_view(r@) == self.spec_mappings(),
    {
        let mut r: Vec<MidiMapping> = Vec::new();
        let mut i: usize = 0;
        while i < self.mappings.len()
            invariant
                i <= self.mappings@.len(),
                mappings_view(r@) == self.spec_mappings().take(i as int),
            decreases self.mappings@.len() - i,
        {
            let ghost before = r@;
            let m = self.mappings[i].duplicate();
            r.push(m);
            proof {
                assert(mappings_view(r@) =~= mappings_view(before).push(self.mappings@[i as int]@));
                assert(self.spec_mappings().take(i + 1) =~= self.spec_mappings().take(i as int).push(
                    self.spec_mappings()[i as int],
                ));
            }
            i = i + 1;
        }
        assert(self.spec_mappings().take(i as int) =~= self.spec_mappings());
        r
    }

    /// Where an incoming MIDI event goes: a mapped controller sets its
    /// parameter, an unmapped one does nothing, any other event is forwarded.
    pub fn process_midi_input(&self, midi_event: &MidiEventTimed) -> (r: MidiRoute)
        requires
            self.wf(),
        ensures
            r == spec_route(self.spec_mappings(), *midi_event),
    {
        match midi_event.event {
            MidiEvent::ControlChange { controller, value } => {
                match self.find_controller(controller) {
                    Some(i) => {
                        let ghost ms = self.spec_mappings();
                        proof {
                            let k = controller_index(ms, controller);
                            assert(ms[k].cc_number == controller);
                            assert(k == i);
                            assert(ms[i as int] == self.mappings@[i as int]@);
                        }
                        let m = &self.mappings[i];
                        MidiRoute::SetParameter {
                            plugin_instance_id: m.plugin_instance_id,
                            parameter_index: m.parameter_index,
                            value,
                            min_value_bits: m.min_value_bits,
                            max_value_bits: m.max_value_bits,
                        }
                    },
                    None => MidiRoute::Unmapped,
                }
            },
            _ => MidiRoute::Forward(*midi_event),
        }
    }

    /// Maps eight common parameters of a plugin (volume, pan, cutoff,
    /// resonance, attack, decay, sustain, release, in this order) to the
    /// controllers from `start_cc` on, over their full range; returns the
    /// new mappings.
    pub fn auto_map_plugin(&mut self, instance_id: PluginInstanceId, start_cc: u8) -> (r: Result<
        Vec<MidiMapping>,
        PluginError,
    >)
        requires
            old(self).wf(),
            start_cc + AUTO_MAPPED <= 256,
        ensures
            final(self).wf(),
            r matches Ok(v) && mappings_view(v@) == auto_mappings(instance_id, start_cc),
            final(self).spec_mappings() == mapping_insert_all(
                old(self).spec_mappings(),
                auto_mappings(instance_id, start_cc),
            ),
    {
        let ghost all = auto_mappings(instance_id, start_cc);
        let ghost start = self.spec_mappings();
        let mut made: Vec<MidiMapping> = Vec::new();
        let mut i: u8 = 0;
        while i < AUTO_MAPPED
            invariant
                i <= AUTO_MAPPED,
                start_cc + AUTO_MAPPED <= 256,
                all == auto_mappings(instance_id, start_cc),
                self.wf(),
                mappings_view(made@) == all.take(i as int),
                self.spec_mappings() == mapping_insert_all(start, all.take(i as int)),
            decreases AUTO_MAPPED - i,
        {
            let name = auto_parameter_name(i);
            let mapping = MidiMapping {
                cc_number: start_cc + i,
                plugin_instance_id: instance_id,
                parameter_index: i as u32,
                name: name.to_owned(),
                min_value_bits: ZERO_BITS,
                max_value_bits: ONE_BITS,
            };
            let ghost before = made@;
            proof {
                assert(mapping@ == all[i as int]);
                assert(all.take(i + 1).drop_last() =~= all.take(i as int));
                assert(all.take(i + 1).last() == all[i as int]);
            }
            made.push(mapping.duplicate());
            self.add_mapping(mapping)?;
            proof {
                assert(mappings_view(made@) =~= mappings_view(before).push(all[i as int]));
                assert(all.take(i + 1) =~= all.take(i as int).push(all[i as int]));
            }
            i = i + 1;
        }
        assert(all.take(AUTO_MAPPED as int) =~= all);
        Ok(made)
    }
}

/// Routing: every event that is not a control change goes to the plugins
/// unchanged; a control change of a mapped controller sets that mapping's
/// parameter, carrying the controller value and the mapping's range; a
/// control change of an unmapped controller does nothing.
pub proof fn law_routing(ms: Seq<MidiMappingView>, e: MidiEventTimed, i: int)
    ensures
        !(e.event is ControlChange) ==> spec_route(ms, e) == MidiRoute::Forward(e),
        controllers_unique(ms) && 0 <= i < ms.len() ==> match e.event {
            MidiEvent::ControlChange { controller, value } => controller == ms[i].cc_number
                ==> spec_route(ms, e) == (MidiRoute::SetParameter {
                plugin_instance_id: ms[i].plugin_instance_id,
                parameter_index: ms[i].parameter_index,
                value,
                min_value_bits: ms[i].min_value_bits,
                max_value_bits: ms[i].max_value_bits,
            }),
            _ => true,
        },
        match e.event {
            MidiEvent::ControlChange { controller, value } => (forall|j: int|
                0 <= j < ms.len() ==> #[trigger] ms[j].cc_number != controller) ==> spec_route(ms, e)
                == MidiRoute::Unmapped,
            _ => true,
        },
{
    if controllers_unique(ms) && 0 <= i < ms.len() {
        match e.event {
            MidiEvent::ControlChange { controller, value } => {
                if controller == ms[i].cc_number {
                    assert(has_controller(ms, controller));
                    let k = controller_index(ms, controller);
                    assert(ms[k].cc_number == controller);
                    assert(k == i);
                }
            },
            _ => {},
        }
    }
}

} // verus!
