//! Descriptions of MIDI input ports.

use crate::audio::device::opt_names_view;
use crate::text::{decimal, push_decimal, push_str};
use vstd::prelude::*;

verus! {

/// A MIDI input port as shown to the user.
#[derive(Clone, Debug)]
pub struct MidiDeviceInfo {
    pub id: String,
    pub name: String,
    pub is_default: bool,
}

/// Lists and opens MIDI input ports.
pub struct MidiDeviceManager;

/// The view of port descriptions: id, name, default flag.
pub open spec fn midi_infos_view(v: Seq<MidiDeviceInfo>) -> Seq<(Seq<char>, Seq<char>, bool)> {
    v.map_values(|d: MidiDeviceInfo| (d.id@, d.name@, d.is_default))
}

/// The descriptions of the ports whose names could be read, in order:
/// port number `i` gets the id `midi_in_<i>`; the first port is the default.
pub open spec fn midi_infos_of(names: Seq<Option<Seq<char>>>) -> Seq<(Seq<char>, Seq<char>, bool)>
    decreases names.len(),
{
    if names.len() == 0 {
        seq![]
    } else {
        let rest = midi_infos_of(names.drop_last());
        match names.last() {
            Some(n) => rest.push(
                ("midi_in_"@ + decimal((names.len() - 1) as nat), n, names.len() - 1 == 0),
            ),
            None => rest,
        }
    }
}

impl MidiDeviceManager {
    pub fn new() -> (r: Self) {
        Self
    }

    /// Describes the input ports, given each port's name (`None` where it
    /// could not be read).
    pub fn describe_input_ports(&self, names: &Vec<Option<String>>) -> (r: Vec<MidiDeviceInfo>)
        ensures
            midi_infos_view(r@) == midi_infos_of(opt_names_view(names@)),
    {
        let mut devices: Vec<MidiDeviceInfo> = Vec::new();
        let ghost all = opt_names_view(names@);
        let n = names.len();
        let mut i: usize = 0;
        while i < n
            invariant
                n == names.len(),
                all == opt_names_view(names@),
                i <= n,
                midi_infos_view(devices@) == midi_infos_of(all.take(i as int)),
            decreases n - i,
        {
            proof {
                assert(all.take(i + 1).drop_last() =~= all.take(i as int));
                assert(all.take(i + 1).len() == i + 1);
            }
            match &names[i] {
                Some(name) => {
                    let mut id = String::new();
                    push_str(&mut id, "midi_in_");
                    push_decimal(&mut id, i as u64);
                    devices.push(MidiDeviceInfo { id, name: name.clone(), is_default: i == 0 });
                },
                None => {},
            }
            assert(midi_infos_view(devices@) =~= midi_infos_of(all.take(i + 1)));
            i = i + 1;
        }
        assert(all.take(n as int) =~= all);
        devices
    }
}

impl Default for MidiDeviceManager {
    fn default() -> (r: Self) {
        Self::new()
    }
}

} // verus!
