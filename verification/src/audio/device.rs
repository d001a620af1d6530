//! Descriptions of audio output devices.

use crate::text::{decimal, push_decimal, push_str};
use vstd::prelude::*;

verus! {

/// An audio output device as shown to the user.
#[derive(Clone, Debug)]
pub struct AudioDeviceInfo {
    pub id: String,
    pub name: String,
    pub is_default: bool,
}

/// The view of device descriptions: id, name, default flag.
pub open spec fn audio_infos_view(v: Seq<AudioDeviceInfo>) -> Seq<(Seq<char>, Seq<char>, bool)> {
    v.map_values(|d: AudioDeviceInfo| (d.id@, d.name@, d.is_default))
}

/// The descriptions of the devices whose names could be read, in order:
/// device number `i` gets the id `audio_out_<i>`, and is the default when
/// its name is the default device's name.
pub open spec fn audio_infos_of(names: Seq<Option<Seq<char>>>, default_name: Seq<char>) -> Seq<
    (Seq<char>, Seq<char>, bool),
>
    decreases names.len(),
{
    if names.len() == 0 {
        seq![]
    } else {
        let rest = audio_infos_of(names.drop_last(), default_name);
        match names.last() {
            Some(n) => rest.push(
                ("audio_out_"@ + decimal((names.len() - 1) as nat), n, n == default_name),
            ),
            None => rest,
        }
    }
}

/// The view of names that may be missing.
pub open spec fn opt_names_view(v: Seq<Option<String>>) -> Seq<Option<Seq<char>>> {
    v.map_values(
        |o: Option<String>|
            match o {
                Some(s) => Some(s@),
                None => None,
            },
    )
}

/// Describes the output devices, given each device's name (`None` where it
/// could not be read) and the default device's name (empty when unknown).
pub fn describe_output_devices(names: &Vec<Option<String>>, default_name: &str) -> (r: Vec<
    AudioDeviceInfo,
>)
    ensures
        audio_infos_view(r@) == audio_infos_of(opt_names_view(names@), default_name@),
{
    let mut devices: Vec<AudioDeviceInfo> = Vec::new();
    let default_owned = default_name.to_owned();
    let ghost all = opt_names_view(names@);
    let n = names.len();
    let mut i: usize = 0;
    while i < n
        invariant
            n == names.len(),
            all == opt_names_view(names@),
            default_owned@ == default_name@,
            i <= n,
            audio_infos_view(devices@) == audio_infos_of(all.take(i as int), default_name@),
        decreases n - i,
    {
        proof {
            assert(all.take(i + 1).drop_last() =~= all.take(i as int));
            assert(all.take(i + 1).len() == i + 1);
        }
        match &names[i] {
            Some(name) => {
                let mut id = String::new();
                push_str(&mut id, "audio_out_");
                push_decimal(&mut id, i as u64);
                let is_default = *name == default_owned;
                devices.push(AudioDeviceInfo { id, name: name.clone(), is_default });
            },
            None => {},
        }
        assert(audio_infos_view(devices@) =~= audio_infos_of(all.take(i + 1), default_name@));
        i = i + 1;
    }
    assert(all.take(n as int) =~= all);
    devices
}

} // verus!
