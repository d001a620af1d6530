//! What the library makes of a CLAP plugin: its category, its descriptor,
//! the features it supports and whether its CLAP version can be hosted.

use crate::plugin::clap_ffi::clap_version;
use crate::plugin::error::PluginError;
use crate::plugin::parameters::{
    new_descriptor_view, PluginCategory, PluginDescriptor, PluginDescriptorView,
};
use crate::text::{contains_text, decimal, push_decimal, push_str, text_contains};
use vstd::prelude::*;

verus! {

/// The category that one feature string names, if any.
pub open spec fn category_of_feature(f: Seq<char>) -> Option<PluginCategory> {
    if f == "instrument"@ || f == "synthesizer"@ {
        Some(PluginCategory::Instrument)
    } else if f == "audio-effect"@ || f == "effect"@ {
        Some(PluginCategory::Effect)
    } else if f == "analyzer"@ {
        Some(PluginCategory::Analyzer)
    } else {
        None
    }
}

/// The category named by the first feature that names one; effect when none does.
pub open spec fn spec_infer_category(features: Seq<Seq<char>>) -> PluginCategory
    decreases features.len(),
{
    if features.len() == 0 {
        PluginCategory::Effect
    } else {
        match category_of_feature(features[0]) {
            Some(c) => c,
            None => spec_infer_category(features.drop_first()),
        }
    }
}

/// The view of a list of strings.
pub open spec fn strings_view(v: Seq<String>) -> Seq<Seq<char>> {
    v.map_values(|s: String| s@)
}

/// Infers the plugin category from its CLAP feature strings.
pub fn infer_category_from_features(features: &[String]) -> (r: PluginCategory)
    ensures
        r == spec_infer_category(strings_view(features@)),
{
    let instrument = String::from_str("instrument");
    let synthesizer = String::from_str("synthesizer");
    let audio_effect = String::from_str("audio-effect");
    let effect = String::from_str("effect");
    let analyzer = String::from_str("analyzer");
    let ghost all = strings_view(features@);
    let n = features.len();
    let mut i: usize = 0;
    assert(all.skip(0) =~= all);
    while i < n
        invariant
            n == features@.len(),
            all == strings_view(features@),
            instrument@ == "instrument"@,
            synthesizer@ == "synthesizer"@,
            audio_effect@ == "audio-effect"@,
            effect@ == "effect"@,
            analyzer@ == "analyzer"@,
            i <= n,
            spec_infer_category(all) == spec_infer_category(all.skip(i as int)),
        decreases n - i,
    {
        let f = &features[i];
        assert(all.skip(i as int)[0] == f@);
        assert(all.skip(i as int).drop_first() =~= all.skip(i + 1));
        if *f == instrument || *f == synthesizer {
            return PluginCategory::Instrument;
        }
        if *f == audio_effect || *f == effect {
            return PluginCategory::Effect;
        }
        if *f == analyzer {
            return PluginCategory::Analyzer;
        }
        i = i + 1;
    }
    assert(all.skip(n as int).len() == 0);
    PluginCategory::Effect
}

/// Whether some feature string contains `part`.
pub open spec fn some_feature_contains(features: Seq<Seq<char>>, part: Seq<char>) -> bool {
    exists|i: int| 0 <= i < features.len() && contains_text(#[trigger] features[i], part)
}

/// Whether some feature string contains `part`, checking them in order.
fn any_feature_contains(features: &[String], part: &str) -> (r: bool)
    ensures
        r == some_feature_contains(strings_view(features@), part@),
{
    let ghost all = strings_view(features@);
    let mut i: usize = 0;
    while i < features.len()
        invariant
            i <= features@.len(),
            all == strings_view(features@),
            forall|j: int| 0 <= j < i ==> !contains_text(#[trigger] all[j], part@),
        decreases features@.len() - i,
    {
        assert(all[i as int] == features@[i as int]@);
        if text_contains(features[i].as_str(), part) {
            return true;
        }
        i = i + 1;
    }
    false
}

/// The value of an optional text, or `default` when it is absent.
pub open spec fn text_or(t: Option<String>, default: Seq<char>) -> Seq<char> {
    match t {
        Some(s) => s@,
        None => default,
    }
}

/// The descriptor built from the strings of a CLAP descriptor: identity and
/// file as given; version, vendor and description as given or "1.0.0",
/// "Unknown" and empty; category inferred from the features; state and GUI
/// support when some feature mentions "state" or "gui"; the rest as
/// `PluginDescriptor::new` leaves it.
pub open spec fn clap_descriptor_view(
    id: Seq<char>,
    name: Seq<char>,
    vendor: Option<String>,
    version: Option<String>,
    description: Option<String>,
    features: Seq<Seq<char>>,
    file_path: Seq<char>,
) -> PluginDescriptorView {
    PluginDescriptorView {
        version: text_or(version, "1.0.0"@),
        vendor: text_or(vendor, "Unknown"@),
        description: text_or(description, Seq::empty()),
        category: spec_infer_category(features),
        supports_state: some_feature_contains(features, "state"@),
        supports_gui: some_feature_contains(features, "gui"@),
        ..new_descriptor_view(id, name, file_path)
    }
}

/// The text of `t`, or a new string holding `default`.
fn unwrap_text(t: Option<String>, default: &str) -> (r: String)
    ensures
        r@ == text_or(t, default@),
{
    match t {
        Some(s) => s,
        None => default.to_owned(),
    }
}

/// Builds the descriptor of a CLAP plugin from the strings of its C
/// descriptor (each absent when the C pointer was null or not UTF-8).
/// A plugin without identifier or name cannot be described.
pub fn convert_clap_descriptor(
    id: Option<String>,
    name: Option<String>,
    vendor: Option<String>,
    version: Option<String>,
    description: Option<String>,
    features: &[String],
    file_path: String,
) -> (r: Result<PluginDescriptor, PluginError>)
    ensures
        id is None ==> (r matches Err(PluginError::LoadFailed(m)) && m@ == "Invalid plugin ID"@),
        id is Some && name is None ==> (r matches Err(PluginError::LoadFailed(m)) && m@
            == "Invalid plugin name"@),
        id is Some && name is Some ==> (r matches Ok(d) && d@ == clap_descriptor_view(
            id->0@,
            name->0@,
            vendor,
            version,
            description,
            strings_view(features@),
            file_path@,
        )),
{
    let id = match id {
        Some(s) => s,
        None => {
            return Err(PluginError::LoadFailed(String::from_str("Invalid plugin ID")));
        },
    };
    let name = match name {
        Some(s) => s,
        None => {
            return Err(PluginError::LoadFailed(String::from_str("Invalid plugin name")));
        },
    };
    let ghost old_vendor = vendor;
    let ghost old_version = version;
    let ghost old_description = description;
    let vendor = unwrap_text(vendor, "Unknown");
    let version = unwrap_text(version, "1.0.0");
    let description = unwrap_text(description, "");
    let category = infer_category_from_features(features);
    let mut descriptor = PluginDescriptor::new(id, name, file_path).with_version(
        version,
    ).with_vendor(vendor).with_description(description).with_category(category);
    descriptor.supports_state = any_feature_contains(features, "state");
    descriptor.supports_gui = any_feature_contains(features, "gui");
    proof {
        reveal_strlit("");
        assert(descriptor@.version == text_or(old_version, "1.0.0"@));
        assert(descriptor@.vendor == text_or(old_vendor, "Unknown"@));
        assert(descriptor@.description == text_or(old_description, Seq::empty()));
        assert(descriptor@.id == id@);
        assert(descriptor@.audio_inputs == Seq::<crate::plugin::parameters::AudioPortView>::empty());
    }
    Ok(descriptor)
}

/// Whether a CLAP plugin with this descriptor supports a feature: audio
/// always, MIDI never, parameters when one has a non-empty identifier,
/// state and GUI as the descriptor says, nothing else.
pub open spec fn spec_supports_feature(d: PluginDescriptorView, feature: Seq<char>) -> bool {
    if feature == "audio"@ {
        true
    } else if feature == "midi"@ {
        false
    } else if feature == "parameters"@ {
        exists|i: int| 0 <= i < d.parameters.len() && #[trigger] d.parameters[i].id.len() > 0
    } else if feature == "state"@ {
        d.supports_state
    } else if feature == "gui"@ {
        d.supports_gui
    } else {
        false
    }
}

/// Whether some parameter of the descriptor has a non-empty identifier.
fn has_identified_parameter(descriptor: &PluginDescriptor) -> (r: bool)
    ensures
        r == exists|i: int|
            0 <= i < descriptor@.parameters.len() && #[trigger] descriptor@.parameters[i].id.len() > 0,
{
    let mut i: usize = 0;
    while i < descriptor.parameters.len()
        invariant
            i <= descriptor.parameters.len(),
            forall|j: int| 0 <= j < i ==> #[trigger] descriptor@.parameters[j].id.len() == 0,
        decreases descriptor.parameters.len() - i,
    {
        assert(descriptor@.parameters[i as int] == descriptor.parameters@[i as int]@);
        if !descriptor.parameters[i].id.as_str().is_empty() {
            assert(descriptor@.parameters[i as int].id.len() > 0);
            return true;
        }
        i = i + 1;
    }
    false
}

/// Whether the plugin that `descriptor` describes supports `feature`.
pub fn supports_feature(descriptor: &PluginDescriptor, feature: &str) -> (r: bool)
    ensures
        r == spec_supports_feature(descriptor@, feature@),
{
    let f = feature.to_owned();
    if f == String::from_str("audio") {
        true
    } else if f == String::from_str("midi") {
        false
    } else if f == String::from_str("parameters") {
        has_identified_parameter(descriptor)
    } else if f == String::from_str("state") {
        descriptor.supports_state
    } else if f == String::from_str("gui") {
        descriptor.supports_gui
    } else {
        false
    }
}

/// The message refusing a CLAP version other than 1.x.
pub open spec fn incompatible_version_message(v: clap_version) -> Seq<char> {
    "Incompatible CLAP version: "@ + decimal(v.major as nat) + "."@ + decimal(v.minor as nat) + "."@
        + decimal(v.revision as nat)
}

/// Accepts a plugin entry's CLAP version when it is compatible with CLAP
/// 1.0.0 (same major number); refuses it with its number otherwise.
pub fn check_clap_version(version: &clap_version) -> (r: Result<(), PluginError>)
    ensures
        version.major == 1 <==> r is Ok,
        r matches Err(e) ==> (e matches PluginError::LoadFailed(m) && m@
            == incompatible_version_message(*version)),
{
    if version.is_compatible(&clap_version::clap_1_0_0()) {
        return Ok(());
    }
    let mut m = String::from_str("Incompatible CLAP version: ");
    push_decimal(&mut m, version.major as u64);
    push_str(&mut m, ".");
    push_decimal(&mut m, version.minor as u64);
    push_str(&mut m, ".");
    push_decimal(&mut m, version.revision as u64);
    proof {
        reveal_strlit(".");
    }
    Err(PluginError::LoadFailed(m))
}

/// Placeholder host for CLAP plugins.
#[derive(Default)]
pub struct ClapHost;

/// The category of a plugin comes from the first feature that names one:
/// "instrument" and "synthesizer" make an instrument, "audio-effect" and
/// "effect" an effect, "analyzer" an analyzer, whatever features follow;
/// a feature that names no category is passed over; and a plugin whose
/// features name none is an effect.
pub proof fn law_category_from_features(f: Seq<char>, rest: Seq<Seq<char>>)
    ensures
        spec_infer_category(seq!["instrument"@] + rest) == PluginCategory::Instrument,
        spec_infer_category(seq!["synthesizer"@] + rest) == PluginCategory::Instrument,
        spec_infer_category(seq!["audio-effect"@] + rest) == PluginCategory::Effect,
        spec_infer_category(seq!["effect"@] + rest) == PluginCategory::Effect,
        spec_infer_category(seq!["analyzer"@] + rest) == PluginCategory::Analyzer,
        !(f == "instrument"@ || f == "synthesizer"@ || f == "audio-effect"@ || f == "effect"@ || f
            == "analyzer"@) ==> spec_infer_category(seq![f] + rest) == spec_infer_category(rest),
        spec_infer_category(Seq::<Seq<char>>::empty()) == PluginCategory::Effect,
{
    reveal_strlit("instrument");
    reveal_strlit("synthesizer");
    reveal_strlit("audio-effect");
    reveal_strlit("effect");
    reveal_strlit("analyzer");
    assert("instrument"@.len() != "synthesizer"@.len());
    assert("audio-effect"@.len() != "instrument"@.len());
    assert("audio-effect"@.len() != "synthesizer"@.len());
    assert("effect"@.len() != "instrument"@.len());
    assert("effect"@.len() != "synthesizer"@.len());
    assert("analyzer"@.len() != "instrument"@.len());
    assert("analyzer"@.len() != "synthesizer"@.len());
    assert("analyzer"@.len() != "audio-effect"@.len());
    assert("analyzer"@.len() != "effect"@.len());
    let names: Seq<Seq<char>> = seq!["instrument"@, "synthesizer"@, "audio-effect"@, "effect"@, "analyzer"@];
    assert forall|i: int| 0 <= i < names.len() implies (seq![names[i]] + rest)[0] == names[i] && (seq![
        names[i],
    ] + rest).drop_first() == rest by {
        assert((seq![names[i]] + rest).drop_first() =~= rest);
    }
    assert((seq!["instrument"@] + rest)[0] == "instrument"@);
    assert((seq!["synthesizer"@] + rest)[0] == "synthesizer"@);
    assert((seq!["audio-effect"@] + rest)[0] == "audio-effect"@);
    assert((seq!["effect"@] + rest)[0] == "effect"@);
    assert((seq!["analyzer"@] + rest)[0] == "analyzer"@);
    assert((seq![f] + rest)[0] == f);
    assert((seq![f] + rest).drop_first() =~= rest);
}

} // verus!
