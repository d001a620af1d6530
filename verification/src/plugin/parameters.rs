//! Plugin metadata types: categories, audio ports, parameters and the
//! descriptor that gathers them.
//!
//! Parameter values are IEEE-754 doubles; the library carries them as
//! their bit patterns (`f64::to_bits`), which callers convert.

use vstd::prelude::*;

verus! {

/// Plugin category for classification.
#[derive(Debug, Clone, Copy, PartialEq, Eq, Structural)]
pub enum PluginCategory {
    Instrument,
    Effect,
    Analyzer,
    Generator,
    Drum,
    Modulator,
    Spatial,
    Spacializer,
    Utility,
    Other,
}

/// Audio port information.
#[derive(Debug, Clone)]
pub struct AudioPortInfo {
    pub id: String,
    pub name: String,
    pub channel_count: u32,
    pub is_main: bool,
}

/// What an audio port describes, as plain values.
pub ghost struct AudioPortView {
    pub id: Seq<char>,
    pub name: Seq<char>,
    pub channel_count: u32,
    pub is_main: bool,
}

impl View for AudioPortInfo {
    type V = AudioPortView;

    open spec fn view(&self) -> AudioPortView {
        AudioPortView {
            id: self.id@,
            name: self.name@,
            channel_count: self.channel_count,
            is_main: self.is_main,
        }
    }
}

impl AudioPortInfo {
    /// A copy of this port.
    pub fn duplicate(&self) -> (r: Self)
        ensures
            r@ == self@,
    {
        AudioPortInfo {
            id: self.id.clone(),
            name: self.name.clone(),
            channel_count: self.channel_count,
            is_main: self.is_main,
        }
    }
}

/// Scale of a plugin parameter.
#[derive(Debug, Clone, Copy)]
pub enum ParameterType {
    Linear,
    Logarithmic,
    Enum,
}

/// Plugin parameter; the four values are bit patterns of `f64`.
#[derive(Debug, Clone)]
pub struct PluginParameter {
    pub id: String,
    pub name: String,
    pub value_bits: u64,
    pub default_value_bits: u64,
    pub min_value_bits: u64,
    pub max_value_bits: u64,
    pub is_automatable: bool,
    pub parameter_type: ParameterType,
}

/// What a parameter describes, as plain values.
pub ghost struct PluginParameterView {
    pub id: Seq<char>,
    pub name: Seq<char>,
    pub value_bits: u64,
    pub default_value_bits: u64,
    pub min_value_bits: u64,
    pub max_value_bits: u64,
    pub is_automatable: bool,
    pub parameter_type: ParameterType,
}

impl View for PluginParameter {
    type V = PluginParameterView;

    open spec fn view(&self) -> PluginParameterView {
        PluginParameterView {
            id: self.id@,
            name: self.name@,
            value_bits: self.value_bits,
            default_value_bits: self.default_value_bits,
            min_value_bits: self.min_value_bits,
            max_value_bits: self.max_value_bits,
            is_automatable: self.is_automatable,
            parameter_type: self.parameter_type,
        }
    }
}

impl PluginParameter {
    /// A copy of this parameter.
    pub fn duplicate(&self) -> (r: Self)
        ensures
            r@ == self@,
    {
        PluginParameter {
            id: self.id.clone(),
            name: self.name.clone(),
            value_bits: self.value_bits,
            default_value_bits: self.default_value_bits,
            min_value_bits: self.min_value_bits,
            max_value_bits: self.max_value_bits,
            is_automatable: self.is_automatable,
            parameter_type: self.parameter_type,
        }
    }
}

/// The views of a list of ports.
pub open spec fn ports_view(s: Seq<AudioPortInfo>) -> Seq<AudioPortView> {
    s.map_values(|p: AudioPortInfo| p@)
}

/// The views of a list of parameters.
pub open spec fn parameters_view(s: Seq<PluginParameter>) -> Seq<PluginParameterView> {
    s.map_values(|p: PluginParameter| p@)
}

/// A copy of a list of ports.
pub fn duplicate_ports(v: &Vec<AudioPortInfo>) -> (r: Vec<AudioPortInfo>)
    ensures
        ports_view(r@) == ports_view(v@),
{
    let mut r: Vec<AudioPortInfo> = Vec::new();
    let mut i: usize = 0;
    while i < v.len()
        invariant
            i <= v.len(),
            ports_view(r@) == ports_view(v@.take(i as int)),
        decreases v.len() - i,
    {
        let ghost before = r@;
        let d = v[i].duplicate();
        r.push(d);
        proof {
            assert(v@.take(i + 1) =~= v@.take(i as int).push(v@[i as int]));
            assert(ports_view(r@) =~= ports_view(before).push(v@[i as int]@));
            assert(ports_view(v@.take(i + 1)) =~= ports_view(v@.take(i as int)).push(v@[i as int]@));
        }
        i = i + 1;
    }
    assert(v@.take(v.len() as int) =~= v@);
    r
}

/// A copy of a list of parameters.
pub fn duplicate_parameters(v: &Vec<PluginParameter>) -> (r: Vec<PluginParameter>)
    ensures
        parameters_view(r@) == parameters_view(v@),
{
    let mut r: Vec<PluginParameter> = Vec::new();
    let mut i: usize = 0;
    while i < v.len()
        invariant
            i <= v.len(),
            parameters_view(r@) == parameters_view(v@.take(i as int)),
        decreases v.len() - i,
    {
        let ghost before = r@;
        let d = v[i].duplicate();
        r.push(d);
        proof {
            assert(v@.take(i + 1) =~= v@.take(i as int).push(v@[i as int]));
            assert(parameters_view(r@) =~= parameters_view(before).push(v@[i as int]@));
            assert(parameters_view(v@.take(i + 1)) =~= parameters_view(v@.take(i as int)).push(v@[i as int]@));
        }
        i = i + 1;
    }
    assert(v@.take(v.len() as int) =~= v@);
    r
}

/// Plugin descriptor: identity, category, ports, parameters and supported
/// extensions of a plugin, with the path of the file it was loaded from.
#[derive(Debug, Clone)]
pub struct PluginDescriptor {
    pub id: String,
    pub name: String,
    pub version: String,
    pub vendor: String,
    pub description: String,
    pub url: String,
    pub category: PluginCategory,
    pub audio_inputs: Vec<AudioPortInfo>,
    pub audio_outputs: Vec<AudioPortInfo>,
    pub parameters: Vec<PluginParameter>,
    pub supports_dsp: bool,
    pub supports_gui: bool,
    pub supports_state: bool,
    pub file_path: String,
}

/// What a descriptor describes, as plain values.
pub ghost struct PluginDescriptorView {
    pub id: Seq<char>,
    pub name: Seq<char>,
    pub version: Seq<char>,
    pub vendor: Seq<char>,
    pub description: Seq<char>,
    pub url: Seq<char>,
    pub category: PluginCategory,
    pub audio_inputs: Seq<AudioPortView>,
    pub audio_outputs: Seq<AudioPortView>,
    pub parameters: Seq<PluginParameterView>,
    pub supports_dsp: bool,
    pub supports_gui: bool,
    pub supports_state: bool,
    pub file_path: Seq<char>,
}

impl View for PluginDescriptor {
    type V = PluginDescriptorView;

    open spec fn view(&self) -> PluginDescriptorView {
        PluginDescriptorView {
            id: self.id@,
            name: self.name@,
            version: self.version@,
            vendor: self.vendor@,
            description: self.description@,
            url: self.url@,
            category: self.category,
            audio_inputs: ports_view(self.audio_inputs@),
            audio_outputs: ports_view(self.audio_outputs@),
            parameters: parameters_view(self.parameters@),
            supports_dsp: self.supports_dsp,
            supports_gui: self.supports_gui,
            supports_state: self.supports_state,
            file_path: self.file_path@,
        }
    }
}

/// The descriptor that `PluginDescriptor::new` builds: version "1.0.0",
/// vendor "Unknown", no description or URL, category `Other`, no ports or
/// parameters, DSP supported, no GUI or state support.
pub open spec fn new_descriptor_view(id: Seq<char>, name: Seq<char>, file_path: Seq<char>) -> PluginDescriptorView {
    PluginDescriptorView {
        id,
        name,
        version: "1.0.0"@,
        vendor: "Unknown"@,
        description: Seq::empty(),
        url: Seq::empty(),
        category: PluginCategory::Other,
        audio_inputs: Seq::empty(),
        audio_outputs: Seq::empty(),
        parameters: Seq::empty(),
        supports_dsp: true,
        supports_gui: false,
        supports_state: false,
        file_path,
    }
}

/// The position of the first parameter with identifier `id` (the length of
/// the list when there is none).
pub open spec fn parameter_position(s: Seq<PluginParameterView>, id: Seq<char>) -> int
    decreases s.len(),
{
    if s.len() == 0 {
        0
    } else if s[0].id == id {
        0
    } else {
        1 + parameter_position(s.drop_first(), id)
    }
}

/// `parameter_position` lies in `0..=len`, names a parameter with that
/// identifier when below the length, and no earlier parameter has it.
pub proof fn lemma_parameter_position(s: Seq<PluginParameterView>, id: Seq<char>)
    ensures
        0 <= parameter_position(s, id) <= s.len(),
        parameter_position(s, id) < s.len() ==> s[parameter_position(s, id)].id == id,
        forall|j: int| 0 <= j < parameter_position(s, id) ==> s[j].id != id,
    decreases s.len(),
{
    if s.len() > 0 && s[0].id != id {
        lemma_parameter_position(s.drop_first(), id);
        assert forall|j: int| 0 <= j < parameter_position(s, id) implies s[j].id != id by {
            if j > 0 {
                assert(s[j] == s.drop_first()[j - 1]);
            }
        }
    }
}

/// The position of the first parameter that has identifier `id`, scanning
/// the list from the front.
fn position_of_parameter(params: &Vec<PluginParameter>, id: &str) -> (r: usize)
    ensures
        r == parameter_position(parameters_view(params@), id@),
{
    let ghost s = parameters_view(params@);
    proof {
        lemma_parameter_position(s, id@);
    }
    let key = id.to_owned();
    let mut i: usize = 0;
    while i < params.len()
        invariant
            i <= params.len(),
            s == parameters_view(params@),
            key@ == id@,
            forall|j: int| 0 <= j < i ==> s[j].id != id@,
            0 <= parameter_position(s, id@) <= s.len(),
            parameter_position(s, id@) < s.len() ==> s[parameter_position(s, id@)].id == id@,
            forall|j: int| 0 <= j < parameter_position(s, id@) ==> s[j].id != id@,
        decreases params.len() - i,
    {
        assert(s[i as int] == params@[i as int]@);
        if params[i].id == key {
            return i;
        }
        i = i + 1;
    }
    i
}

impl PluginDescriptor {
    /// A descriptor with the given identity and file, and defaults elsewhere.
    pub fn new(id: String, name: String, file_path: String) -> (r: Self)
        ensures
            r@ == new_descriptor_view(id@, name@, file_path@),
    {
        let r = Self {
            id,
            name,
            version: String::from_str("1.0.0"),
            vendor: String::from_str("Unknown"),
            description: String::new(),
            url: String::new(),
            category: PluginCategory::Other,
            audio_inputs: Vec::new(),
            audio_outputs: Vec::new(),
            parameters: Vec::new(),
            supports_dsp: true,
            supports_gui: false,
            supports_state: false,
            file_path,
        };
        assert(ports_view(r.audio_inputs@) =~= Seq::empty());
        assert(ports_view(r.audio_outputs@) =~= Seq::empty());
        assert(parameters_view(r.parameters@) =~= Seq::empty());
        r
    }

    /// A copy of this descriptor.
    pub fn duplicate(&self) -> (r: Self)
        ensures
            r@ == self@,
    {
        Self {
            id: self.id.clone(),
            name: self.name.clone(),
            version: self.version.clone(),
            vendor: self.vendor.clone(),
            description: self.description.clone(),
            url: self.url.clone(),
            category: self.category,
            audio_inputs: duplicate_ports(&self.audio_inputs),
            audio_outputs: duplicate_ports(&self.audio_outputs),
            parameters: duplicate_parameters(&self.parameters),
            supports_dsp: self.supports_dsp,
            supports_gui: self.supports_gui,
            supports_state: self.supports_state,
            file_path: self.file_path.clone(),
        }
    }

    /// The same descriptor with another version.
    pub fn with_version(self, version: String) -> (r: Self)
        ensures
            r@ == (PluginDescriptorView { version: version@, ..self@ }),
    {
        let mut s = self;
        s.version = version;
        s
    }

    /// The same descriptor with another vendor.
    pub fn with_vendor(self, vendor: String) -> (r: Self)
        ensures
            r@ == (PluginDescriptorView { vendor: vendor@, ..self@ }),
    {
        let mut s = self;
        s.vendor = vendor;
        s
    }

    /// The same descriptor with another description.
    pub fn with_description(self, description: String) -> (r: Self)
        ensures
            r@ == (PluginDescriptorView { description: description@, ..self@ }),
    {
        let mut s = self;
        s.description = description;
        s
    }

    /// The same descriptor with another URL.
    pub fn with_url(self, url: String) -> (r: Self)
        ensures
            r@ == (PluginDescriptorView { url: url@, ..self@ }),
    {
        let mut s = self;
        s.url = url;
        s
    }

    /// The same descriptor with another category.
    pub fn with_category(self, category: PluginCategory) -> (r: Self)
        ensures
            r@ == (PluginDescriptorView { category, ..self@ }),
    {
        let mut s = self;
        s.category = category;
        s
    }

    /// The same descriptor with another file path.
    pub fn with_file_path(self, file_path: String) -> (r: Self)
        ensures
            r@ == (PluginDescriptorView { file_path: file_path@, ..self@ }),
    {
        let mut s = self;
        s.file_path = file_path;
        s
    }

    /// The same descriptor with one more audio input, after the others.
    pub fn with_audio_input(self, port: AudioPortInfo) -> (r: Self)
        ensures
            r@ == (PluginDescriptorView { audio_inputs: self@.audio_inputs.push(port@), ..self@ }),
    {
        let mut s = self;
        let ghost before = s.audio_inputs@;
        s.audio_inputs.push(port);
        assert(ports_view(s.audio_inputs@) =~= ports_view(before).push(port@));
        s
    }

    /// The same descriptor with one more audio output, after the others.
    pub fn with_audio_output(self, port: AudioPortInfo) -> (r: Self)
        ensures
            r@ == (PluginDescriptorView { audio_outputs: self@.audio_outputs.push(port@), ..self@ }),
    {
        let mut s = self;
        let ghost before = s.audio_outputs@;
        s.audio_outputs.push(port);
        assert(ports_view(s.audio_outputs@) =~= ports_view(before).push(port@));
        s
    }

    /// The same descriptor with one more parameter, after the others.
    pub fn with_parameter(self, parameter: PluginParameter) -> (r: Self)
        ensures
            r@ == (PluginDescriptorView { parameters: self@.parameters.push(parameter@), ..self@ }),
    {
        let mut s = self;
        let ghost before = s.parameters@;
        s.parameters.push(parameter);
        assert(parameters_view(s.parameters@) =~= parameters_view(before).push(parameter@));
        s
    }

    /// The same descriptor with DSP support set as given.
    pub fn with_dsp_support(self, supports: bool) -> (r: Self)
        ensures
            r@ == (PluginDescriptorView { supports_dsp: supports, ..self@ }),
    {
        let mut s = self;
        s.supports_dsp = supports;
        s
    }

    /// The same descriptor with GUI support set as given.
    pub fn with_gui_support(self, supports: bool) -> (r: Self)
        ensures
            r@ == (PluginDescriptorView { supports_gui: supports, ..self@ }),
    {
        let mut s = self;
        s.supports_gui = supports;
        s
    }

    /// The same descriptor with state support set as given.
    pub fn with_state_support(self, supports: bool) -> (r: Self)
        ensures
            r@ == (PluginDescriptorView { supports_state: supports, ..self@ }),
    {
        let mut s = self;
        s.supports_state = supports;
        s
    }

    /// The first parameter with identifier `id`, if any.
    pub fn find_parameter(&self, id: &str) -> (r: Option<&PluginParameter>)
        ensures
            ({
                let p = parameter_position(self@.parameters, id@);
                match r {
                    Some(q) => p < self@.parameters.len() && q@ == self@.parameters[p],
                    None => p == self@.parameters.len(),
                }
            }),
            r is None <==> forall|j: int|
                0 <= j < self@.parameters.len() ==> #[trigger] self@.parameters[j].id != id@,
    {
        proof {
            lemma_parameter_position(self@.parameters, id@);
        }
        let i = position_of_parameter(&self.parameters, id);
        if i < self.parameters.len() {
            Some(&self.parameters[i])
        } else {
            None
        }
    }

    /// The first parameter with identifier `id`, if any, to be changed in
    /// place; the descriptor is otherwise left as it is.
    pub fn find_parameter_mut(&mut self, id: &str) -> (r: Option<&mut PluginParameter>)
        ensures
            ({
                let p = parameter_position(old(self)@.parameters, id@);
                match r {
                    Some(q) => {
                        &&& p < old(self)@.parameters.len()
                        &&& (*q)@ == old(self)@.parameters[p]
                        &&& final(self)@ == (PluginDescriptorView {
                            parameters: old(self)@.parameters.update(p, (*final(q))@),
                            ..old(self)@
                        })
                    },
                    None => p == old(self)@.parameters.len() && final(self)@ == old(self)@,
                }
            }),
    {
        proof {
            lemma_parameter_position(old(self)@.parameters, id@);
        }
        let i = position_of_parameter(&self.parameters, id);
        if i < self.parameters.len() {
            let ghost before = self.parameters@;
            let r = &mut self.parameters[i];
            proof {
                assert(parameters_view(before.update(i as int, *final(r))) =~= parameters_view(before).update(i as int, (*final(r))@));
            }
            Some(r)
        } else {
            None
        }
    }
}

#[verifier::external_type_specification]
#[verifier::external_body]
pub struct ExUuidError(uuid::Error);

/// Unique identifier of a plugin instance: a UUID, held as its 128-bit
/// value (`uuid::Uuid::as_u128`).
#[derive(Debug, Clone, Copy, PartialEq, Eq, Hash, Structural)]
pub struct PluginInstanceId(u128);

/// A random version-4 UUID (`uuid::Uuid::new_v4`), as its 128-bit value.
/// The value comes from the operating system's random source; what holds
/// of every outcome is the version nibble 4 and the variant bits `10`.
#[verifier::external_body]
fn random_uuid() -> (r: u128)
    ensures
        (r >> 76u128) & 0xfu128 == 4,
        (r >> 62u128) & 3u128 == 2,
{
    uuid::Uuid::new_v4().as_u128()
}

/// The 128-bit value of the UUID a text denotes, if it denotes one
/// (`uuid::Uuid::parse_str`: hexadecimal digits with optional hyphens, in
/// the simple, hyphenated, URN or braced forms).
pub uninterp spec fn uuid_text_value(s: Seq<char>) -> Option<u128>;

/// Wraps `uuid::Uuid::parse_str`.
#[verifier::external_body]
fn parse_uuid(s: &str) -> (r: Result<u128, uuid::Error>)
    ensures
        match r {
            Ok(v) => uuid_text_value(s@) == Some(v),
            Err(_) => uuid_text_value(s@) is None,
        },
{
    uuid::Uuid::parse_str(s).map(|u| u.as_u128())
}

/// The lowercase hexadecimal digit of `n` (0 to 15).
pub open spec fn hex_digit(n: u128) -> char {
    if n < 10 {
        (48 + n) as char
    } else {
        (87 + n) as char
    }
}

/// The `k`-th hexadecimal digit of `v`, counted from the most significant.
pub open spec fn uuid_nibble(v: u128, k: int) -> u128 {
    (v >> ((124 - 4 * k) as u128)) & 0xfu128
}

/// How many of the hyphens of the hyphenated form stand before position `j`.
pub open spec fn hyphens_before(j: int) -> int {
    (if j > 8 { 1int } else { 0int }) + (if j > 13 { 1int } else { 0int }) + (if j > 18 { 1int } else { 0int })
        + (if j > 23 { 1int } else { 0int })
}

/// The hyphenated text of a UUID: its 32 lowercase hexadecimal digits, most
/// significant first, in groups of 8, 4, 4, 4 and 12 joined by hyphens.
pub open spec fn hyphenated_uuid(v: u128) -> Seq<char> {
    Seq::new(
        36,
        |j: int|
            if j == 8 || j == 13 || j == 18 || j == 23 {
                '-'
            } else {
                hex_digit(uuid_nibble(v, j - hyphens_before(j)))
            },
    )
}

/// The hyphenated text of the UUID with this 128-bit value
/// (`uuid::Uuid::from_u128`, then its `Display`, which is the lowercase
/// hyphenated form).
#[verifier::external_body]
fn uuid_text(v: u128) -> (r: String)
    ensures
        r@ == hyphenated_uuid(v),
{
    uuid::Uuid::from_u128(v).to_string()
}

impl PluginInstanceId {
    /// The 128-bit value of the identifier.
    pub closed spec fn spec_value(&self) -> u128 {
        self.0
    }

    /// A fresh random identifier (a version-4 UUID).
    pub fn new() -> (r: Self)
        ensures
            (r.spec_value() >> 76u128) & 0xfu128 == 4,
            (r.spec_value() >> 62u128) & 3u128 == 2,
    {
        PluginInstanceId(random_uuid())
    }

    /// The identifier as `{:?}` shows it: `PluginInstanceId(` and the
    /// hyphenated UUID, then `)`.
    pub fn debug_text(&self) -> (r: String)
        ensures
            r@ == "PluginInstanceId("@ + hyphenated_uuid(self.spec_value()) + ")"@,
    {
        let t = uuid_text(self.0);
        String::from_str("PluginInstanceId(").concat(t.as_str()).concat(")")
    }

    /// The 128-bit value of the identifier.
    pub fn as_u128(&self) -> (r: u128)
        ensures
            r == self.spec_value(),
    {
        self.0
    }
}

impl Default for PluginInstanceId {
    fn default() -> (r: Self)
        ensures
            (r.spec_value() >> 76u128) & 0xfu128 == 4,
            (r.spec_value() >> 62u128) & 3u128 == 2,
    {
        Self::new()
    }
}

/// The identifier a UUID text denotes; refused when the text is not a UUID.
fn parse_instance_id(s: &str) -> (r: Result<PluginInstanceId, uuid::Error>)
    ensures
        match r {
            Ok(id) => uuid_text_value(s@) == Some(id.spec_value()),
            Err(_) => uuid_text_value(s@) is None,
        },
{
    match parse_uuid(s) {
        Ok(v) => Ok(PluginInstanceId(v)),
        Err(e) => Err(e),
    }
}

impl std::str::FromStr for PluginInstanceId {
    type Err = uuid::Error;

    /// The identifier a UUID text denotes; refused when the text is not a UUID.
    fn from_str(s: &str) -> (r: Result<Self, Self::Err>)
        ensures
            match r {
                Ok(id) => uuid_text_value(s@) == Some(id.spec_value()),
                Err(_) => uuid_text_value(s@) is None,
            },
    {
        parse_instance_id(s)
    }
}

} // verus!
