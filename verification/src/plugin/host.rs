//! The plugin host: the plugins it has loaded, the instances it has made
//! of them, and the host's identity.

use crate::plugin::error::PluginError;
use crate::plugin::parameters::{
    hyphenated_uuid, new_descriptor_view, PluginCategory, PluginDescriptor, PluginDescriptorView,
    PluginInstanceId,
};
use vstd::prelude::*;

verus! {

/// Host information provided to plugins.
#[derive(Debug, Clone)]
pub struct HostInfo {
    pub name: String,
    pub version: String,
    pub vendor: String,
    pub url: String,
}

impl HostInfo {
    /// This host's identity.
    pub fn new() -> (r: Self)
        ensures
            r.name@ == "MyMusic DAW"@,
            r.version@ == "0.4.0"@,
            r.vendor@ == "MyMusic"@,
            r.url@ == "https://mymusic.daw"@,
    {
        Self {
            name: String::from_str("MyMusic DAW"),
            version: String::from_str("0.4.0"),
            vendor: String::from_str("MyMusic"),
            url: String::from_str("https://mymusic.daw"),
        }
    }
}

impl Default for HostInfo {
    fn default() -> (r: Self)
        ensures
            r.name@ == "MyMusic DAW"@,
            r.version@ == "0.4.0"@,
            r.vendor@ == "MyMusic"@,
            r.url@ == "https://mymusic.daw"@,
    {
        Self::new()
    }
}

/// Plugin host statistics.
#[derive(Debug, Clone)]
pub struct PluginHostStats {
    pub loaded_plugins: usize,
    pub available_factories: usize,
    pub active_instances: usize,
}

#[verifier::external_type_specification]
#[verifier::external_body]
pub struct ExLibrary(libloading::Library);

/// What the host records of an instance besides the plugin object itself.
/// The sample rate is an IEEE-754 double, carried as its bit pattern.
#[derive(Debug)]
pub struct InstanceRecord {
    pub instance_id: PluginInstanceId,
    pub plugin_id: String,
    pub name: String,
    pub is_active: bool,
    pub sample_rate_bits: u64,
    pub buffer_size: usize,
}

/// An instance record as plain values.
pub ghost struct InstanceView {
    pub instance_id: PluginInstanceId,
    pub plugin_id: Seq<char>,
    pub name: Seq<char>,
    pub is_active: bool,
    pub sample_rate_bits: u64,
    pub buffer_size: usize,
}

impl View for InstanceRecord {
    type V = InstanceView;

    open spec fn view(&self) -> InstanceView {
        InstanceView {
            instance_id: self.instance_id,
            plugin_id: self.plugin_id@,
            name: self.name@,
            is_active: self.is_active,
            sample_rate_bits: self.sample_rate_bits,
            buffer_size: self.buffer_size,
        }
    }
}

impl InstanceRecord {
    /// A copy of this record.
    pub fn duplicate(&self) -> (r: Self)
        ensures
            r@ == self@,
    {
        InstanceRecord {
            instance_id: self.instance_id,
            plugin_id: self.plugin_id.clone(),
            name: self.name.clone(),
            is_active: self.is_active,
            sample_rate_bits: self.sample_rate_bits,
            buffer_size: self.buffer_size,
        }
    }
}

/// The bits of 44100.0, the sample rate a new instance is recorded with.
pub const DEFAULT_SAMPLE_RATE_BITS: u64 = 0x40E5888000000000u64;

/// The buffer size a new instance is recorded with.
pub const DEFAULT_BUFFER_SIZE: usize = 512usize;

/// The position of the record of instance `id` (the length of the list
/// when there is none).
pub open spec fn instance_position(s: Seq<InstanceView>, id: PluginInstanceId) -> int
    decreases s.len(),
{
    if s.len() == 0 {
        0
    } else if s[0].instance_id == id {
        0
    } else {
        1 + instance_position(s.drop_first(), id)
    }
}

/// The list holds a record of instance `id`.
pub open spec fn has_instance(s: Seq<InstanceView>, id: PluginInstanceId) -> bool {
    instance_position(s, id) < s.len()
}

/// No two records name the same instance.
pub open spec fn ids_unique(s: Seq<InstanceView>) -> bool {
    forall|i: int, j: int| 0 <= i < j < s.len() ==> s[i].instance_id != s[j].instance_id
}

/// No path is loaded twice.
pub open spec fn paths_unique(s: Seq<Seq<char>>) -> bool {
    forall|i: int, j: int| 0 <= i < j < s.len() ==> s[i] != s[j]
}

/// The list of records after `rec` was stored under its identifier: the
/// record of that identifier is replaced, or `rec` is added at the end.
pub open spec fn upsert_instance(s: Seq<InstanceView>, rec: InstanceView) -> Seq<InstanceView> {
    if has_instance(s, rec.instance_id) {
        s.update(instance_position(s, rec.instance_id), rec)
    } else {
        s.push(rec)
    }
}

/// The list of records without the record of `id`.
pub open spec fn remove_instance(s: Seq<InstanceView>, id: PluginInstanceId) -> Seq<InstanceView> {
    if has_instance(s, id) {
        s.remove(instance_position(s, id))
    } else {
        s
    }
}

/// The loaded paths after `path` was loaded.
pub open spec fn after_load(s: Seq<Seq<char>>, path: Seq<char>) -> Seq<Seq<char>> {
    if s.contains(path) {
        s
    } else {
        s.push(path)
    }
}

/// The descriptor of the plugin loaded from `path`: identifier
/// `clap_plugin_<path>`, name "CLAP Plugin", vendor "CLAP", description
/// "A CLAP plugin", category `Effect`, defaults elsewhere.
pub open spec fn loaded_descriptor_view(path: Seq<char>) -> PluginDescriptorView {
    PluginDescriptorView {
        vendor: "CLAP"@,
        description: "A CLAP plugin"@,
        category: PluginCategory::Effect,
        ..new_descriptor_view("clap_plugin_"@ + path, "CLAP Plugin"@, path)
    }
}

/// The message of the error for an instance that the host does not hold.
pub open spec fn instance_not_found(id: PluginInstanceId) -> Seq<char> {
    "Instance not found: "@ + ("PluginInstanceId("@ + hyphenated_uuid(id.spec_value()) + ")"@)
}

/// Whether `r` is the initialization error for a missing instance `id`.
pub open spec fn is_not_found_error(e: PluginError, id: PluginInstanceId) -> bool {
    e matches PluginError::InitializationFailed(m) && m@ == instance_not_found(id)
}

/// The name an instance gets when none is given: `<plugin id> Instance`.
pub open spec fn default_instance_name(plugin_id: Seq<char>) -> Seq<char> {
    plugin_id + " Instance"@
}

/// `instance_position` lies in `0..=len`, names a record of `id` when below
/// the length, and no earlier record is of `id`.
pub proof fn lemma_instance_position(s: Seq<InstanceView>, id: PluginInstanceId)
    ensures
        0 <= instance_position(s, id) <= s.len(),
        instance_position(s, id) < s.len() ==> s[instance_position(s, id)].instance_id == id,
        forall|j: int| 0 <= j < instance_position(s, id) ==> s[j].instance_id != id,
    decreases s.len(),
{
    if s.len() > 0 && s[0].instance_id != id {
        lemma_instance_position(s.drop_first(), id);
        assert forall|j: int| 0 <= j < instance_position(s, id) implies s[j].instance_id != id by {
            if j > 0 {
                assert(s[j] == s.drop_first()[j - 1]);
            }
        }
    }
}

/// Whether a plugin loaded by the host supports `feature`: audio,
/// parameters and state are supported; MIDI, GUI and anything else are not.
pub fn loaded_plugin_supports_feature(feature: &str) -> (r: bool)
    ensures
        r == (feature@ == "audio"@ || feature@ == "parameters"@ || feature@ == "state"@),
{
    let f = feature.to_owned();
    f == String::from_str("audio") || f == String::from_str("parameters") || f == String::from_str(
        "state",
    )
}

/// The plugin host: libraries loaded from plugin files, the plugins they
/// provide, and the instances made of them. `P` is the type of the plugin
/// objects the instances hold.
pub struct PluginHost<P> {
    instances: Vec<(InstanceRecord, P)>,
    factories: Vec<(String, PluginDescriptor)>,
    libraries: Vec<(String, libloading::Library)>,
    host_info: HostInfo,
}

impl<P> PluginHost<P> {
    /// The records of the instances, in the order they were made.
    pub closed spec fn spec_instances(&self) -> Seq<InstanceView> {
        Seq::new(self.instances@.len(), |i: int| self.instances@[i].0@)
    }

    /// The plugin objects of the instances, in the same order.
    pub closed spec fn spec_plugins_of_instances(&self) -> Seq<P> {
        Seq::new(self.instances@.len(), |i: int| self.instances@[i].1)
    }

    /// The paths of the loaded plugins, in the order they were loaded.
    pub closed spec fn spec_loaded(&self) -> Seq<Seq<char>> {
        Seq::new(self.factories@.len(), |i: int| self.factories@[i].0@)
    }

    /// The paths of the loaded libraries.
    pub closed spec fn spec_libraries(&self) -> Seq<Seq<char>> {
        Seq::new(self.libraries@.len(), |i: int| self.libraries@[i].0@)
    }

    /// The descriptors of the loaded plugins.
    pub closed spec fn spec_descriptors(&self) -> Seq<PluginDescriptorView> {
        Seq::new(self.factories@.len(), |i: int| self.factories@[i].1@)
    }

    /// The host's identity.
    pub closed spec fn spec_host_info(&self) -> HostInfo {
        self.host_info
    }

    /// Each instance is recorded once, each plugin loaded once with its
    /// library, and each loaded plugin has the descriptor of its path.
    pub open spec fn wf(&self) -> bool {
        &&& ids_unique(self.spec_instances())
        &&& paths_unique(self.spec_loaded())
        &&& self.spec_libraries() == self.spec_loaded()
        &&& self.spec_descriptors().len() == self.spec_loaded().len()
        &&& forall|i: int|
            0 <= i < self.spec_loaded().len() ==> #[trigger] self.spec_descriptors()[i]
                == loaded_descriptor_view(self.spec_loaded()[i])
    }

    /// A host with nothing loaded, presenting itself as `host_info`.
    pub fn with_host_info(host_info: HostInfo) -> (r: Self)
        ensures
            r.wf(),
            r.spec_instances().len() == 0,
            r.spec_loaded().len() == 0,
            r.spec_host_info() == host_info,
    {
        let r = PluginHost {
            instances: Vec::new(),
            factories: Vec::new(),
            libraries: Vec::new(),
            host_info,
        };
        assert(r.spec_libraries() =~= r.spec_loaded());
        r
    }

    /// A host with nothing loaded, presenting itself as this host.
    pub fn new() -> (r: Self)
        ensures
            r.wf(),
            r.spec_instances().len() == 0,
            r.spec_loaded().len() == 0,
            r.spec_host_info().name@ == "MyMusic DAW"@,
    {
        Self::with_host_info(HostInfo::new())
    }

    /// The position of the plugin loaded from `path`, or the number of
    /// loaded plugins when there is none.
    fn position_of_plugin(&self, path: &str) -> (r: usize)
        ensures
            r <= self.spec_loaded().len(),
            r < self.spec_loaded().len() ==> self.spec_loaded()[r as int] == path@,
            r == self.spec_loaded().len() ==> !self.spec_loaded().contains(path@),
    {
        let key = path.to_owned();
        let mut i: usize = 0;
        while i < self.factories.len()
            invariant
                i <= self.factories@.len(),
                key@ == path@,
                forall|j: int| 0 <= j < i ==> self.spec_loaded()[j] != path@,
            decreases self.factories@.len() - i,
        {
            if self.factories[i].0 == key {
                return i;
            }
            i = i + 1;
        }
        i
    }

    /// Whether a plugin was loaded from `path`.
    pub fn is_plugin_loaded(&self, path: &str) -> (r: bool)
        ensures
            r == self.spec_loaded().contains(path@),
    {
        self.position_of_plugin(path) < self.factories.len()
    }

    /// Registers the plugin in `library`, loaded from `path`, and returns
    /// its key (the path). A path loaded before keeps its first library.
    pub fn load_plugin(&mut self, path: String, library: libloading::Library) -> (r: String)
        requires
            old(self).wf(),
        ensures
            final(self).wf(),
            r@ == path@,
            final(self).spec_loaded() == after_load(old(self).spec_loaded(), path@),
            final(self).spec_instances() == old(self).spec_instances(),
            final(self).spec_plugins_of_instances() == old(self).spec_plugins_of_instances(),
            final(self).spec_host_info() == old(self).spec_host_info(),
    {
        if self.is_plugin_loaded(path.as_str()) {
            return path;
        }
        let descriptor = PluginDescriptor::new(
            String::from_str("clap_plugin_").concat(path.as_str()),
            String::from_str("CLAP Plugin"),
            path.clone(),
        ).with_vendor(String::from_str("CLAP")).with_description(
            String::from_str("A CLAP plugin"),
        ).with_category(PluginCategory::Effect);
        let ghost old_loaded = self.spec_loaded();
        self.libraries.push((path.clone(), library));
        self.factories.push((path.clone(), descriptor));
        proof {
            assert(self.spec_loaded() =~= old_loaded.push(path@));
            assert(self.spec_libraries() =~= self.spec_loaded());
            assert(self.spec_descriptors() =~= old(self).spec_descriptors().push(descriptor@));
            assert(self.spec_instances() =~= old(self).spec_instances());
            assert(self.spec_plugins_of_instances() =~= old(self).spec_plugins_of_instances());
        }
        path
    }

    /// The paths of the loaded plugins.
    pub fn get_available_plugins(&self) -> (r: Vec<String>)
        ensures
            r@.len() == self.spec_loaded().len(),
            forall|i: int| 0 <= i < r@.len() ==> #[trigger] r@[i]@ == self.spec_loaded()[i],
    {
        let mut out: Vec<String> = Vec::new();
        let mut i: usize = 0;
        while i < self.factories.len()
            invariant
                i <= self.factories@.len(),
                out@.len() == i,
                forall|j: int| 0 <= j < i ==> #[trigger] out@[j]@ == self.spec_loaded()[j],
            decreases self.factories@.len() - i,
        {
            out.push(self.factories[i].0.clone());
            i = i + 1;
        }
        out
    }

    /// The descriptor of the plugin loaded from `plugin_id`, if any.
    pub fn get_plugin_descriptor(&self, plugin_id: &str) -> (r: Option<PluginDescriptor>)
        requires
            self.wf(),
        ensures
            match r {
                Some(d) => self.spec_loaded().contains(plugin_id@) && d@ == loaded_descriptor_view(
                    plugin_id@,
                ),
                None => !self.spec_loaded().contains(plugin_id@),
            },
    {
        let i = self.position_of_plugin(plugin_id);
        if i < self.factories.len() {
            assert(self.spec_descriptors()[i as int] == loaded_descriptor_view(self.spec_loaded()[i as int]));
            Some(self.factories[i].1.duplicate())
        } else {
            None
        }
    }
}

impl<P> PluginHost<P> {
    /// The position of the record of instance `id`, scanning from the front.
    fn position_of_instance(&self, id: PluginInstanceId) -> (r: usize)
        ensures
            r == instance_position(self.spec_instances(), id),
            self.spec_instances().len() == self.instances@.len(),
    {
        let ghost s = self.spec_instances();
        proof {
            lemma_instance_position(s, id);
        }
        let mut i: usize = 0;
        while i < self.instances.len()
            invariant
                i <= self.instances@.len(),
                s == self.spec_instances(),
                s.len() == self.instances@.len(),
                forall|j: int| 0 <= j < i ==> s[j].instance_id != id,
                0 <= instance_position(s, id) <= s.len(),
                instance_position(s, id) < s.len() ==> s[instance_position(s, id)].instance_id == id,
                forall|j: int| 0 <= j < instance_position(s, id) ==> s[j].instance_id != id,
            decreases self.instances@.len() - i,
        {
            assert(s[i as int] == self.instances@[i as int].0@);
            if self.instances[i].0.instance_id == id {
                return i;
            }
            i = i + 1;
        }
        i
    }

    /// The error for an instance that this host does not hold.
    fn not_found(id: PluginInstanceId) -> (e: PluginError)
        ensures
            is_not_found_error(e, id),
    {
        PluginError::InitializationFailed(
            String::from_str("Instance not found: ").concat(id.debug_text().as_str()),
        )
    }

    /// Makes an instance of the plugin loaded from `plugin_id`, holding
    /// `plugin` (the object made from that plugin's descriptor). The instance
    /// gets a fresh random identifier, the given name (by default
    /// `<plugin id> Instance`), and starts inactive at 44100 Hz with 512
    /// samples per block. Refused exactly where no plugin was loaded from
    /// `plugin_id`.
    pub fn create_instance(&mut self, plugin_id: &str, name: Option<String>, plugin: P) -> (r: Result<
        PluginInstanceId,
        PluginError,
    >)
        requires
            old(self).wf(),
        ensures
            final(self).wf(),
            final(self).spec_loaded() == old(self).spec_loaded(),
            final(self).spec_host_info() == old(self).spec_host_info(),
            r is Ok <==> old(self).spec_loaded().contains(plugin_id@),
            r is Err ==> (r matches Err(e) && e matches PluginError::LoadFailed(m) && m@ == "Plugin not found: "@
                + plugin_id@) && final(self).spec_instances() == old(self).spec_instances()
                && final(self).spec_plugins_of_instances() == old(self).spec_plugins_of_instances(),
            r matches Ok(id) ==> {
                let rec = InstanceView {
                    instance_id: id,
                    plugin_id: plugin_id@,
                    name: match name {
                        Some(n) => n@,
                        None => default_instance_name(plugin_id@),
                    },
                    is_active: false,
                    sample_rate_bits: DEFAULT_SAMPLE_RATE_BITS,
                    buffer_size: DEFAULT_BUFFER_SIZE,
                };
                let s = old(self).spec_instances();
                &&& final(self).spec_instances() == upsert_instance(s, rec)
                &&& final(self).spec_plugins_of_instances() == if has_instance(s, id) {
                    old(self).spec_plugins_of_instances().update(instance_position(s, id), plugin)
                } else {
                    old(self).spec_plugins_of_instances().push(plugin)
                }
            },
    {
        let i = self.position_of_plugin(plugin_id);
        if i >= self.factories.len() {
            return Err(
                PluginError::LoadFailed(String::from_str("Plugin not found: ").concat(plugin_id)),
            );
        }
        let id = PluginInstanceId::new();
        let instance_name = match name {
            Some(n) => n,
            None => plugin_id.to_owned().concat(" Instance"),
        };
        let record = InstanceRecord {
            instance_id: id,
            plugin_id: plugin_id.to_owned(),
            name: instance_name,
            is_active: false,
            sample_rate_bits: DEFAULT_SAMPLE_RATE_BITS,
            buffer_size: DEFAULT_BUFFER_SIZE,
        };
        let ghost rec = record@;
        let ghost before = self.spec_instances();
        let ghost plugins_before = self.spec_plugins_of_instances();
        let ghost pl = plugin;
        let j = self.position_of_instance(id);
        proof {
            lemma_instance_position(before, id);
        }
        if j < self.instances.len() {
            self.instances.set(j, (record, plugin));
            proof {
                assert(self.spec_instances() =~= before.update(j as int, rec));
                assert(self.spec_plugins_of_instances() =~= plugins_before.update(j as int, pl));
                assert forall|a: int, b: int| 0 <= a < b < self.spec_instances().len() implies self.spec_instances()[a].instance_id
                    != self.spec_instances()[b].instance_id by {
                    if a != j && b != j {
                        assert(before[a].instance_id != before[b].instance_id);
                    } else if a == j {
                        assert(before[b].instance_id != before[a].instance_id);
                    } else {
                        assert(before[a].instance_id != before[b].instance_id);
                    }
                }
            }
        } else {
            self.instances.push((record, plugin));
            proof {
                assert(self.spec_instances() =~= before.push(rec));
                assert(self.spec_plugins_of_instances() =~= plugins_before.push(pl));
                assert forall|a: int, b: int| 0 <= a < b < self.spec_instances().len() implies self.spec_instances()[a].instance_id
                    != self.spec_instances()[b].instance_id by {
                    if b == before.len() {
                        assert(before[a].instance_id != id);
                    } else {
                        assert(before[a].instance_id != before[b].instance_id);
                    }
                }
            }
        }
        proof {
            assert(self.spec_loaded() =~= old(self).spec_loaded());
            assert(self.spec_libraries() =~= old(self).spec_libraries());
            assert(self.spec_descriptors() =~= old(self).spec_descriptors());
        }
        Ok(id)
    }
}

impl<P> PluginHost<P> {
    /// The record of instance `id`, if the host holds it.
    pub fn instance_record(&self, id: PluginInstanceId) -> (r: Option<&InstanceRecord>)
        ensures
            ({
                let s = self.spec_instances();
                match r {
                    Some(rec) => has_instance(s, id) && rec@ == s[instance_position(s, id)],
                    None => !has_instance(s, id),
                }
            }),
    {
        let j = self.position_of_instance(id);
        if j < self.instances.len() {
            Some(&self.instances[j].0)
        } else {
            None
        }
    }

    /// The plugin object of instance `id`, if the host holds it.
    pub fn instance(&self, id: PluginInstanceId) -> (r: Option<&P>)
        ensures
            ({
                let s = self.spec_instances();
                match r {
                    Some(p) => has_instance(s, id) && *p == self.spec_plugins_of_instances()[instance_position(s, id)],
                    None => !has_instance(s, id),
                }
            }),
    {
        let j = self.position_of_instance(id);
        if j < self.instances.len() {
            Some(&self.instances[j].1)
        } else {
            None
        }
    }

    /// The plugin object of instance `id`, to be used in place; refused
    /// where the host does not hold the instance. Nothing else changes.
    pub fn instance_mut(&mut self, id: PluginInstanceId) -> (r: Result<&mut P, PluginError>)
        requires
            old(self).wf(),
        ensures
            ({
                let s = old(self).spec_instances();
                let pos = instance_position(s, id);
                match r {
                    Ok(p) => {
                        &&& has_instance(s, id)
                        &&& *p == old(self).spec_plugins_of_instances()[pos]
                        &&& final(self).spec_plugins_of_instances() == old(self).spec_plugins_of_instances().update(pos, *final(p))
                        &&& final(self).spec_instances() == s
                        &&& final(self).spec_loaded() == old(self).spec_loaded()
                        &&& final(self).spec_libraries() == old(self).spec_libraries()
                        &&& final(self).spec_descriptors() == old(self).spec_descriptors()
                        &&& final(self).spec_host_info() == old(self).spec_host_info()
                        &&& final(self).wf()
                    },
                    Err(e) => !has_instance(s, id) && is_not_found_error(e, id) && *final(self) == *old(self),
                }
            }),
    {
        let j = self.position_of_instance(id);
        if j < self.instances.len() {
            let entry = &mut self.instances[j];
            Ok(&mut entry.1)
        } else {
            Err(Self::not_found(id))
        }
    }
}

impl<P> PluginHost<P> {
    /// Puts `rec` in place of the record at `j`, keeping its plugin object.
    fn replace_record(&mut self, j: usize, rec: InstanceRecord)
        requires
            old(self).wf(),
            j < old(self).spec_instances().len(),
            rec.instance_id == old(self).spec_instances()[j as int].instance_id,
        ensures
            final(self).wf(),
            final(self).spec_instances() == old(self).spec_instances().update(j as int, rec@),
            final(self).spec_plugins_of_instances() == old(self).spec_plugins_of_instances(),
            final(self).spec_loaded() == old(self).spec_loaded(),
            final(self).spec_libraries() == old(self).spec_libraries(),
            final(self).spec_descriptors() == old(self).spec_descriptors(),
            final(self).spec_host_info() == old(self).spec_host_info(),
    {
        let ghost before = self.instances@;
        let ghost r = rec@;
        let (_, plugin) = self.instances.remove(j);
        self.instances.insert(j, (rec, plugin));
        proof {
            assert(self.instances@ =~= before.update(j as int, (rec, before[j as int].1)));
            assert(self.spec_instances() =~= old(self).spec_instances().update(j as int, r));
            assert(self.spec_plugins_of_instances() =~= old(self).spec_plugins_of_instances());
            let s = self.spec_instances();
            let o = old(self).spec_instances();
            assert forall|a: int, b: int| 0 <= a < b < s.len() implies s[a].instance_id != s[b].instance_id by {
                assert(o[a].instance_id != o[b].instance_id);
            }
        }
    }

    /// Marks instance `id` active at `sample_rate_bits` (an `f64`'s bits)
    /// with `buffer_size` samples per block, once its plugin object has been
    /// initialized; refused where the host does not hold the instance.
    pub fn initialize_instance(&mut self, id: PluginInstanceId, sample_rate_bits: u64, buffer_size: usize) -> (r: Result<(), PluginError>)
        requires
            old(self).wf(),
        ensures
            final(self).wf(),
            final(self).spec_loaded() == old(self).spec_loaded(),
            final(self).spec_plugins_of_instances() == old(self).spec_plugins_of_instances(),
            ({
                let s = old(self).spec_instances();
                let pos = instance_position(s, id);
                if has_instance(s, id) {
                    r is Ok && final(self).spec_instances() == s.update(pos, InstanceView { is_active: true, sample_rate_bits, buffer_size, ..s[pos] })
                } else {
                    r matches Err(e) && is_not_found_error(e, id) && final(self).spec_instances() == s
                }
            }),
    {
        let j = self.position_of_instance(id);
        if j < self.instances.len() {
            let mut rec = self.instances[j].0.duplicate();
            rec.is_active = true;
            rec.sample_rate_bits = sample_rate_bits;
            rec.buffer_size = buffer_size;
            self.replace_record(j, rec);
            Ok(())
        } else {
            Err(Self::not_found(id))
        }
    }

    /// Marks instance `id` inactive; refused where the host does not hold it.
    pub fn deactivate_instance(&mut self, id: PluginInstanceId) -> (r: Result<(), PluginError>)
        requires
            old(self).wf(),
        ensures
            final(self).wf(),
            final(self).spec_loaded() == old(self).spec_loaded(),
            final(self).spec_plugins_of_instances() == old(self).spec_plugins_of_instances(),
            ({
                let s = old(self).spec_instances();
                let pos = instance_position(s, id);
                if has_instance(s, id) {
                    r is Ok && final(self).spec_instances() == s.update(pos, InstanceView { is_active: false, ..s[pos] })
                } else {
                    r matches Err(e) && is_not_found_error(e, id) && final(self).spec_instances() == s
                }
            }),
    {
        let j = self.position_of_instance(id);
        if j < self.instances.len() {
            let mut rec = self.instances[j].0.duplicate();
            rec.is_active = false;
            self.replace_record(j, rec);
            Ok(())
        } else {
            Err(Self::not_found(id))
        }
    }

    /// Renames instance `id`; refused where the host does not hold it.
    pub fn set_instance_name(&mut self, id: PluginInstanceId, name: String) -> (r: Result<(), PluginError>)
        requires
            old(self).wf(),
        ensures
            final(self).wf(),
            final(self).spec_loaded() == old(self).spec_loaded(),
            final(self).spec_plugins_of_instances() == old(self).spec_plugins_of_instances(),
            ({
                let s = old(self).spec_instances();
                let pos = instance_position(s, id);
                if has_instance(s, id) {
                    r is Ok && final(self).spec_instances() == s.update(pos, InstanceView { name: name@, ..s[pos] })
                } else {
                    r matches Err(e) && is_not_found_error(e, id) && final(self).spec_instances() == s
                }
            }),
    {
        let j = self.position_of_instance(id);
        if j < self.instances.len() {
            let mut rec = self.instances[j].0.duplicate();
            rec.name = name;
            self.replace_record(j, rec);
            Ok(())
        } else {
            Err(Self::not_found(id))
        }
    }

    /// Removes instance `id` and its plugin object; refused where the host
    /// does not hold it.
    pub fn destroy_instance(&mut self, id: PluginInstanceId) -> (r: Result<(), PluginError>)
        requires
            old(self).wf(),
        ensures
            final(self).wf(),
            final(self).spec_loaded() == old(self).spec_loaded(),
            final(self).spec_instances() == remove_instance(old(self).spec_instances(), id),
            ({
                let s = old(self).spec_instances();
                if has_instance(s, id) {
                    &&& r is Ok
                    &&& final(self).spec_plugins_of_instances() == old(self).spec_plugins_of_instances().remove(instance_position(s, id))
                } else {
                    r matches Err(e) && is_not_found_error(e, id) && final(self).spec_plugins_of_instances() == old(self).spec_plugins_of_instances()
                }
            }),
    {
        let j = self.position_of_instance(id);
        if j < self.instances.len() {
            let ghost before = self.instances@;
            let _ = self.instances.remove(j);
            proof {
                assert(self.spec_instances() =~= old(self).spec_instances().remove(j as int));
                assert(self.spec_plugins_of_instances() =~= old(self).spec_plugins_of_instances().remove(j as int));
                let s = self.spec_instances();
                let o = old(self).spec_instances();
                assert forall|a: int, b: int| 0 <= a < b < s.len() implies s[a].instance_id != s[b].instance_id by {
                    if b < j {
                        assert(o[a].instance_id != o[b].instance_id);
                    } else if a < j {
                        assert(s[b] == o[b + 1]);
                        assert(o[a].instance_id != o[b + 1].instance_id);
                    } else {
                        assert(s[a] == o[a + 1]);
                        assert(s[b] == o[b + 1]);
                        assert(o[a + 1].instance_id != o[b + 1].instance_id);
                    }
                }
            }
            Ok(())
        } else {
            Err(Self::not_found(id))
        }
    }

    /// The identifiers of all instances, in the order they were made.
    pub fn get_active_instances(&self) -> (r: Vec<PluginInstanceId>)
        ensures
            r@.len() == self.spec_instances().len(),
            forall|i: int| 0 <= i < r@.len() ==> #[trigger] r@[i] == self.spec_instances()[i].instance_id,
    {
        let mut out: Vec<PluginInstanceId> = Vec::new();
        let mut i: usize = 0;
        while i < self.instances.len()
            invariant
                i <= self.instances@.len(),
                out@.len() == i,
                forall|j: int| 0 <= j < i ==> #[trigger] out@[j] == self.spec_instances()[j].instance_id,
            decreases self.instances@.len() - i,
        {
            out.push(self.instances[i].0.instance_id);
            i = i + 1;
        }
        out
    }

    /// Copies of the records of all instances, in the order they were made.
    pub fn get_all_instances(&self) -> (r: Vec<InstanceRecord>)
        ensures
            r@.len() == self.spec_instances().len(),
            forall|i: int| 0 <= i < r@.len() ==> #[trigger] r@[i]@ == self.spec_instances()[i],
    {
        let mut out: Vec<InstanceRecord> = Vec::new();
        let mut i: usize = 0;
        while i < self.instances.len()
            invariant
                i <= self.instances@.len(),
                out@.len() == i,
                forall|j: int| 0 <= j < i ==> #[trigger] out@[j]@ == self.spec_instances()[j],
            decreases self.instances@.len() - i,
        {
            out.push(self.instances[i].0.duplicate());
            i = i + 1;
        }
        out
    }

    /// Forgets the plugin loaded from `plugin_id` and its library, where it
    /// was loaded; instances already made are kept.
    pub fn unload_plugin(&mut self, plugin_id: &str) -> (r: Result<(), PluginError>)
        requires
            old(self).wf(),
        ensures
            final(self).wf(),
            r is Ok,
            final(self).spec_instances() == old(self).spec_instances(),
            final(self).spec_plugins_of_instances() == old(self).spec_plugins_of_instances(),
            !final(self).spec_loaded().contains(plugin_id@),
            forall|p: Seq<char>| p != plugin_id@ ==> (#[trigger] final(self).spec_loaded().contains(p)
                <==> old(self).spec_loaded().contains(p)),
    {
        let i = self.position_of_plugin(plugin_id);
        if i < self.factories.len() {
            let ghost lo = self.spec_loaded();
            let ghost de = self.spec_descriptors();
            let _ = self.factories.remove(i);
            let _ = self.libraries.remove(i);
            proof {
                assert(self.spec_loaded() =~= lo.remove(i as int));
                assert(self.spec_libraries() =~= lo.remove(i as int));
                assert(self.spec_descriptors() =~= de.remove(i as int));
                assert(self.spec_instances() =~= old(self).spec_instances());
                assert(self.spec_plugins_of_instances() =~= old(self).spec_plugins_of_instances());
                let s = self.spec_loaded();
                assert forall|a: int, b: int| 0 <= a < b < s.len() implies s[a] != s[b] by {
                    if b < i {
                    } else if a < i {
                        assert(s[b] == lo[b + 1]);
                    } else {
                        assert(s[a] == lo[a + 1]);
                        assert(s[b] == lo[b + 1]);
                    }
                }
                assert forall|k: int| 0 <= k < s.len() implies #[trigger] self.spec_descriptors()[k] == loaded_descriptor_view(s[k]) by {
                    if k < i {
                        assert(de[k] == loaded_descriptor_view(lo[k]));
                    } else {
                        assert(de[k + 1] == loaded_descriptor_view(lo[k + 1]));
                    }
                }
                assert forall|p: Seq<char>| p != plugin_id@ implies (#[trigger] s.contains(p) <==> lo.contains(p)) by {
                    if lo.contains(p) {
                        let k = choose|k: int| 0 <= k < lo.len() && lo[k] == p;
                        if k < i {
                            assert(s[k] == p);
                        } else {
                            assert(s[k - 1] == p);
                        }
                    }
                    if s.contains(p) {
                        let k = choose|k: int| 0 <= k < s.len() && s[k] == p;
                        if k < i {
                            assert(lo[k] == p);
                        } else {
                            assert(lo[k + 1] == p);
                        }
                    }
                }
                if s.contains(plugin_id@) {
                    let k = choose|k: int| 0 <= k < s.len() && s[k] == plugin_id@;
                    if k < i {
                        assert(lo[k] == lo[i as int]);
                    } else {
                        assert(lo[k + 1] == lo[i as int]);
                    }
                }
            }
        }
        Ok(())
    }

    /// How many libraries and plugins are loaded, and how many instances
    /// exist.
    pub fn get_statistics(&self) -> (r: PluginHostStats)
        ensures
            r.loaded_plugins == self.spec_libraries().len(),
            r.available_factories == self.spec_loaded().len(),
            r.active_instances == self.spec_instances().len(),
    {
        PluginHostStats {
            loaded_plugins: self.libraries.len(),
            available_factories: self.factories.len(),
            active_instances: self.instances.len(),
        }
    }
}

impl<P> Default for PluginHost<P> {
    fn default() -> (r: Self)
        ensures
            r.wf(),
            r.spec_instances().len() == 0,
            r.spec_loaded().len() == 0,
    {
        Self::new()
    }
}

/// Making an instance under a fresh identifier and destroying it again
/// leaves the host's records as they were.
pub proof fn law_create_then_destroy_restores(s: Seq<InstanceView>, rec: InstanceView)
    requires
        ids_unique(s),
        !has_instance(s, rec.instance_id),
    ensures
        remove_instance(upsert_instance(s, rec), rec.instance_id) == s,
{
    let t = s.push(rec);
    let id = rec.instance_id;
    lemma_instance_position(t, id);
    lemma_instance_position(s, id);
    assert forall|j: int| 0 <= j < s.len() implies t[j].instance_id != id by {
        assert(t[j] == s[j]);
    }
    assert(t[s.len() as int] == rec);
    assert(upsert_instance(s, rec) == t);
    assert(instance_position(t, id) == s.len());
    assert(t.remove(s.len() as int) =~= s);
}

/// Loading the same path twice is the same as loading it once.
pub proof fn law_loading_is_idempotent(s: Seq<Seq<char>>, path: Seq<char>)
    ensures
        after_load(after_load(s, path), path) == after_load(s, path),
{
    if !s.contains(path) {
        assert(s.push(path)[s.len() as int] == path);
    }
}

} // verus!
