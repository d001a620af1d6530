use mymusic_daw::plugin::host::{loaded_plugin_supports_feature, PluginHost, DEFAULT_BUFFER_SIZE, DEFAULT_SAMPLE_RATE_BITS};
use mymusic_daw::plugin::parameters::{PluginCategory, PluginInstanceId};
use mymusic_daw::plugin::PluginError;

/// A stand-in plugin object: the identifier of the descriptor it was made from.
#[derive(Debug, Clone, PartialEq)]
struct FakePlugin {
    descriptor_id: String,
    initialized: bool,
}

fn this_process() -> libloading::Library {
    libloading::Library::from(libloading::os::unix::Library::this())
}

/// The plugin object for the plugin loaded from `path`, made from its descriptor.
fn make(host: &PluginHost<FakePlugin>, path: &str) -> FakePlugin {
    let id = host.get_plugin_descriptor(path).map(|d| d.id).unwrap_or_default();
    FakePlugin { descriptor_id: id, initialized: false }
}

fn not_found_message(r: Result<(), PluginError>) -> String {
    match r {
        Err(PluginError::InitializationFailed(m)) => m,
        other => panic!("expected a missing-instance error, got {:?}", other),
    }
}

#[test]
fn test_plugin_host_creation() {
    let host: PluginHost<FakePlugin> = PluginHost::new();
    let stats = host.get_statistics();

    assert_eq!(stats.loaded_plugins, 0);
    assert_eq!(stats.available_factories, 0);
    assert_eq!(stats.active_instances, 0);
}

#[test]
fn test_instance_management() {
    let host: PluginHost<FakePlugin> = PluginHost::new();
    let available = host.get_available_plugins();
    assert_eq!(available.len(), 0);
}

#[test]
fn test_statistics() {
    let host: PluginHost<FakePlugin> = PluginHost::new();
    let stats = host.get_statistics();

    assert_eq!(stats.loaded_plugins, 0);
    assert_eq!(stats.available_factories, 0);
    assert_eq!(stats.active_instances, 0);
}

#[test]
fn loading_registers_a_plugin_once() {
    let mut host: PluginHost<FakePlugin> = PluginHost::new();
    assert!(!host.is_plugin_loaded("/plugins/synth.clap"));
    assert_eq!(host.load_plugin("/plugins/synth.clap".to_string(), this_process()), "/plugins/synth.clap");
    assert_eq!(host.load_plugin("/plugins/synth.clap".to_string(), this_process()), "/plugins/synth.clap");
    assert!(host.is_plugin_loaded("/plugins/synth.clap"));
    assert_eq!(host.get_available_plugins(), vec!["/plugins/synth.clap".to_string()]);
    let stats = host.get_statistics();
    assert_eq!(stats.loaded_plugins, 1);
    assert_eq!(stats.available_factories, 1);
}

#[test]
fn loaded_plugin_descriptor_is_derived_from_its_path() {
    let mut host: PluginHost<FakePlugin> = PluginHost::new();
    host.load_plugin("fx.clap".to_string(), this_process());
    let d = host.get_plugin_descriptor("fx.clap").unwrap();
    assert_eq!(d.id, "clap_plugin_fx.clap");
    assert_eq!(d.name, "CLAP Plugin");
    assert_eq!(d.vendor, "CLAP");
    assert_eq!(d.description, "A CLAP plugin");
    assert_eq!(d.category, PluginCategory::Effect);
    assert_eq!(d.file_path, "fx.clap");
    assert!(host.get_plugin_descriptor("other.clap").is_none());
}

#[test]
fn loaded_plugins_support_audio_parameters_and_state() {
    assert!(loaded_plugin_supports_feature("audio"));
    assert!(loaded_plugin_supports_feature("parameters"));
    assert!(loaded_plugin_supports_feature("state"));
    assert!(!loaded_plugin_supports_feature("midi"));
    assert!(!loaded_plugin_supports_feature("gui"));
    assert!(!loaded_plugin_supports_feature("video"));
}

#[test]
fn instances_are_made_from_loaded_plugins_only() {
    let mut host: PluginHost<FakePlugin> = PluginHost::new();
    let p = make(&host, "missing.clap");
    match host.create_instance("missing.clap", None, p) {
        Err(PluginError::LoadFailed(m)) => assert_eq!(m, "Plugin not found: missing.clap"),
        other => panic!("unexpected {:?}", other),
    }
    host.load_plugin("synth.clap".to_string(), this_process());
    let p = make(&host, "synth.clap");
    let id = host.create_instance("synth.clap", None, p).unwrap();
    let rec = host.instance_record(id).unwrap();
    assert_eq!(rec.name, "synth.clap Instance");
    assert_eq!(rec.plugin_id, "synth.clap");
    assert!(!rec.is_active);
    assert_eq!(f64::from_bits(rec.sample_rate_bits), 44100.0);
    assert_eq!(DEFAULT_SAMPLE_RATE_BITS, 44100.0f64.to_bits());
    assert_eq!(rec.buffer_size, DEFAULT_BUFFER_SIZE);
    assert_eq!(host.instance(id).unwrap().descriptor_id, "clap_plugin_synth.clap");
    let p = make(&host, "synth.clap");
    let named = host.create_instance("synth.clap", Some("Lead".to_string()), p).unwrap();
    assert_eq!(host.instance_record(named).unwrap().name, "Lead");
    assert_eq!(host.get_active_instances(), vec![id, named]);
    assert_eq!(host.get_statistics().active_instances, 2);
}

#[test]
fn a_loaded_plugin_always_gets_an_instance_holding_the_given_object() {
    let mut host: PluginHost<FakePlugin> = PluginHost::new();
    host.load_plugin("fx.clap".to_string(), this_process());
    let object = FakePlugin { descriptor_id: "mine".to_string(), initialized: true };
    let id = host.create_instance("fx.clap", None, object.clone()).unwrap();
    assert_eq!(host.instance(id), Some(&object));
}

#[test]
fn instance_lifecycle_updates_its_record() {
    let mut host: PluginHost<FakePlugin> = PluginHost::new();
    host.load_plugin("synth.clap".to_string(), this_process());
    let p = make(&host, "synth.clap");
    let id = host.create_instance("synth.clap", None, p).unwrap();
    host.instance_mut(id).unwrap().initialized = true;
    assert!(host.instance(id).unwrap().initialized);
    host.initialize_instance(id, 48000.0f64.to_bits(), 256).unwrap();
    let rec = host.instance_record(id).unwrap();
    assert!(rec.is_active);
    assert_eq!(f64::from_bits(rec.sample_rate_bits), 48000.0);
    assert_eq!(rec.buffer_size, 256);
    host.set_instance_name(id, "Bass".to_string()).unwrap();
    host.deactivate_instance(id).unwrap();
    let all = host.get_all_instances();
    assert_eq!(all.len(), 1);
    assert_eq!(all[0].name, "Bass");
    assert!(!all[0].is_active);
    host.destroy_instance(id).unwrap();
    assert!(host.instance_record(id).is_none());
    assert_eq!(host.get_statistics().active_instances, 0);
}

#[test]
fn missing_instances_are_reported_by_identifier() {
    let mut host: PluginHost<FakePlugin> = PluginHost::new();
    let id: PluginInstanceId = "67e55044-10b1-426f-9247-bb680e5fe0c8".parse().unwrap();
    let expected = "Instance not found: PluginInstanceId(67e55044-10b1-426f-9247-bb680e5fe0c8)";
    assert_eq!(id.debug_text(), "PluginInstanceId(67e55044-10b1-426f-9247-bb680e5fe0c8)");
    assert_eq!(not_found_message(host.destroy_instance(id)), expected);
    assert_eq!(not_found_message(host.deactivate_instance(id)), expected);
    assert_eq!(not_found_message(host.set_instance_name(id, "x".to_string())), expected);
    assert_eq!(not_found_message(host.initialize_instance(id, 0, 0)), expected);
    assert!(host.instance_mut(id).is_err());
}

#[test]
fn unloading_forgets_the_plugin_but_keeps_instances() {
    let mut host: PluginHost<FakePlugin> = PluginHost::new();
    host.load_plugin("a.clap".to_string(), this_process());
    host.load_plugin("b.clap".to_string(), this_process());
    let p = make(&host, "a.clap");
    let id = host.create_instance("a.clap", None, p).unwrap();
    assert!(host.unload_plugin("a.clap").is_ok());
    assert!(host.unload_plugin("never.clap").is_ok());
    assert_eq!(host.get_available_plugins(), vec!["b.clap".to_string()]);
    assert_eq!(host.get_statistics().loaded_plugins, 1);
    assert!(host.instance_record(id).is_some());
}
