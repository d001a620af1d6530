use mymusic_daw::plugin::clap_ffi::clap_version;
use mymusic_daw::plugin::clap_integration::{
    check_clap_version, convert_clap_descriptor, supports_feature,
};
use mymusic_daw::plugin::error::PluginError;
use mymusic_daw::plugin::parameters::{
    AudioPortInfo, ParameterType, PluginCategory, PluginDescriptor, PluginParameter,
};
use mymusic_daw::plugin::scanner::PluginScanner;

fn parameter(id: &str, value: f64) -> PluginParameter {
    PluginParameter {
        id: id.to_string(),
        name: id.to_uppercase(),
        value_bits: value.to_bits(),
        default_value_bits: value.to_bits(),
        min_value_bits: 0.0f64.to_bits(),
        max_value_bits: 1.0f64.to_bits(),
        is_automatable: true,
        parameter_type: ParameterType::Linear,
    }
}

#[test]
fn test_plugin_descriptor_creation() {
    let descriptor = PluginDescriptor::new(
        "test-plugin".to_string(),
        "Test Plugin".to_string(),
        "/test/plugin.clap".to_string(),
    )
    .with_version("1.0.0".to_string())
    .with_vendor("Test Vendor".to_string())
    .with_description("A test plugin".to_string())
    .with_category(PluginCategory::Effect);

    assert_eq!(descriptor.id, "test-plugin");
    assert_eq!(descriptor.name, "Test Plugin");
    assert_eq!(descriptor.version, "1.0.0");
    assert_eq!(descriptor.vendor, "Test Vendor");
    assert_eq!(descriptor.description, "A test plugin");
    assert_eq!(descriptor.category, PluginCategory::Effect);
}

#[test]
fn test_plugin_parameter() {
    let param = PluginParameter {
        id: "gain".to_string(),
        name: "Gain".to_string(),
        value_bits: 0.5f64.to_bits(),
        default_value_bits: 0.5f64.to_bits(),
        min_value_bits: 0.0f64.to_bits(),
        max_value_bits: 1.0f64.to_bits(),
        is_automatable: true,
        parameter_type: ParameterType::Linear,
    };

    assert_eq!(param.id, "gain");
    assert_eq!(f64::from_bits(param.min_value_bits), 0.0);
    assert_eq!(f64::from_bits(param.max_value_bits), 1.0);
    assert_eq!(f64::from_bits(param.default_value_bits), 0.5);
    assert!(param.is_automatable);
}

#[test]
fn test_plugin_factory_features() {
    let descriptor =
        PluginDescriptor::new("test".to_string(), "Test".to_string(), "/test/plugin.clap".to_string())
            .with_parameter(PluginParameter {
                id: "param".to_string(),
                name: "Parameter".to_string(),
                value_bits: 0.5f64.to_bits(),
                default_value_bits: 0.5f64.to_bits(),
                min_value_bits: 0.0f64.to_bits(),
                max_value_bits: 1.0f64.to_bits(),
                is_automatable: true,
                parameter_type: ParameterType::Linear,
            })
            .with_state_support(true)
            .with_gui_support(true);

    assert!(descriptor.parameters.iter().any(|p| !p.id.is_empty()));
    assert!(descriptor.supports_state);
    assert!(descriptor.supports_gui);

    assert!(supports_feature(&descriptor, "audio"));
    assert!(!supports_feature(&descriptor, "midi"));
    assert!(supports_feature(&descriptor, "parameters"));
    assert!(supports_feature(&descriptor, "state"));
    assert!(supports_feature(&descriptor, "gui"));
    assert!(!supports_feature(&descriptor, "sidechain"));
}

#[test]
fn features_follow_the_descriptor() {
    let bare = PluginDescriptor::new("b".to_string(), "B".to_string(), "/b.clap".to_string())
        .with_parameter(parameter("", 0.0));
    assert!(supports_feature(&bare, "audio"));
    assert!(!supports_feature(&bare, "parameters"));
    assert!(!supports_feature(&bare, "state"));
    assert!(!supports_feature(&bare, "gui"));
}

#[test]
fn test_error_types() {
    let load_error = PluginError::LoadFailed("Test error".to_string());
    assert!(matches!(load_error, PluginError::LoadFailed(_)));

    let init_error = PluginError::InitializationFailed("Init failed".to_string());
    assert!(matches!(init_error, PluginError::InitializationFailed(_)));

    let param_error = PluginError::InvalidParameter("Bad param".to_string());
    assert!(matches!(param_error, PluginError::InvalidParameter(_)));
}

#[test]
fn test_plugin_categories() {
    let categories = [
        PluginCategory::Instrument,
        PluginCategory::Effect,
        PluginCategory::Analyzer,
        PluginCategory::Generator,
        PluginCategory::Utility,
    ];

    assert_eq!(categories.len(), 5);

    for (i, cat1) in categories.iter().enumerate() {
        for (j, cat2) in categories.iter().enumerate() {
            if i != j {
                assert_ne!(cat1, cat2);
            }
        }
    }
}

#[test]
fn new_descriptor_has_the_documented_defaults() {
    let d = PluginDescriptor::new("id".to_string(), "Name".to_string(), "/p.clap".to_string());
    assert_eq!(d.version, "1.0.0");
    assert_eq!(d.vendor, "Unknown");
    assert_eq!(d.description, "");
    assert_eq!(d.url, "");
    assert_eq!(d.category, PluginCategory::Other);
    assert!(d.audio_inputs.is_empty() && d.audio_outputs.is_empty() && d.parameters.is_empty());
    assert!(d.supports_dsp);
    assert!(!d.supports_gui);
    assert!(!d.supports_state);
    assert_eq!(d.file_path, "/p.clap");
}

#[test]
fn builders_append_ports_in_order() {
    let port = |id: &str| AudioPortInfo {
        id: id.to_string(),
        name: id.to_string(),
        channel_count: 2,
        is_main: false,
    };
    let d = PluginDescriptor::new("id".to_string(), "Name".to_string(), "/p.clap".to_string())
        .with_audio_input(port("in1"))
        .with_audio_input(port("in2"))
        .with_audio_output(port("out"))
        .with_url("https://example.org".to_string())
        .with_file_path("/q.clap".to_string())
        .with_dsp_support(false);
    let ids: Vec<&str> = d.audio_inputs.iter().map(|p| p.id.as_str()).collect();
    assert_eq!(ids, vec!["in1", "in2"]);
    assert_eq!(d.audio_outputs[0].id, "out");
    assert_eq!(d.url, "https://example.org");
    assert_eq!(d.file_path, "/q.clap");
    assert!(!d.supports_dsp);
    let copy = d.duplicate();
    assert_eq!(copy.audio_inputs.len(), 2);
    assert_eq!(copy.url, d.url);
}

#[test]
fn find_parameter_returns_the_first_match() {
    let mut d = PluginDescriptor::new("id".to_string(), "N".to_string(), "/p.clap".to_string())
        .with_parameter(parameter("cutoff", 0.25))
        .with_parameter(parameter("gain", 0.5))
        .with_parameter(parameter("gain", 0.75));
    let p = d.find_parameter("gain").unwrap();
    assert_eq!(f64::from_bits(p.value_bits), 0.5);
    assert!(d.find_parameter("missing").is_none());

    let q = d.find_parameter_mut("gain").unwrap();
    q.value_bits = 0.9f64.to_bits();
    assert_eq!(f64::from_bits(d.parameters[1].value_bits), 0.9);
    assert_eq!(f64::from_bits(d.parameters[2].value_bits), 0.75);
    assert!(d.find_parameter_mut("missing").is_none());
}

#[test]
fn clap_descriptor_needs_id_and_name() {
    let features = vec!["instrument".to_string()];
    let r = convert_clap_descriptor(None, Some("N".to_string()), None, None, None, &features, "/x.clap".to_string());
    assert!(matches!(r, Err(PluginError::LoadFailed(ref m)) if m == "Invalid plugin ID"));
    let r = convert_clap_descriptor(Some("id".to_string()), None, None, None, None, &features, "/x.clap".to_string());
    assert!(matches!(r, Err(PluginError::LoadFailed(ref m)) if m == "Invalid plugin name"));
}

#[test]
fn clap_descriptor_fills_defaults_and_reads_features() {
    let features = vec![
        "stereo".to_string(),
        "synthesizer".to_string(),
        "has-gui-editor".to_string(),
    ];
    let d = convert_clap_descriptor(
        Some("com.example.synth".to_string()),
        Some("Example Synth".to_string()),
        None,
        None,
        None,
        &features,
        "/plugins/synth.clap".to_string(),
    )
    .unwrap();
    assert_eq!(d.id, "com.example.synth");
    assert_eq!(d.name, "Example Synth");
    assert_eq!(d.vendor, "Unknown");
    assert_eq!(d.version, "1.0.0");
    assert_eq!(d.description, "");
    assert_eq!(d.category, PluginCategory::Instrument);
    assert!(d.supports_gui);
    assert!(!d.supports_state);
    assert_eq!(d.file_path, "/plugins/synth.clap");

    let features = vec!["audio-effect".to_string(), "state-aware".to_string()];
    let d = convert_clap_descriptor(
        Some("fx".to_string()),
        Some("FX".to_string()),
        Some("ACME".to_string()),
        Some("2.1".to_string()),
        Some("Reverb".to_string()),
        &features,
        "/fx.clap".to_string(),
    )
    .unwrap();
    assert_eq!(d.vendor, "ACME");
    assert_eq!(d.version, "2.1");
    assert_eq!(d.description, "Reverb");
    assert_eq!(d.category, PluginCategory::Effect);
    assert!(d.supports_state);
    assert!(!d.supports_gui);
}

#[test]
fn clap_version_check_names_the_refused_version() {
    assert!(check_clap_version(&clap_version::new(1, 2, 3)).is_ok());
    match check_clap_version(&clap_version::new(2, 0, 15)) {
        Err(PluginError::LoadFailed(m)) => assert_eq!(m, "Incompatible CLAP version: 2.0.15"),
        _ => panic!("version 2 must be refused"),
    }
    assert!(check_clap_version(&clap_version::new(0, 9, 0)).is_err());
}

fn empty_scanner() -> PluginScanner {
    PluginScanner::new("/tmp/cache.json".to_string(), Vec::new())
}

#[test]
fn test_scanner_creation() {
    let scanner = empty_scanner();
    assert_eq!(scanner.get_all_plugins().len(), 0);
    assert_eq!(scanner.cache_path(), "/tmp/cache.json");
}

#[test]
fn test_cache_operations() {
    let mut scanner = empty_scanner();
    let descriptor = scanner.scan_file("/plugins/test.clap", 100).unwrap();
    assert_eq!(descriptor.id, "test");
    assert_eq!(scanner.get_all_plugins().len(), 1);

    // A scanner built from the saved entries holds the same plugins.
    let scanner2 = PluginScanner::new("/tmp/cache.json".to_string(), scanner.cache_entries());
    assert_eq!(scanner2.get_all_plugins().len(), 1);
}

#[test]
fn test_blacklist() {
    let mut scanner = empty_scanner();
    scanner.add_to_blacklist("bad_plugin".to_string());
    assert_eq!(scanner.get_blacklist().len(), 1);
    scanner.remove_from_blacklist("bad_plugin");
    assert_eq!(scanner.get_blacklist().len(), 0);
}

#[test]
fn test_search_functionality() {
    let mut scanner = empty_scanner();
    scanner.scan_file("/plugins/synth.clap", 1).unwrap();
    scanner.scan_file("/plugins/effect.clap", 1).unwrap();

    let results = scanner.search_by_name("synth");
    assert_eq!(results.len(), 1);
    assert_eq!(results[0].id, "synth");

    let effects = scanner.search_by_category(PluginCategory::Effect);
    assert_eq!(effects.len(), 2);

    let instruments = scanner.search_by_category(PluginCategory::Instrument);
    assert_eq!(instruments.len(), 0);
}

#[test]
fn test_cache_stats() {
    let mut scanner = empty_scanner();
    scanner.scan_file("/plugins/test.clap", 7).unwrap();
    scanner.add_to_blacklist("bad_plugin".to_string());
    let stats = scanner.get_cache_stats();
    assert_eq!(stats.total_plugins, 1);
    assert_eq!(stats.blacklisted_plugins, 1);
}

#[test]
fn test_clear_cache() {
    let mut scanner = empty_scanner();
    scanner.scan_file("/plugins/test.clap", 7).unwrap();
    assert_eq!(scanner.get_all_plugins().len(), 1);
    scanner.clear_cache();
    assert_eq!(scanner.get_all_plugins().len(), 0);
    let scanner2 = PluginScanner::new("/tmp/cache.json".to_string(), scanner.cache_entries());
    assert_eq!(scanner2.get_all_plugins().len(), 0);
}

#[test]
fn blacklisted_files_are_refused_by_substring() {
    let mut scanner = empty_scanner();
    scanner.add_to_blacklist("crashy".to_string());
    assert!(scanner.is_blacklisted("/plugins/crashy-reverb.clap"));
    match scanner.scan_file("/plugins/crashy-reverb.clap", 1) {
        Err(PluginError::LoadFailed(m)) => assert_eq!(m, "Plugin is blacklisted"),
        _ => panic!("blacklisted file must be refused"),
    }
    assert_eq!(scanner.get_cache_stats().total_plugins, 0);
    assert!(scanner.scan_file("/plugins/reverb.clap", 1).is_ok());
}

#[test]
fn rescanning_uses_the_cache_until_the_file_changes() {
    let mut scanner = empty_scanner();
    let first = scanner.scan_file("/plugins/delay.clap", 10).unwrap();
    assert_eq!(first.name, "delay Plugin");
    assert_eq!(first.vendor, "Unknown Vendor");
    assert_eq!(first.description, "A CLAP plugin");
    assert_eq!(first.category, PluginCategory::Effect);
    let again = scanner.scan_file("/plugins/delay.clap", 10).unwrap();
    assert_eq!(again.id, "delay");
    let changed = scanner.scan_file("/plugins/delay.clap", 11).unwrap();
    assert_eq!(changed.id, "delay");
    assert_eq!(scanner.get_cache_stats().total_plugins, 1);
    assert_eq!(scanner.cache_entries()[0].1.last_modified, 11);
}

#[test]
fn searches_ignore_case_and_keep_cache_order() {
    let mut scanner = empty_scanner();
    scanner.scan_file("/p/SuperSynth.clap", 1).unwrap();
    scanner.scan_file("/p/Bass.clap", 1).unwrap();
    scanner.scan_file("/p/synthpad.clap", 1).unwrap();
    let found: Vec<&str> = scanner.search_by_name("SYNTH").iter().map(|d| d.id.as_str()).collect();
    assert_eq!(found, vec!["SuperSynth", "synthpad"]);
    assert_eq!(scanner.search_by_vendor("unknown").len(), 3);
    assert_eq!(scanner.search_by_vendor("acme").len(), 0);
}

#[test]
fn removing_from_blacklist_removes_every_copy() {
    let mut scanner = empty_scanner();
    scanner.add_to_blacklist("a".to_string());
    scanner.add_to_blacklist("b".to_string());
    scanner.add_to_blacklist("a".to_string());
    scanner.remove_from_blacklist("a");
    assert_eq!(scanner.get_blacklist(), &["b".to_string()]);
}

#[test]
fn plugin_errors_read_as_messages() {
    assert_eq!(PluginError::LoadFailed("x".to_string()).to_string(), "Failed to load plugin: x");
    assert_eq!(
        PluginError::InitializationFailed("y".to_string()).to_string(),
        "Plugin initialization failed: y"
    );
    assert_eq!(PluginError::ProcessingFailed("z".to_string()).to_string(), "Plugin processing failed: z");
    assert_eq!(PluginError::InvalidParameter("p".to_string()).to_string(), "Invalid parameter: p");
    assert_eq!(PluginError::GuiFailed("g".to_string()).to_string(), "GUI operation failed: g");
    let io = std::io::Error::new(std::io::ErrorKind::Other, "disk full");
    assert_eq!(PluginError::Io(io).to_string(), "IO error: disk full");
    assert_eq!(
        PluginError::LibraryError(libloading::Error::DlOpenUnknown).to_string(),
        "Library loading error: dlopen failed, but system did not report the error"
    );
}
