use mymusic_daw::plugin::clap_ffi::clap_version;
use mymusic_daw::plugin::host::HostInfo;
use mymusic_daw::plugin::midi_bridge::default_cc_assignments;
use mymusic_daw::plugin::parameters::AudioPortInfo;

#[test]
fn test_platform_api_selection() {
    // Platform API selection needs a real plugin; nothing to check here.
}

#[test]
fn test_gui_lifecycle() {
    // The GUI lifecycle needs a real plugin; nothing to check here.
}

#[test]
fn test_audio_port_info() {
    let input_port = AudioPortInfo {
        id: "main_input".to_string(),
        name: "Main Input".to_string(),
        channel_count: 2,
        is_main: true,
    };
    assert_eq!(input_port.id, "main_input");
    assert_eq!(input_port.channel_count, 2);
    assert!(input_port.is_main);
}

#[test]
fn test_midi_to_parameter_conversion() {
    let normalized_0 = 0.0 / 127.0;
    let plugin_val_0 = 0.0 + normalized_0 * (1.0 - 0.0);
    assert_eq!(plugin_val_0, 0.0);

    let normalized_127 = 127.0 / 127.0;
    let plugin_val_127 = 0.0 + normalized_127 * (1.0 - 0.0);
    assert_eq!(plugin_val_127, 1.0);

    let normalized_64 = 64.0 / 127.0;
    let plugin_val_64 = 0.0 + normalized_64 * (1.0 - 0.0);
    assert!((plugin_val_64 - 0.504_f64).abs() < 0.01_f64);
}

#[test]
fn test_default_cc_assignments() {
    assert_eq!(default_cc_assignments::VOLUME, 7);
    assert_eq!(default_cc_assignments::PAN, 10);
    assert_eq!(default_cc_assignments::SUSTAIN, 64);
}

#[test]
fn clap_versions_are_compatible_by_major_number() {
    let v1 = clap_version::clap_1_0_0();
    assert_eq!((v1.major, v1.minor, v1.revision), (1, 0, 0));
    assert!(v1.is_compatible(&clap_version::new(1, 7, 3)));
    assert!(!v1.is_compatible(&clap_version::new(2, 0, 0)));
}

#[test]
fn host_info_identifies_the_daw() {
    let h = HostInfo::new();
    assert_eq!(h.name, "MyMusic DAW");
    assert_eq!(h.vendor, "MyMusic");
    assert_eq!(h.url, "https://mymusic.daw");
    assert_eq!(h.version, "0.4.0");
}
