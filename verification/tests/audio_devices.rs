use mymusic_daw::audio::device::describe_output_devices;

#[test]
fn output_devices_are_numbered_and_the_named_default_is_marked() {
    let names = vec![Some("Speakers".to_string()), None, Some("Headphones".to_string())];
    let devices = describe_output_devices(&names, "Headphones");
    assert_eq!(devices.len(), 2);
    assert_eq!(devices[0].id, "audio_out_0");
    assert!(!devices[0].is_default);
    assert_eq!(devices[1].id, "audio_out_2");
    assert_eq!(devices[1].name, "Headphones");
    assert!(devices[1].is_default);
    assert!(describe_output_devices(&names, "").iter().all(|d| !d.is_default));
}
