use mymusic_daw::plugin::gui::{GuiBackend, GuiCapabilities, GuiThreadingModel, KeyModifiers};
use mymusic_daw::plugin::trait_def::{NoGui, PluginGui};
use mymusic_daw::plugin::PluginError;

#[test]
fn test_gui_capabilities() {
    let capabilities = GuiCapabilities::new(GuiBackend::Native)
        .with_resizable(true)
        .with_scaling(true)
        .with_minimum_size(200, 150)
        .with_maximum_size(1920, 1080);
    assert_eq!(capabilities.backend, GuiBackend::Native);
    assert!(capabilities.is_resizable);
    assert!(capabilities.supports_scaling);
    assert_eq!(capabilities.minimum_size, Some((200, 150)));
    assert_eq!(capabilities.maximum_size, Some((1920, 1080)));
}

#[test]
fn test_key_modifiers() {
    let modifiers = KeyModifiers::new().with_shift().with_ctrl();
    assert!(modifiers.shift);
    assert!(modifiers.ctrl);
    assert!(!modifiers.alt);
    assert!(!modifiers.meta);
}

#[test]
fn capabilities_defaults_and_other_builders() {
    let c = GuiCapabilities::new(GuiBackend::Web)
        .with_threading_model(GuiThreadingModel::AnyThread)
        .with_transparency(true);
    assert_eq!(c.threading_model, GuiThreadingModel::AnyThread);
    assert!(c.supports_transparency);
    assert!(!c.is_resizable);
    assert_eq!(c.minimum_size, None);
    let m = KeyModifiers::new().with_alt().with_meta();
    assert_eq!(m, KeyModifiers { shift: false, ctrl: false, alt: true, meta: true });
}

#[test]
fn no_gui_refuses_every_gui_operation() {
    let mut g = NoGui;
    assert!(!PluginGui::has_gui(&g));
    assert!(!PluginGui::is_gui_visible(&g));
    assert_eq!(PluginGui::get_gui_size(&g), (0, 0));
    match PluginGui::show_gui(&mut g) {
        Err(PluginError::GuiFailed(m)) => assert_eq!(m, "Plugin does not support GUI"),
        _ => panic!("expected a GUI failure"),
    }
    let e = PluginGui::set_gui_size(&mut g, 10, 10).unwrap_err();
    assert_eq!(e.to_string(), "GUI operation failed: Plugin does not support GUI");
    assert!(PluginGui::hide_gui(&mut g).is_err());
}
