use mymusic_daw::plugin::display::{check_gui_environment, is_headless_environment, DisplayEnvironment};

fn desktop() -> DisplayEnvironment {
    DisplayEnvironment {
        display_set: true,
        wayland_display_set: false,
        ssh_connection: None,
        ci_markers_set: vec![false, false, false, false],
        window_server_running: None,
    }
}

#[test]
fn desktop_session_is_not_headless() {
    assert!(!is_headless_environment(&desktop()));
    assert_eq!(check_gui_environment(&desktop()), Ok(()));
}

#[test]
fn wayland_alone_is_enough() {
    let mut env = desktop();
    env.display_set = false;
    env.wayland_display_set = true;
    assert!(!is_headless_environment(&env));
}

#[test]
fn no_display_server_is_headless() {
    let mut env = desktop();
    env.display_set = false;
    assert!(is_headless_environment(&env));
    assert_eq!(
        check_gui_environment(&env),
        Err("Cannot show GUI in headless environment (no display server available)".to_string())
    );
}

#[test]
fn ssh_session_is_headless_unless_empty() {
    let mut env = desktop();
    env.ssh_connection = Some("10.0.0.1 5000 10.0.0.2 22".to_string());
    assert!(is_headless_environment(&env));
    env.ssh_connection = Some(String::new());
    assert!(!is_headless_environment(&env));
}

#[test]
fn any_ci_marker_is_headless() {
    let mut env = desktop();
    env.ci_markers_set = vec![false, false, true, false];
    assert!(is_headless_environment(&env));
}

#[test]
fn missing_window_server_is_headless() {
    let mut env = desktop();
    env.window_server_running = Some(false);
    assert!(is_headless_environment(&env));
    env.window_server_running = Some(true);
    assert!(!is_headless_environment(&env));
}
