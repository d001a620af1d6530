//! Whether a plugin editor window can be shown: the display-server checks,
//! taken over values that the caller read from the process environment.

use vstd::prelude::*;

verus! {

/// What the process environment says about the display server.
pub struct DisplayEnvironment {
    /// `DISPLAY` is set.
    pub display_set: bool,
    /// `WAYLAND_DISPLAY` is set.
    pub wayland_display_set: bool,
    /// The value of `SSH_CONNECTION`, where it is set.
    pub ssh_connection: Option<String>,
    /// For each of the CI markers (`CI`, `GITHUB_ACTIONS`, `JENKINS_URL`,
    /// `GITLAB_CI`), whether it is set.
    pub ci_markers_set: Vec<bool>,
    /// Whether a window server process runs, on platforms that have one to ask.
    pub window_server_running: Option<bool>,
}

/// Some CI marker is set.
pub open spec fn any_marker_set(markers: Seq<bool>) -> bool {
    exists|i: int| 0 <= i < markers.len() && markers[i]
}

/// The environment has no display server to show a window on: neither X11 nor
/// Wayland is announced, or the process runs over SSH, or under CI, or the
/// platform's window server is known not to run.
pub open spec fn headless(env: DisplayEnvironment) -> bool {
    ||| (!env.display_set && !env.wayland_display_set)
    ||| (env.ssh_connection matches Some(s) && s@.len() > 0)
    ||| any_marker_set(env.ci_markers_set@)
    ||| env.window_server_running == Some(false)
}

/// Decides whether `env` is headless.
pub fn is_headless_environment(env: &DisplayEnvironment) -> (r: bool)
    ensures
        r == headless(*env),
{
    if !env.display_set && !env.wayland_display_set {
        return true;
    }
    if let Some(s) = &env.ssh_connection {
        if !s.as_str().is_empty() {
            return true;
        }
    }
    let mut i: usize = 0;
    while i < env.ci_markers_set.len()
        invariant
            0 <= i <= env.ci_markers_set@.len(),
            forall|j: int| 0 <= j < i ==> !env.ci_markers_set@[j],
        decreases env.ci_markers_set@.len() - i,
    {
        if env.ci_markers_set[i] {
            return true;
        }
        i = i + 1;
    }
    match env.window_server_running {
        Some(running) => !running,
        None => false,
    }
}

/// What showing a plugin editor gives in `env`: refused, with the reason,
/// where the environment is headless.
pub fn check_gui_environment(env: &DisplayEnvironment) -> (r: Result<(), String>)
    ensures
        r is Ok <==> !headless(*env),
        r matches Err(m) ==> m@ == "Cannot show GUI in headless environment (no display server available)"@,
{
    if is_headless_environment(env) {
        Err(String::from_str("Cannot show GUI in headless environment (no display server available)"))
    } else {
        Ok(())
    }
}

} // verus!
