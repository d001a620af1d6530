//! Plugin GUI capability trait and the implementation for plugins without GUI.

use crate::plugin::PluginError;
use vstd::prelude::*;

verus! {

/// GUI-related plugin capabilities.
pub trait PluginGui {
    /// Whether the plugin has a GUI.
    fn has_gui(&self) -> bool;

    /// Show GUI (if supported).
    fn show_gui(&mut self) -> Result<(), PluginError>;

    /// Hide GUI (if supported).
    fn hide_gui(&mut self) -> Result<(), PluginError>;

    /// Whether the GUI is currently visible.
    fn is_gui_visible(&self) -> bool;

    /// Preferred GUI size.
    fn get_gui_size(&self) -> (u32, u32);

    /// Set GUI size (if resizable).
    fn set_gui_size(&mut self, width: u32, height: u32) -> Result<(), PluginError>;
}

/// The error every GUI operation of a plugin without GUI fails with.
pub open spec fn is_no_gui_error(e: PluginError) -> bool {
    e matches PluginError::GuiFailed(msg) && msg@ == "Plugin does not support GUI"@
}

fn no_gui_error() -> (e: PluginError)
    ensures
        is_no_gui_error(e),
{
    PluginError::GuiFailed(String::from_str("Plugin does not support GUI"))
}

/// Implementation for plugins without GUI.
pub struct NoGui;

impl NoGui {
    /// Never has a GUI.
    pub fn has_gui(&self) -> (r: bool)
        ensures
            !r,
    {
        false
    }

    /// Fails: there is no GUI to show.
    pub fn show_gui(&mut self) -> (r: Result<(), PluginError>)
        ensures
            r matches Err(e) && is_no_gui_error(e),
    {
        Err(no_gui_error())
    }

    /// Fails: there is no GUI to hide.
    pub fn hide_gui(&mut self) -> (r: Result<(), PluginError>)
        ensures
            r matches Err(e) && is_no_gui_error(e),
    {
        Err(no_gui_error())
    }

    /// Never visible.
    pub fn is_gui_visible(&self) -> (r: bool)
        ensures
            !r,
    {
        false
    }

    /// Zero by zero.
    pub fn get_gui_size(&self) -> (r: (u32, u32))
        ensures
            r == (0u32, 0u32),
    {
        (0, 0)
    }

    /// Fails: there is no GUI to resize.
    pub fn set_gui_size(&mut self, width: u32, height: u32) -> (r: Result<(), PluginError>)
        ensures
            r matches Err(e) && is_no_gui_error(e),
    {
        Err(no_gui_error())
    }
}

impl PluginGui for NoGui {
    fn has_gui(&self) -> (r: bool)
        ensures
            !r,
    {
        NoGui::has_gui(self)
    }

    fn show_gui(&mut self) -> (r: Result<(), PluginError>)
        ensures
            r matches Err(e) && is_no_gui_error(e),
    {
        NoGui::show_gui(self)
    }

    fn hide_gui(&mut self) -> (r: Result<(), PluginError>)
        ensures
            r matches Err(e) && is_no_gui_error(e),
    {
        NoGui::hide_gui(self)
    }

    fn is_gui_visible(&self) -> (r: bool)
        ensures
            !r,
    {
        NoGui::is_gui_visible(self)
    }

    fn get_gui_size(&self) -> (r: (u32, u32))
        ensures
            r == (0u32, 0u32),
    {
        NoGui::get_gui_size(self)
    }

    fn set_gui_size(&mut self, width: u32, height: u32) -> (r: Result<(), PluginError>)
        ensures
            r matches Err(e) && is_no_gui_error(e),
    {
        NoGui::set_gui_size(self, width, height)
    }
}

} // verus!
