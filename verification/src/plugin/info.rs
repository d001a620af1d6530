//! Summary of a loaded plugin, as shown to the user interface.

use vstd::prelude::*;

verus! {

/// Summary of a plugin.
#[derive(Debug)]
pub struct PluginInfo {
    pub id: String,
    pub name: String,
    pub vendor: String,
    pub path: String,
}

} // verus!
