//! CPU load levels of the audio callback.

use vstd::prelude::*;

verus! {

/// CPU load level (for UI display).
#[derive(Debug, Clone, Copy, PartialEq)]
pub enum CpuLoad {
    /// Below 50% (green)
    Low,
    /// 50% to 75% (orange)
    Medium,
    /// Above 75% (red)
    High,
}

} // verus!
