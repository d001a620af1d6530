//! Connection status of a device, shared between threads.

use std::sync::atomic::{AtomicU8, Ordering};
use std::sync::Arc;
use vstd::prelude::*;

verus! {

/// Connection status of an audio or MIDI device.
#[derive(Debug, Clone, Copy, PartialEq, Eq)]
pub enum DeviceStatus {
    Disconnected,
    Connecting,
    Connected,
    Error,
}

/// The numeric code under which a status is stored.
pub open spec fn spec_status_code(status: DeviceStatus) -> u8 {
    match status {
        DeviceStatus::Disconnected => 0,
        DeviceStatus::Connecting => 1,
        DeviceStatus::Connected => 2,
        DeviceStatus::Error => 3,
    }
}

/// The status a stored code stands for; unknown codes read as disconnected.
pub open spec fn spec_status_from_code(value: u8) -> DeviceStatus {
    if value == 1 {
        DeviceStatus::Connecting
    } else if value == 2 {
        DeviceStatus::Connected
    } else if value == 3 {
        DeviceStatus::Error
    } else {
        DeviceStatus::Disconnected
    }
}

/// The numeric code of a status (0 to 3).
pub fn status_code(status: DeviceStatus) -> (r: u8)
    ensures
        r == spec_status_code(status),
{
    match status {
        DeviceStatus::Disconnected => 0,
        DeviceStatus::Connecting => 1,
        DeviceStatus::Connected => 2,
        DeviceStatus::Error => 3,
    }
}

impl From<u8> for DeviceStatus {
    fn from(value: u8) -> (r: Self) {
        match value {
            0 => DeviceStatus::Disconnected,
            1 => DeviceStatus::Connecting,
            2 => DeviceStatus::Connected,
            3 => DeviceStatus::Error,
            _ => DeviceStatus::Disconnected,
        }
    }
}

impl vstd::std_specs::convert::FromSpecImpl<u8> for DeviceStatus {
    open spec fn obeys_from_spec() -> bool {
        true
    }

    open spec fn from_spec(v: u8) -> DeviceStatus {
        spec_status_from_code(v)
    }
}

/// Decoding the code of a status gives the status back.
pub proof fn law_status_code_roundtrip(status: DeviceStatus)
    ensures
        spec_status_from_code(spec_status_code(status)) == status,
        spec_status_code(status) <= 3,
{
}

/// Atomic status shared between threads (clones share the same cell).
#[derive(Clone)]
pub struct AtomicDeviceStatus {
    inner: Arc<AtomicU8>,
}

impl AtomicDeviceStatus {
    /// A new shared cell holding `status`.
    pub fn new(status: DeviceStatus) -> (r: Self) {
        let code = status_code(status);
        Self { inner: Arc::new(AtomicU8::new(code)) }
    }

    /// The status currently stored. Another thread may have stored any status
    /// since, so only the decoding of the stored code is stated.
    pub fn get(&self) -> (r: DeviceStatus)
        ensures
            exists|code: u8| r == spec_status_from_code(code),
    {
        let code = self.inner.load(Ordering::Relaxed);
        DeviceStatus::from(code)
    }

    /// Stores `status`.
    pub fn set(&self, status: DeviceStatus) {
        let code = status_code(status);
        self.inner.store(code, Ordering::Relaxed);
    }
}

impl Default for AtomicDeviceStatus {
    fn default() -> (r: Self) {
        Self::new(DeviceStatus::Disconnected)
    }
}

} // verus!
