//! Decisions of the MIDI connection manager: what the connection monitor
//! does at each poll, and how each connection attempt is reported.
//!
//! The manager's thread polls the device status, sleeps and talks to the
//! MIDI system; the choices it makes in between are taken here.

use crate::connection::reconnect::{backoff_delay_ms, ReconnectionStrategy};
use crate::connection::status::DeviceStatus;
use crate::messaging::notification::NotificationLevel;
use vstd::prelude::*;

verus! {

/// How long the monitor sleeps between two polls (milliseconds).
pub const POLL_INTERVAL_MS: u64 = 2000;

/// What the monitor does after a poll.
#[derive(Debug, Clone, Copy, PartialEq, Eq)]
pub enum MonitorAction {
    /// Nothing to do: the device is connected, or a connection is under way.
    Wait,
    /// The reconnection attempts are used up: warn that the maximum was
    /// reached, then fall back to the first available device.
    FallBack,
    /// Sleep `delay_ms` (when given), then reconnect to the target device.
    Reconnect { delay_ms: Option<u64> },
}

/// State of the connection monitor between polls.
pub struct MidiMonitor {
    strategy: ReconnectionStrategy,
    consecutive_failures: u32,
}

/// The wait before the next poll after a fallback: long (30 s) once the
/// MIDI system failed to open more than five times, short (5 s) otherwise.
pub open spec fn fallback_wait_ms(consecutive_failures: u32) -> u64 {
    if consecutive_failures > 5 {
        30000
    } else {
        5000
    }
}

impl MidiMonitor {
    pub closed spec fn spec_strategy(&self) -> ReconnectionStrategy {
        self.strategy
    }

    pub closed spec fn spec_consecutive_failures(&self) -> u32 {
        self.consecutive_failures
    }

    /// A monitor with the default reconnection strategy and no failure.
    pub fn new() -> (r: Self)
        ensures
            r.spec_strategy().spec_max_attempts() == 10,
            r.spec_strategy().spec_base_delay_ms() == 1000,
            r.spec_strategy().spec_max_delay_ms() == 30000,
            r.spec_strategy().spec_current_attempt() == 0,
            r.spec_consecutive_failures() == 0,
    {
        Self { strategy: ReconnectionStrategy::new(), consecutive_failures: 0 }
    }

    /// The decision after reading the device status: a connected device
    /// resets the attempts; a connection under way is left alone; a lost
    /// device is reconnected after the next backoff delay, or, with no
    /// attempt left, replaced by the first available device.
    pub fn poll(&mut self, status: DeviceStatus) -> (r: MonitorAction)
        ensures
            final(self).spec_consecutive_failures() == old(self).spec_consecutive_failures(),
            final(self).spec_strategy().spec_max_attempts() == old(self).spec_strategy().spec_max_attempts(),
            final(self).spec_strategy().spec_base_delay_ms() == old(self).spec_strategy().spec_base_delay_ms(),
            final(self).spec_strategy().spec_max_delay_ms() == old(self).spec_strategy().spec_max_delay_ms(),
            match status {
                DeviceStatus::Connected => r == MonitorAction::Wait
                    && final(self).spec_strategy().spec_current_attempt() == 0,
                DeviceStatus::Connecting => r == MonitorAction::Wait
                    && final(self).spec_strategy().spec_current_attempt() == old(self).spec_strategy().spec_current_attempt(),
                _ => if old(self).spec_strategy().spec_current_attempt() >= old(self).spec_strategy().spec_max_attempts() {
                    r == MonitorAction::FallBack
                        && final(self).spec_strategy().spec_current_attempt() == old(self).spec_strategy().spec_current_attempt()
                } else {
                    r == (MonitorAction::Reconnect {
                        delay_ms: Some(
                            backoff_delay_ms(
                                old(self).spec_strategy().spec_base_delay_ms() as nat,
                                old(self).spec_strategy().spec_max_delay_ms() as nat,
                                old(self).spec_strategy().spec_current_attempt() as nat,
                            ) as u64,
                        ),
                    }) && final(self).spec_strategy().spec_current_attempt()
                        == old(self).spec_strategy().spec_current_attempt() + 1
                },
            },
    {
        match status {
            DeviceStatus::Connected => {
                self.strategy.reset();
                MonitorAction::Wait
            },
            DeviceStatus::Connecting => MonitorAction::Wait,
            DeviceStatus::Disconnected | DeviceStatus::Error => {
                if !self.strategy.should_retry() {
                    MonitorAction::FallBack
                } else {
                    let delay_ms = self.strategy.next_delay_ms();
                    MonitorAction::Reconnect { delay_ms }
                }
            },
        }
    }

    /// After a fallback, given whether the MIDI system could be opened:
    /// counts the failure (if any), resets the attempts, and returns how long
    /// to sleep before the next poll. The failure count saturates.
    pub fn fallback_done(&mut self, midi_opened: bool) -> (wait_ms: u64)
        ensures
            final(self).spec_consecutive_failures() == if midi_opened {
                old(self).spec_consecutive_failures() as int
            } else if old(self).spec_consecutive_failures() == u32::MAX {
                u32::MAX as int
            } else {
                old(self).spec_consecutive_failures() + 1
            },
            wait_ms == if midi_opened {
                5000
            } else {
                fallback_wait_ms(final(self).spec_consecutive_failures())
            },
            final(self).spec_strategy().spec_current_attempt() == 0,
            final(self).spec_strategy().spec_max_attempts() == old(self).spec_strategy().spec_max_attempts(),
            final(self).spec_strategy().spec_base_delay_ms() == old(self).spec_strategy().spec_base_delay_ms(),
            final(self).spec_strategy().spec_max_delay_ms() == old(self).spec_strategy().spec_max_delay_ms(),
    {
        if !midi_opened {
            if self.consecutive_failures < u32::MAX {
                self.consecutive_failures = self.consecutive_failures + 1;
            }
            let wait = if self.consecutive_failures > 5 {
                30000
            } else {
                5000
            };
            self.strategy.reset();
            wait
        } else {
            self.strategy.reset();
            5000
        }
    }

    /// After a reconnection attempt that succeeded, the attempts start over.
    pub fn reconnected(&mut self)
        ensures
            final(self).spec_strategy().spec_current_attempt() == 0,
            final(self).spec_consecutive_failures() == old(self).spec_consecutive_failures(),
            final(self).spec_strategy().spec_max_attempts() == old(self).spec_strategy().spec_max_attempts(),
            final(self).spec_strategy().spec_base_delay_ms() == old(self).spec_strategy().spec_base_delay_ms(),
            final(self).spec_strategy().spec_max_delay_ms() == old(self).spec_strategy().spec_max_delay_ms(),
    {
        self.strategy.reset();
    }

    /// The number of reconnection attempts made since the last reset.
    pub fn current_attempt(&self) -> (r: u32)
        ensures
            r == self.spec_strategy().spec_current_attempt(),
    {
        self.strategy.current_attempt()
    }
}

/// What happened when connecting to a MIDI device.
#[derive(Debug, Clone)]
pub enum ConnectOutcome {
    /// The MIDI system could not be opened (with its error text).
    MidiUnavailable(String),
    /// No port has the device's name.
    NotFound,
    /// The connection is open.
    Connected,
    /// Opening the connection failed (with its error text).
    ConnectFailed(String),
}

/// How a connection attempt is reported: the new device status, whether the
/// device is connected, and the notification shown to the user.
#[derive(Debug, Clone)]
pub struct ConnectReport {
    pub status: DeviceStatus,
    pub connected: bool,
    pub level: NotificationLevel,
    pub message: String,
}

/// The report of a first connection to `device`.
pub open spec fn spec_connect_report(outcome: ConnectOutcome, device: Seq<char>) -> (DeviceStatus, bool, NotificationLevel, Seq<char>) {
    match outcome {
        ConnectOutcome::MidiUnavailable(e) => (DeviceStatus::Error, false, NotificationLevel::Error, "Failed to initialize MIDI: "@ + e@),
        ConnectOutcome::NotFound => (DeviceStatus::Disconnected, false, NotificationLevel::Error, "MIDI device '"@ + device + "' not found"@),
        ConnectOutcome::Connected => (DeviceStatus::Connected, true, NotificationLevel::Info, "MIDI connected: "@ + device),
        ConnectOutcome::ConnectFailed(e) => (DeviceStatus::Error, false, NotificationLevel::Error, "Failed to connect to MIDI: "@ + e@),
    }
}

/// Reports a first connection attempt to `device_name`.
pub fn connect_report(outcome: &ConnectOutcome, device_name: &str) -> (r: ConnectReport)
    ensures
        (r.status, r.connected, r.level, r.message@) == spec_connect_report(*outcome, device_name@),
{
    match outcome {
        ConnectOutcome::MidiUnavailable(e) => ConnectReport {
            status: DeviceStatus::Error,
            connected: false,
            level: NotificationLevel::Error,
            message: String::from_str("Failed to initialize MIDI: ").concat(e.as_str()),
        },
        ConnectOutcome::NotFound => {
            let m = String::from_str("MIDI device '").concat(device_name).concat("' not found");
            ConnectReport {
                status: DeviceStatus::Disconnected,
                connected: false,
                level: NotificationLevel::Error,
                message: m,
            }
        },
        ConnectOutcome::Connected => ConnectReport {
            status: DeviceStatus::Connected,
            connected: true,
            level: NotificationLevel::Info,
            message: String::from_str("MIDI connected: ").concat(device_name),
        },
        ConnectOutcome::ConnectFailed(e) => ConnectReport {
            status: DeviceStatus::Error,
            connected: false,
            level: NotificationLevel::Error,
            message: String::from_str("Failed to connect to MIDI: ").concat(e.as_str()),
        },
    }
}

/// What a reconnection attempt by the monitor leads to: the status to store
/// (none when the status is left as it is) and the notification, if any.
pub open spec fn spec_reconnect_report(outcome: ConnectOutcome, device: Seq<char>) -> (Option<DeviceStatus>, Option<(NotificationLevel, Seq<char>)>) {
    match outcome {
        ConnectOutcome::MidiUnavailable(_) => (None, None),
        ConnectOutcome::NotFound => (Some(DeviceStatus::Disconnected), None),
        ConnectOutcome::Connected => (Some(DeviceStatus::Connected), Some((NotificationLevel::Info, "MIDI reconnected: "@ + device))),
        ConnectOutcome::ConnectFailed(_) => (Some(DeviceStatus::Error), Some((NotificationLevel::Error, "MIDI reconnection failed"@))),
    }
}

/// Reports a reconnection attempt of the monitor to `device_name`; a
/// success also resets the attempts of `monitor`.
pub fn reconnect_report(monitor: &mut MidiMonitor, outcome: &ConnectOutcome, device_name: &str) -> (r: (Option<DeviceStatus>, Option<(NotificationLevel, String)>))
    ensures
        (r.0, match r.1 {
            Some(n) => Some((n.0, n.1@)),
            None => None,
        }) == spec_reconnect_report(*outcome, device_name@),
        final(monitor).spec_consecutive_failures() == old(monitor).spec_consecutive_failures(),
        final(monitor).spec_strategy().spec_current_attempt() == match *outcome {
            ConnectOutcome::Connected => 0,
            _ => old(monitor).spec_strategy().spec_current_attempt(),
        },
        final(monitor).spec_strategy().spec_max_attempts() == old(monitor).spec_strategy().spec_max_attempts(),
        final(monitor).spec_strategy().spec_base_delay_ms() == old(monitor).spec_strategy().spec_base_delay_ms(),
        final(monitor).spec_strategy().spec_max_delay_ms() == old(monitor).spec_strategy().spec_max_delay_ms(),
{
    match outcome {
        ConnectOutcome::MidiUnavailable(_) => (None, None),
        ConnectOutcome::NotFound => (Some(DeviceStatus::Disconnected), None),
        ConnectOutcome::Connected => {
            monitor.reconnected();
            (
                Some(DeviceStatus::Connected),
                Some((NotificationLevel::Info, String::from_str("MIDI reconnected: ").concat(device_name))),
            )
        },
        ConnectOutcome::ConnectFailed(_) => (
            Some(DeviceStatus::Error),
            Some((NotificationLevel::Error, String::from_str("MIDI reconnection failed"))),
        ),
    }
}

/// What connecting to the first device leads to, before the connection
/// itself: the MIDI system could not be opened (error status and
/// notification), there is no device (disconnected status, warning), or the
/// first port's name (its name, or "Unknown" when it cannot be read) becomes
/// the target device.
pub enum DefaultTarget {
    Unavailable(ConnectReport),
    NoDevice(ConnectReport),
    Target(String),
}

/// Chooses the device to connect to by default.
pub fn default_target(midi_error: Option<String>, first_port_name: Option<Option<String>>) -> (r: DefaultTarget)
    ensures
        match midi_error {
            Some(e) => r matches DefaultTarget::Unavailable(rep) && rep.status == DeviceStatus::Error
                && !rep.connected && rep.level == NotificationLevel::Error
                && rep.message@ == "Failed to initialize MIDI: "@ + e@,
            None => match first_port_name {
                None => r matches DefaultTarget::NoDevice(rep) && rep.status == DeviceStatus::Disconnected
                    && !rep.connected && rep.level == NotificationLevel::Warning
                    && rep.message@ == "No MIDI devices found"@,
                Some(Some(n)) => r matches DefaultTarget::Target(t) && t@ == n@,
                Some(None) => r matches DefaultTarget::Target(t) && t@ == "Unknown"@,
            },
        },
{
    match midi_error {
        Some(e) => DefaultTarget::Unavailable(ConnectReport {
            status: DeviceStatus::Error,
            connected: false,
            level: NotificationLevel::Error,
            message: String::from_str("Failed to initialize MIDI: ").concat(e.as_str()),
        }),
        None => match first_port_name {
            None => DefaultTarget::NoDevice(ConnectReport {
                status: DeviceStatus::Disconnected,
                connected: false,
                level: NotificationLevel::Warning,
                message: String::from_str("No MIDI devices found"),
            }),
            Some(Some(n)) => DefaultTarget::Target(n),
            Some(None) => DefaultTarget::Target(String::from_str("Unknown")),
        },
    }
}

/// While the status stays lost, the monitor reconnects at most as many
/// times as the strategy allows, then falls back; a fallback resets the
/// attempts, so reconnection starts over at the base delay.
pub proof fn law_fallback_restarts_backoff(s: ReconnectionStrategy)
    requires
        s.spec_current_attempt() == 0,
        s.spec_max_attempts() > 0,
    ensures
        s.spec_next_delay_ms() == Some(
            backoff_delay_ms(s.spec_base_delay_ms() as nat, s.spec_max_delay_ms() as nat, 0) as u64,
        ),
{
}

/// A first connection is reported as connected exactly when the connection
/// opened, and then and only then is the device status "connected" and the
/// notification informative; a device that no port has is reported
/// disconnected, naming the device.
pub proof fn law_connect_report_truthful(outcome: ConnectOutcome, device: Seq<char>)
    ensures
        spec_connect_report(outcome, device).1 <==> outcome is Connected,
        spec_connect_report(outcome, device).1 <==> spec_connect_report(outcome, device).0
            == DeviceStatus::Connected,
        spec_connect_report(outcome, device).1 <==> spec_connect_report(outcome, device).2
            == NotificationLevel::Info,
        outcome is NotFound ==> spec_connect_report(outcome, device).0 == DeviceStatus::Disconnected
            && spec_connect_report(outcome, device).3 == "MIDI device '"@ + device + "' not found"@,
{
}

} // verus!
