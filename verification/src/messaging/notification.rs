//! Notifications shown to the user (errors, warnings, information).

use std::time::{Duration, SystemTime, SystemTimeError, UNIX_EPOCH};
use vstd::prelude::*;

verus! {

/// Severity of a notification.
#[derive(Debug, Clone, Copy, PartialEq, Eq)]
pub enum NotificationLevel {
    Info,
    Warning,
    Error,
}

/// What a notification is about.
#[derive(Debug, Clone, Copy, PartialEq, Eq)]
pub enum NotificationCategory {
    Midi,
    Audio,
    Cpu,
    Generic,
}

/// A notification with its creation time (Unix time in milliseconds).
#[derive(Debug, Clone)]
pub struct Notification {
    pub level: NotificationLevel,
    pub category: NotificationCategory,
    pub message: String,
    pub timestamp: u64,
}

#[verifier::external_type_specification]
#[verifier::external_body]
pub struct ExSystemTime(SystemTime);

#[verifier::external_type_specification]
#[verifier::external_body]
pub struct ExSystemTimeError(SystemTimeError);

/// Reads the wall clock (`SystemTime::now`); the reading depends on the
/// time of the call, so nothing is stated of it.
#[verifier::external_body]
fn system_now() -> SystemTime {
    SystemTime::now()
}

/// The time from the Unix epoch to `t` (`SystemTime::duration_since`
/// `UNIX_EPOCH`); an error for a time before the epoch.
#[verifier::external_body]
fn since_unix_epoch(t: &SystemTime) -> Result<Duration, SystemTimeError> {
    t.duration_since(UNIX_EPOCH)
}

/// Whole milliseconds of a duration (`Duration::as_millis`, truncated to `u64`).
#[verifier::external_body]
fn duration_as_millis(d: &Duration) -> u64 {
    d.as_millis() as u64
}

/// The wall clock measured from the Unix epoch, in milliseconds (zero for a
/// clock set before the epoch).
pub(crate) fn current_unix_millis() -> u64 {
    let now = system_now();
    match since_unix_epoch(&now) {
        Ok(d) => duration_as_millis(&d),
        Err(_) => 0,
    }
}

/// The age of a notification stamped `timestamp` at time `now`
/// (zero for a stamp in the future), compared with `max_age_ms`.
pub open spec fn spec_is_recent_at(timestamp: u64, now: u64, max_age_ms: u64) -> bool {
    (if now >= timestamp {
        now - timestamp
    } else {
        0
    }) < max_age_ms
}

impl Notification {
    /// A notification stamped with the current time.
    pub fn new(level: NotificationLevel, category: NotificationCategory, message: String) -> (r:
        Self)
        ensures
            r.level == level,
            r.category == category,
            r.message@ == message@,
    {
        let timestamp = current_unix_millis();
        Self { level, category, message, timestamp }
    }

    /// An information notification stamped with the current time.
    pub fn info(category: NotificationCategory, message: String) -> (r: Self)
        ensures
            r.level == NotificationLevel::Info,
            r.category == category,
            r.message@ == message@,
    {
        Self::new(NotificationLevel::Info, category, message)
    }

    /// A warning notification stamped with the current time.
    pub fn warning(category: NotificationCategory, message: String) -> (r: Self)
        ensures
            r.level == NotificationLevel::Warning,
            r.category == category,
            r.message@ == message@,
    {
        Self::new(NotificationLevel::Warning, category, message)
    }

    /// An error notification stamped with the current time.
    pub fn error(category: NotificationCategory, message: String) -> (r: Self)
        ensures
            r.level == NotificationLevel::Error,
            r.category == category,
            r.message@ == message@,
    {
        Self::new(NotificationLevel::Error, category, message)
    }

    /// Whether the notification, seen at time `now` (Unix milliseconds), is
    /// younger than `max_age_ms`.
    pub fn is_recent_at(&self, now: u64, max_age_ms: u64) -> (r: bool)
        ensures
            r == spec_is_recent_at(self.timestamp, now, max_age_ms),
    {
        let age = if now >= self.timestamp {
            now - self.timestamp
        } else {
            0
        };
        age < max_age_ms
    }

    /// Whether the notification is younger than `max_age_ms`, measured
    /// against the wall clock at the time of the call.
    pub fn is_recent(&self, max_age_ms: u64) -> (r: bool)
        ensures
            exists|now: u64| r == spec_is_recent_at(self.timestamp, now, max_age_ms),
    {
        let now = current_unix_millis();
        self.is_recent_at(now, max_age_ms)
    }
}

/// A notification is never recent for a zero age limit, and a stamp not
/// older than the limit is always recent.
pub proof fn law_recent_window(timestamp: u64, now: u64, max_age_ms: u64)
    ensures
        !spec_is_recent_at(timestamp, now, 0),
        now <= timestamp && max_age_ms > 0 ==> spec_is_recent_at(timestamp, now, max_age_ms),
        now >= timestamp && now - timestamp < max_age_ms ==> spec_is_recent_at(
            timestamp,
            now,
            max_age_ms,
        ),
{
}

} // verus!
