use mymusic_daw::messaging::notification::{Notification, NotificationCategory, NotificationLevel};

#[test]
fn test_notification_creation() {
    let notif = Notification::error(NotificationCategory::Midi, "Test error".to_string());
    assert_eq!(notif.level, NotificationLevel::Error);
    assert_eq!(notif.category, NotificationCategory::Midi);
    assert_eq!(notif.message, "Test error");
    assert!(notif.timestamp > 0);
}

#[test]
fn test_notification_helpers() {
    let info = Notification::info(NotificationCategory::Audio, "Info".to_string());
    let warning = Notification::warning(NotificationCategory::Cpu, "Warning".to_string());
    let error = Notification::error(NotificationCategory::Generic, "Error".to_string());
    assert_eq!(info.level, NotificationLevel::Info);
    assert_eq!(warning.level, NotificationLevel::Warning);
    assert_eq!(error.level, NotificationLevel::Error);
}

#[test]
fn test_notification_is_recent() {
    let notif = Notification::info(NotificationCategory::Generic, "Test".to_string());
    assert!(notif.is_recent(1000));
    assert!(notif.is_recent(10_000));
}

#[test]
fn recency_is_measured_against_the_given_time() {
    let mut notif = Notification::info(NotificationCategory::Generic, "Test".to_string());
    notif.timestamp = 10_000;
    assert!(notif.is_recent_at(10_500, 1000));
    assert!(!notif.is_recent_at(11_000, 1000));
    // a stamp in the future counts as age zero
    assert!(notif.is_recent_at(9_000, 1));
    assert!(!notif.is_recent_at(9_000, 0));
}
