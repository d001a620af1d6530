use mymusic_daw::connection::reconnect::ReconnectionStrategy;
use mymusic_daw::connection::status::{status_code, AtomicDeviceStatus, DeviceStatus};
use std::time::Duration;

#[test]
fn test_exponential_backoff() {
    let mut strategy = ReconnectionStrategy::new();
    assert_eq!(strategy.next_delay(), Some(Duration::from_millis(1000)));
    assert_eq!(strategy.next_delay(), Some(Duration::from_millis(2000)));
    assert_eq!(strategy.next_delay(), Some(Duration::from_millis(4000)));
    assert_eq!(strategy.next_delay(), Some(Duration::from_millis(8000)));
}

#[test]
fn reconnect_test_reset() {
    let mut strategy = ReconnectionStrategy::new();
    strategy.next_delay();
    strategy.next_delay();
    assert_eq!(strategy.current_attempt(), 2);
    strategy.reset();
    assert_eq!(strategy.current_attempt(), 0);
    assert!(strategy.should_retry());
}

#[test]
fn test_max_attempts() {
    let mut strategy = ReconnectionStrategy::with_max_attempts(3);
    assert!(strategy.next_delay().is_some());
    assert!(strategy.next_delay().is_some());
    assert!(strategy.next_delay().is_some());
    assert!(strategy.next_delay().is_none());
    assert!(!strategy.should_retry());
}

#[test]
fn backoff_is_capped_at_thirty_seconds() {
    let mut strategy = ReconnectionStrategy::new();
    let delays: Vec<Option<u64>> = (0..11).map(|_| strategy.next_delay_ms()).collect();
    assert_eq!(
        delays,
        vec![
            Some(1000),
            Some(2000),
            Some(4000),
            Some(8000),
            Some(16000),
            Some(30000),
            Some(30000),
            Some(30000),
            Some(30000),
            Some(30000),
            None
        ]
    );
    // once exhausted, the counter stays put
    assert_eq!(strategy.current_attempt(), 10);
}

#[test]
fn backoff_does_not_overflow_on_many_attempts() {
    let mut strategy = ReconnectionStrategy::with_max_attempts(100);
    let mut last = 0;
    for _ in 0..100 {
        let d = strategy.next_delay_ms().unwrap();
        assert!(d >= last);
        last = d;
    }
    assert_eq!(last, 30000);
}

#[test]
fn status_codes_roundtrip() {
    for s in [
        DeviceStatus::Disconnected,
        DeviceStatus::Connecting,
        DeviceStatus::Connected,
        DeviceStatus::Error,
    ] {
        assert_eq!(DeviceStatus::from(status_code(s)), s);
    }
    assert_eq!(DeviceStatus::from(200u8), DeviceStatus::Disconnected);
}

#[test]
fn atomic_status_is_shared_between_clones() {
    let a = AtomicDeviceStatus::new(DeviceStatus::Connecting);
    let b = a.clone();
    assert_eq!(a.get(), DeviceStatus::Connecting);
    b.set(DeviceStatus::Connected);
    assert_eq!(a.get(), DeviceStatus::Connected);
    assert_eq!(AtomicDeviceStatus::default().get(), DeviceStatus::Disconnected);
}
