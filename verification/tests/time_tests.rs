use custom_ha_service::state::current_time_ms;
use custom_ha_service::time::{millis_from_clock, MockTimeProvider, SystemTimeProvider, TimeProvider};

#[test]
fn test_mock_time_provider_initial() {
    let provider = MockTimeProvider::new(1000);
    assert_eq!(provider.now_secs(), 1);
    assert_eq!(provider.now_millis(), 1000);
}

#[test]
fn test_mock_time_advance() {
    let mut provider = MockTimeProvider::new(0);
    provider.advance(500);
    assert_eq!(provider.now_millis(), 500);
    assert_eq!(provider.now_secs(), 0);

    provider.advance(600);
    assert_eq!(provider.now_millis(), 1100);
    assert_eq!(provider.now_secs(), 1);
}

#[test]
fn test_mock_time_advance_secs() {
    let mut provider = MockTimeProvider::new(1000);
    provider.advance_secs(5);
    assert_eq!(provider.now_millis(), 6000);
    assert_eq!(provider.now_secs(), 6);
}

#[test]
fn test_mock_time_set() {
    let mut provider = MockTimeProvider::new(0);
    provider.set_time(50000);
    assert_eq!(provider.now_millis(), 50000);
    assert_eq!(provider.now_secs(), 50);
}

#[test]
fn test_mock_time_determinism() {
    let mut time_provider = MockTimeProvider::new(10000);

    assert_eq!(time_provider.now_secs(), 10);
    assert_eq!(time_provider.now_millis(), 10000);

    time_provider.advance(500);
    assert_eq!(time_provider.now_millis(), 10500);
    assert_eq!(time_provider.now_secs(), 10);

    time_provider.advance(600);
    assert_eq!(time_provider.now_millis(), 11100);
    assert_eq!(time_provider.now_secs(), 11);

    time_provider.set_time(50000);
    assert_eq!(time_provider.now_millis(), 50000);
    assert_eq!(time_provider.now_secs(), 50);
}

#[test]
fn mock_time_default_and_get() {
    let provider = MockTimeProvider::default();
    assert_eq!(provider.get_time_ms(), 0);
    assert_eq!(provider.now_secs(), 0);
}

#[test]
fn test_system_time_provider() {
    let provider = SystemTimeProvider::new();
    let secs = provider.now_secs();
    let millis = provider.now_millis();

    // Basic sanity checks
    assert!(secs > 0);
    assert!(millis > 0);
    assert!(millis >= secs * 1000);
    assert!(millis < (secs + 1) * 1000);
}

#[test]
fn clock_reading_to_millis() {
    assert_eq!(millis_from_clock(0, 0), 0);
    assert_eq!(millis_from_clock(1, 999), 1999);
    assert_eq!(millis_from_clock(1705336230, 42), 1705336230042);
    let wrapped = ((u64::MAX as u128) * 1000 + 5) as u64;
    assert_eq!(millis_from_clock(u64::MAX, 5), wrapped);
}

#[test]
fn current_time_is_after_2020() {
    assert!(current_time_ms() > 1_577_836_800_000);
    assert!(SystemTimeProvider::default().now_secs() > 1_577_836_800);
}
