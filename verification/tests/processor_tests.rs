use custom_ha_service::models::{FlowRate, SensorData};
use custom_ha_service::processor::{can_process, process_sensor_data};
use custom_ha_service::state::ServiceState;

fn stamps(entries: &[custom_ha_service::models::TimeseriesEntry]) -> Vec<u64> {
    entries.iter().map(|e| e.timestamp).collect()
}

#[test]
fn first_message_sets_state() {
    let mut state = ServiceState::new();
    assert!(!state.is_initialized);
    let entries = process_sensor_data(SensorData::new(80, 10000), &mut state, 433, 1000);
    assert_eq!(stamps(&entries), (990..1000).collect::<Vec<u64>>());
    assert!(state.is_initialized);
    assert_eq!(state.last_l_per_min, entries[0].flow_rate_lpm);
    assert_eq!(state.last_l_per_min.numerator(), 4800);
    assert_eq!(state.last_published_timestamp, 999);
}

#[test]
fn first_message_zero_pulses_is_zero_flow() {
    let mut state = ServiceState::new();
    let entries = process_sensor_data(SensorData::new(0, 10091), &mut state, 433, 50);
    assert_eq!(entries.len(), 10);
    assert!(entries.iter().all(|e| e.is_zero()));
    assert_eq!(state.last_l_per_min, FlowRate::zero());
}

#[test]
fn first_message_before_its_duration_starts_at_zero() {
    let mut state = ServiceState::new();
    let entries = process_sensor_data(SensorData::new(5, 5000), &mut state, 433, 3);
    assert_eq!(stamps(&entries), vec![0, 1, 2, 3, 4]);
    assert_eq!(state.last_published_timestamp, 4);
}

#[test]
fn overlapping_reading_is_moved_forward() {
    let mut state = ServiceState::new();
    process_sensor_data(SensorData::new(433, 3000), &mut state, 433, 100);
    assert_eq!(state.last_published_timestamp, 99);
    // received again 1 s later with 3 s of data: would start at 98
    let entries = process_sensor_data(SensorData::new(433, 3000), &mut state, 433, 101);
    assert_eq!(stamps(&entries), vec![100, 101, 102]);
    assert!(entries.iter().all(|e| !e.is_zero()));
    assert_eq!(state.last_published_timestamp, 102);
}

#[test]
fn sub_second_reading_only_fills_gap() {
    let mut state = ServiceState::new();
    process_sensor_data(SensorData::new(433, 1000), &mut state, 433, 100);
    let entries = process_sensor_data(SensorData::new(10, 300), &mut state, 433, 104);
    assert_eq!(stamps(&entries), vec![100, 101, 102, 103]);
    assert!(entries.iter().all(|e| e.is_zero()));
    // nothing of the reading itself: the covered range stays
    assert_eq!(state.last_published_timestamp, 99);
    assert!(state.last_l_per_min.is_zero());
}

#[test]
fn process_fits_checks() {
    let mut state = ServiceState::new();
    assert!(can_process(&state, &SensorData::new(1, u64::MAX)));
    state.is_initialized = true;
    state.last_published_timestamp = u64::MAX;
    assert!(!can_process(&state, &SensorData::new(1, 0)));
    state.last_published_timestamp = u64::MAX - 2;
    assert!(can_process(&state, &SensorData::new(1, 2000)));
    assert!(!can_process(&state, &SensorData::new(1, 3000)));
    let entries = process_sensor_data(SensorData::new(1, 2000), &mut state, 433, 0);
    assert_eq!(stamps(&entries), vec![u64::MAX - 1, u64::MAX]);
}
