use custom_ha_service::models::SensorData;
use custom_ha_service::mqtt::{MqttError, MqttEvent};
use custom_ha_service::service::{
    handle_payload, handle_sensor_data, next_action, next_publication, next_publish_step, LoopAction, LoopEvent,
    PublishStep, RECONNECT_DELAY_SECS,
};
use custom_ha_service::state::ServiceState;

fn topic() -> String {
    "custom-service/in".to_string()
}

#[test]
fn loop_decisions() {
    let t = topic();
    assert!(matches!(next_action(&t, LoopEvent::Started), LoopAction::Subscribe));
    assert!(matches!(next_action(&t, LoopEvent::Subscribed(Ok(()))), LoopAction::Poll));
    assert!(matches!(
        next_action(&t, LoopEvent::Subscribed(Err(MqttError::NotConnected))),
        LoopAction::Wait(5)
    ));
    assert_eq!(RECONNECT_DELAY_SECS, 5);
    match next_action(&t, LoopEvent::Polled(Ok(MqttEvent::PublishReceived(topic(), b"{}".to_vec())))) {
        LoopAction::HandleMessage(p) => assert_eq!(p, b"{}"),
        _ => panic!("expected HandleMessage"),
    }
    assert!(matches!(
        next_action(&t, LoopEvent::Polled(Ok(MqttEvent::PublishReceived("other".to_string(), vec![1])))),
        LoopAction::Poll
    ));
    assert!(matches!(next_action(&t, LoopEvent::Polled(Ok(MqttEvent::Connected))), LoopAction::Resubscribe));
    assert!(matches!(next_action(&t, LoopEvent::Polled(Ok(MqttEvent::Disconnected))), LoopAction::Wait(5)));
    assert!(matches!(
        next_action(&t, LoopEvent::Polled(Ok(MqttEvent::Other("Keepalive".to_string())))),
        LoopAction::Poll
    ));
    assert!(matches!(next_action(&t, LoopEvent::Polled(Ok(MqttEvent::Subscribed("x".to_string())))), LoopAction::Poll));
    assert!(matches!(next_action(&t, LoopEvent::Polled(Ok(MqttEvent::Published("x".to_string())))), LoopAction::Poll));
    assert!(matches!(
        next_action(&t, LoopEvent::Polled(Err(MqttError::ConnectionRefused))),
        LoopAction::Wait(5)
    ));
    assert!(matches!(next_action(&t, LoopEvent::MessageHandled), LoopAction::Poll));
    assert!(matches!(next_action(&t, LoopEvent::Resubscribed(Ok(()))), LoopAction::Poll));
    assert!(matches!(
        next_action(&t, LoopEvent::Resubscribed(Err(MqttError::NotConnected))),
        LoopAction::Wait(5)
    ));
    assert!(matches!(next_action(&t, LoopEvent::Waited), LoopAction::Subscribe));
}

#[test]
fn duplicate_messages_publish_each_second_once() {
    let mut state = ServiceState::new();
    let first = handle_sensor_data(&mut state, SensorData::new(433, 1000), 433, 10_250);
    assert_eq!(state.last_data_receive_time_ms, Some(10_250));
    let mut published = Vec::new();
    for e in &first {
        if state.claim_timestamp(e.timestamp) {
            published.push(e.timestamp);
        }
    }
    // the same reading again, a sub-second reading later: only gap seconds
    let second = handle_sensor_data(&mut state, SensorData::new(433, 1000), 433, 10_999);
    for e in &second {
        if state.claim_timestamp(e.timestamp) {
            published.push(e.timestamp);
        }
    }
    let third = handle_sensor_data(&mut state, SensorData::new(1, 200), 433, 14_000);
    let fourth = handle_sensor_data(&mut state, SensorData::new(1, 200), 433, 14_500);
    for e in third.iter().chain(fourth.iter()) {
        if state.claim_timestamp(e.timestamp) {
            published.push(e.timestamp);
        }
    }
    assert_eq!(published, vec![9, 10, 11, 12, 13]);
    assert!(state.is_timestamp_published(12));
    assert!(!state.claim_timestamp(12));
    assert!(state.claim_timestamp(99));
    state.update_last_receive(77);
    assert_eq!(state.last_data_receive_time_ms, Some(77));
}

#[test]
fn unparsed_payload_changes_nothing() {
    let mut state = ServiceState::new();
    let entries = handle_payload(&mut state, None, 433, 5_000);
    assert!(entries.is_empty());
    assert!(!state.is_initialized);
    assert_eq!(state.last_data_receive_time_ms, None);
    let entries = handle_payload(&mut state, Some(SensorData::new(866, 2000)), 433, 100_700);
    assert_eq!(entries.iter().map(|e| e.timestamp).collect::<Vec<_>>(), vec![98, 99]);
    assert_eq!(state.last_data_receive_time_ms, Some(100_700));
}

#[test]
fn publications_skip_published_seconds() {
    let mut state = ServiceState::new();
    let entries = handle_sensor_data(&mut state, SensorData::new(433, 4000), 433, 20_000);
    assert_eq!(entries.len(), 4);
    state.mark_timestamp_published(16);
    state.mark_timestamp_published(18);
    let mut order = Vec::new();
    let mut from = 0;
    while let Some(k) = next_publication(&mut state, &entries, from) {
        order.push(entries[k].timestamp);
        from = k + 1;
    }
    assert_eq!(order, vec![17, 19]);
    assert_eq!(next_publication(&mut state, &entries, 0), None);
    assert_eq!(next_publication(&mut state, &entries, 10), None);
}

#[test]
fn publishing_stops_at_the_first_failed_publish() {
    let mut state = ServiceState::new();
    let entries = handle_sensor_data(&mut state, SensorData::new(433, 4000), 433, 20_000);
    let stamps: Vec<u64> = entries.iter().map(|e| e.timestamp).collect();
    assert_eq!(stamps, vec![16, 17, 18, 19]);
    state.mark_timestamp_published(17);

    // First step: entry 0 (second 16) is claimed.
    let step = next_publish_step(&mut state, &entries, 0, Ok(()));
    assert!(matches!(step, PublishStep::Publish(0)));
    assert!(state.is_timestamp_published(16));

    // Its publish succeeded: entry 1 (second 17) was published before, so entry 2.
    let step = next_publish_step(&mut state, &entries, 1, Ok(()));
    assert!(matches!(step, PublishStep::Publish(2)));
    assert!(state.is_timestamp_published(18));

    // Its publish failed: the message stops with that error, entry 3 is not claimed.
    let step = next_publish_step(&mut state, &entries, 3, Err(MqttError::PublishFailed("down".to_string())));
    match step {
        PublishStep::Failed(MqttError::PublishFailed(msg)) => assert_eq!(msg, "down"),
        other => panic!("unexpected step {:?}", other),
    }
    assert!(!state.is_timestamp_published(19));
    assert_eq!(state.published_timestamps.len(), 3);
}

#[test]
fn publishing_is_done_when_every_second_is_published() {
    let mut state = ServiceState::new();
    let entries = handle_sensor_data(&mut state, SensorData::new(433, 2000), 433, 10_000);
    let mut sent = Vec::new();
    let mut from = 0;
    loop {
        match next_publish_step(&mut state, &entries, from, Ok(())) {
            PublishStep::Publish(k) => {
                sent.push(entries[k].timestamp);
                from = k + 1;
            }
            PublishStep::Done => break,
            PublishStep::Failed(e) => panic!("unexpected failure {:?}", e),
        }
    }
    assert_eq!(sent, vec![8, 9]);
    // The same entries again: nothing left to publish.
    assert!(matches!(next_publish_step(&mut state, &entries, 0, Ok(())), PublishStep::Done));
}

#[test]
fn no_second_sent_twice_across_messages() {
    let mut state = ServiceState::new();
    let mut sent: Vec<u64> = Vec::new();
    let readings = [(1299u32, 3000u64, 10_000u64), (433, 1000, 10_400), (866, 2000, 14_000)];
    for (pulses, ms, at) in readings {
        let entries = handle_payload(&mut state, Some(SensorData::new(pulses, ms)), 433, at);
        let mut from = 0;
        while let PublishStep::Publish(k) = next_publish_step(&mut state, &entries, from, Ok(())) {
            sent.push(entries[k].timestamp);
            from = k + 1;
        }
    }
    let mut unique = sent.clone();
    unique.sort();
    unique.dedup();
    assert_eq!(unique.len(), sent.len());
    for t in &sent {
        assert!(state.is_timestamp_published(*t));
    }
}
