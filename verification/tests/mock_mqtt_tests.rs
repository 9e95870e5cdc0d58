use custom_ha_service::mqtt::{MqttError, MqttEvent};
use custom_ha_service::test_utils::mock_mqtt::IncomingMessages;
use custom_ha_service::test_utils::MockMqttClient;
use tokio::sync::broadcast::error::TryRecvError;

#[test]
fn test_mock_subscribe_and_publish() {
    let mut mock = MockMqttClient::new();

    mock.subscribe("test/topic").unwrap();
    mock.publish("test/topic", b"Hello, World!").unwrap();

    let messages = mock.get_messages_for_topic("test/topic");
    assert_eq!(messages.len(), 1);
    assert_eq!(messages[0], b"Hello, World!");
}

#[test]
fn test_error_injection() {
    let mut mock = MockMqttClient::new();

    mock.inject_publish_error(MqttError::NotConnected);

    let result = mock.publish("test/topic", b"data");
    assert!(matches!(result, Err(MqttError::NotConnected)));

    // Next publish should succeed
    mock.publish("test/topic", b"data").unwrap();
}

#[test]
fn test_connection_break_and_restore() {
    let mut mock = MockMqttClient::new();

    assert!(mock.is_connected());

    mock.break_connection();
    assert!(!mock.is_connected());

    let result = mock.publish("test/topic", b"data");
    assert!(matches!(result, Err(MqttError::NotConnected)));

    mock.restore_connection();
    assert!(mock.is_connected());

    mock.publish("test/topic", b"data").unwrap();
}

#[test]
fn test_inject_incoming_message() {
    let mut mock = MockMqttClient::new();

    mock.inject_incoming_message("input/topic", b"test payload");

    let event = mock.poll().unwrap().unwrap();
    match event {
        MqttEvent::PublishReceived(topic, payload) => {
            assert_eq!(topic, "input/topic");
            assert_eq!(payload, b"test payload");
        }
        _ => panic!("Expected PublishReceived event"),
    }
}

#[test]
fn test_mqtt_error_injection() {
    let mut mock_client = MockMqttClient::new();

    // Test connection failure
    mock_client.break_connection();
    assert!(!mock_client.is_connected());

    let result = mock_client.publish("test/topic", b"data");
    assert!(matches!(result, Err(MqttError::NotConnected)));

    // Restore connection
    mock_client.restore_connection();
    assert!(mock_client.is_connected());

    // Test specific error injection
    mock_client.inject_publish_error(MqttError::ConnectionRefused);
    let result = mock_client.publish("test/topic", b"data");
    assert!(matches!(result, Err(MqttError::ConnectionRefused)));

    // Next publish should succeed
    mock_client.publish("test/topic", b"data").expect("Should succeed after error cleared");
}

#[test]
fn test_message_tracking() {
    let mut mock_client = MockMqttClient::new();

    // Subscribe and publish
    mock_client.subscribe("test/topic").unwrap();
    mock_client.publish("test/topic", b"message 1").unwrap();
    mock_client.publish("test/topic", b"message 2").unwrap();

    // Verify tracking
    let messages = mock_client.get_messages_for_topic("test/topic");
    assert_eq!(messages.len(), 2);
    assert_eq!(messages[0], b"message 1");
    assert_eq!(messages[1], b"message 2");

    // Test has_published_message
    assert!(mock_client.has_published_message("test/topic", "message"));
    assert!(!mock_client.has_published_message("test/topic", "notfound"));

    // Test get_last_message
    let last = mock_client.get_last_message("test/topic");
    assert_eq!(last.unwrap(), b"message 2");

    // Test clear
    mock_client.clear_messages();
    assert!(mock_client.get_messages_for_topic("test/topic").is_empty());
}

#[test]
fn test_incoming_message_injection() {
    let mut mock_client = MockMqttClient::new();

    mock_client.inject_incoming_message("input/topic", b"test payload");

    // Poll should receive the injected message
    let event = mock_client.poll().unwrap().unwrap();
    match event {
        MqttEvent::PublishReceived(topic, payload) => {
            assert_eq!(topic, "input/topic");
            assert_eq!(payload, b"test payload");
        }
        _ => panic!("Expected PublishReceived event"),
    }
}

#[test]
fn poll_order_and_errors() {
    let mut mock = MockMqttClient::new();
    assert!(mock.poll().is_none());
    mock.inject_incoming_message("in", b"x");
    mock.schedule_event(MqttEvent::Connected);
    mock.inject_poll_error(MqttError::PollFailed("boom".to_string()));
    assert!(matches!(mock.poll(), Some(Err(MqttError::PollFailed(_)))));
    assert!(matches!(mock.poll(), Some(Ok(MqttEvent::Connected))));
    assert!(matches!(mock.poll(), Some(Ok(MqttEvent::PublishReceived(_, _)))));
    assert!(mock.poll().is_none());
    mock.break_connection();
    assert!(matches!(mock.poll(), Some(Err(MqttError::ConnectionRefused))));
    mock.clear_errors();
    assert!(!mock.is_connected());
    assert!(mock.poll().is_none());
}

#[test]
fn subscribe_errors_and_topics() {
    let mut mock = MockMqttClient::new();
    mock.inject_subscribe_error(MqttError::SubscribeFailed("nope".to_string()));
    assert!(matches!(mock.subscribe("a"), Err(MqttError::SubscribeFailed(_))));
    assert!(!mock.is_subscribed("a"));
    assert!(mock.subscribe("a").is_ok());
    assert!(mock.subscribe("a").is_ok());
    assert!(mock.is_subscribed("a"));
    assert!(!mock.is_subscribed("b"));
    mock.inject_connection_failure(MqttError::ConnectionFailed("down".to_string()));
    assert!(!mock.is_connected());
    mock.break_connection();
    assert!(matches!(mock.subscribe("b"), Err(MqttError::NotConnected)));
}

#[test]
fn incoming_queue_is_bounded() {
    let mut mock = MockMqttClient::new();
    for i in 0..150u32 {
        mock.inject_incoming_message("in", format!("{}", i).as_bytes());
    }
    let mut count = 0;
    while let Some(Ok(MqttEvent::PublishReceived(_, payload))) = mock.poll() {
        assert_eq!(payload, format!("{}", count).as_bytes());
        count += 1;
    }
    assert_eq!(count, 100);
}

#[test]
fn published_messages_by_topic() {
    let mut mock = MockMqttClient::new();
    mock.publish("a", b"1").unwrap();
    mock.publish("b", b"2").unwrap();
    mock.publish("a", b"3").unwrap();
    let all = mock.get_published_messages();
    assert_eq!(all.len(), 3);
    assert_eq!(all[1], ("b".to_string(), b"2".to_vec()));
    assert_eq!(mock.get_messages_for_topic("a"), vec![b"1".to_vec(), b"3".to_vec()]);
    assert_eq!(mock.get_last_message("b"), Some(b"2".to_vec()));
    assert_eq!(mock.get_last_message("c"), None);
    assert!(mock.has_published_message("a", "3"));
    assert!(!mock.has_published_message("b", "3"));
    mock.publish("bin", &[0xff, b'o', b'k']).unwrap();
    assert!(mock.has_published_message("bin", "ok"));
    assert!(mock.has_published_message("bin", "\u{fffd}ok"));
}

#[test]
fn error_descriptions() {
    assert_eq!(MqttError::ConnectionFailed("x".to_string()).describe(), "Connection failed: x");
    assert_eq!(MqttError::SubscribeFailed("x".to_string()).describe(), "Subscribe failed: x");
    assert_eq!(MqttError::PublishFailed("x".to_string()).describe(), "Publish failed: x");
    assert_eq!(MqttError::PollFailed("x".to_string()).describe(), "Poll failed: x");
    assert_eq!(MqttError::ConnectionRefused.describe(), "Connection refused");
    assert_eq!(MqttError::NotConnected.describe(), "Not connected");
    assert_eq!(MqttError::Custom("x".to_string()).describe(), "x");
}

#[test]
fn connection_failure_fails_next_operation() {
    let mut mock = MockMqttClient::new();
    mock.inject_connection_failure(MqttError::ConnectionRefused);
    assert!(!mock.is_connected());
    assert!(matches!(mock.publish("t", b"d"), Err(MqttError::ConnectionRefused)));
    assert!(mock.publish("t", b"d").is_ok());

    mock.inject_connection_failure(MqttError::ConnectionFailed("x".to_string()));
    assert!(matches!(mock.subscribe("t"), Err(MqttError::ConnectionFailed(_))));
    assert!(mock.subscribe("t").is_ok());

    mock.inject_connection_failure(MqttError::NotConnected);
    mock.schedule_event(MqttEvent::Connected);
    assert!(matches!(mock.poll(), Some(Err(MqttError::NotConnected))));
    assert!(matches!(mock.poll(), Some(Ok(MqttEvent::Connected))));

    // an injected operation error comes first
    mock.inject_connection_failure(MqttError::NotConnected);
    mock.inject_publish_error(MqttError::PublishFailed("p".to_string()));
    assert!(matches!(mock.publish("t", b"d"), Err(MqttError::PublishFailed(_))));
    assert!(matches!(mock.publish("t", b"d"), Err(MqttError::NotConnected)));
}

#[test]
fn pending_poll_ignores_incoming() {
    let mut mock = MockMqttClient::new();
    mock.inject_incoming_message("in", b"m");
    assert!(mock.poll_pending().is_none());
    assert!(matches!(mock.poll(), Some(Ok(MqttEvent::PublishReceived(_, _)))));

    let mut queue = IncomingMessages::new();
    assert!(queue.next().is_none());
    queue.inject("a", b"1");
    queue.inject("b", b"2");
    match queue.next() {
        Some(MqttEvent::PublishReceived(t, p)) => {
            assert_eq!(t, "a");
            assert_eq!(p, b"1");
        }
        _ => panic!("expected the first message"),
    }
    assert!(queue.next().is_some());
    assert!(queue.next().is_none());
}

#[test]
fn receivers_get_messages_published_to_their_topic() {
    let mut mock = MockMqttClient::new();
    let mut rx = mock.subscribe_and_receive("sensors/in");
    assert!(mock.is_subscribed("sensors/in"));
    let mut other = mock.subscribe_and_receive("sensors/other");
    mock.publish("sensors/in", b"reading").unwrap();
    assert_eq!(rx.try_recv().unwrap(), ("sensors/in".to_string(), b"reading".to_vec()));
    assert!(matches!(rx.try_recv(), Err(TryRecvError::Empty)));
    assert!(matches!(other.try_recv(), Err(TryRecvError::Empty)));
}

#[test]
fn second_receiver_shares_the_topic_channel() {
    let mut mock = MockMqttClient::new();
    mock.subscribe("t").unwrap();
    let mut a = mock.subscribe_and_receive("t");
    let mut b = mock.subscribe_and_receive("t");
    mock.publish("t", b"x").unwrap();
    assert_eq!(a.try_recv().unwrap().1, b"x".to_vec());
    assert_eq!(b.try_recv().unwrap().1, b"x".to_vec());
}

#[test]
fn failed_publish_reaches_no_receiver() {
    let mut mock = MockMqttClient::new();
    let mut rx = mock.subscribe_and_receive("t");
    mock.inject_publish_error(MqttError::NotConnected);
    assert!(mock.publish("t", b"lost").is_err());
    assert!(matches!(rx.try_recv(), Err(TryRecvError::Empty)));
    assert!(mock.get_published_messages().is_empty());
}

#[test]
fn incoming_queue_drops_beyond_capacity() {
    let mut q = IncomingMessages::new();
    for i in 0..105u32 {
        q.inject("in", &i.to_le_bytes());
    }
    let mut count = 0u32;
    while let Some(MqttEvent::PublishReceived(topic, payload)) = q.next() {
        assert_eq!(topic, "in");
        assert_eq!(payload, count.to_le_bytes().to_vec());
        count += 1;
    }
    assert_eq!(count, 100);
    q.inject("in", b"again");
    assert!(matches!(q.next(), Some(MqttEvent::PublishReceived(_, p)) if p == b"again".to_vec()));
    assert!(q.next().is_none());
}
