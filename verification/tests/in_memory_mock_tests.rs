use custom_ha_service::test_utils::InMemoryMqttMock;
use tokio::sync::broadcast::error::TryRecvError;

#[test]
fn test_in_memory_mock_pub_sub() {
    let mut mock = InMemoryMqttMock::new();

    let mut rx = mock.subscribe("test/topic");

    mock.publish("test/topic", r#"{"data": "value"}"#).unwrap();

    let received = rx.try_recv();
    assert!(received.is_ok());
    assert_eq!(received.unwrap(), r#"{"data": "value"}"#);

    let messages = mock.get_published_messages();
    assert_eq!(messages.len(), 1);
    assert_eq!(messages[0].0, "test/topic");
}

#[test]
fn test_multiple_subscribers() {
    let mut mock = InMemoryMqttMock::new();

    let mut rx1 = mock.subscribe("shared/topic");
    let mut rx2 = mock.subscribe("shared/topic");

    mock.publish("shared/topic", "broadcast message").unwrap();

    let msg1 = rx1.try_recv().unwrap();
    let msg2 = rx2.try_recv().unwrap();

    assert_eq!(msg1, "broadcast message");
    assert_eq!(msg2, "broadcast message");
}

#[test]
fn test_no_subscriber_no_error() {
    let mut mock = InMemoryMqttMock::new();

    let result = mock.publish("empty/topic", "message");
    assert!(result.is_ok());

    let messages = mock.get_published_messages();
    assert_eq!(messages.len(), 1);
}

#[test]
fn messages_go_only_to_their_topic() {
    let mut mock = InMemoryMqttMock::default();
    let mut a = mock.subscribe("a");
    let mut b = mock.subscribe("b");
    mock.publish("a", "for a").unwrap();
    assert_eq!(a.try_recv().unwrap(), "for a");
    assert!(matches!(b.try_recv(), Err(TryRecvError::Empty)));
    assert!(matches!(a.try_recv(), Err(TryRecvError::Empty)));
}

#[test]
fn late_subscriber_gets_only_later_messages() {
    let mut mock = InMemoryMqttMock::new();
    let _first = mock.subscribe("t");
    mock.publish("t", "early").unwrap();
    let mut late = mock.subscribe("t");
    mock.publish("t", "later").unwrap();
    assert_eq!(late.try_recv().unwrap(), "later");
    assert!(matches!(late.try_recv(), Err(TryRecvError::Empty)));
}

#[test]
fn publish_after_all_receivers_dropped_is_ok() {
    let mut mock = InMemoryMqttMock::new();
    let rx = mock.subscribe("gone");
    drop(rx);
    assert!(mock.publish("gone", "nobody listens").is_ok());
    assert_eq!(mock.get_published_messages().len(), 1);
}

#[test]
fn published_messages_kept_in_order_and_cleared() {
    let mut mock = InMemoryMqttMock::new();
    mock.publish("x", "1").unwrap();
    mock.publish("y", "2").unwrap();
    assert_eq!(
        mock.get_published_messages(),
        vec![("x".to_string(), "1".to_string()), ("y".to_string(), "2".to_string())]
    );
    let mut rx = mock.subscribe("x");
    mock.clear_messages();
    assert!(mock.get_published_messages().is_empty());
    mock.publish("x", "3").unwrap();
    assert_eq!(rx.try_recv().unwrap(), "3");
    assert_eq!(mock.get_published_messages(), vec![("x".to_string(), "3".to_string())]);
}
