use custom_ha_service::config::{parse_port, parse_u32, parse_unsigned_text, Config};
use custom_ha_service::mqtt::mqtt_settings;

fn defaults() -> Config {
    Config::from_settings(None, None, None, None, None, None, None, None)
}

#[test]
fn test_config_defaults() {
    let config = defaults();
    assert!(!config.mqtt_broker.is_empty());
    assert!(config.mqtt_port > 0);
    assert!(!config.subscribe_topic.is_empty());
    assert!(!config.publish_topic.is_empty());
    assert!(config.pulses_per_liter > 0);
}

#[test]
fn config_default_values() {
    let config = defaults();
    assert_eq!(config.mqtt_broker, "homeassistant");
    assert_eq!(config.mqtt_port, 1883);
    assert_eq!(config.mqtt_username, None);
    assert_eq!(config.mqtt_password, None);
    assert_eq!(config.subscribe_topic, "custom-service/in");
    assert_eq!(config.client_id, "flowpulse-mqtt");
    assert_eq!(config.publish_topic, "flowpulse/out");
    assert_eq!(config.pulses_per_liter, 433);
}

#[test]
fn config_settings_override_defaults() {
    let config = Config::from_settings(
        Some("192.168.1.100".to_string()),
        Some("1884".to_string()),
        Some("user".to_string()),
        Some("secret".to_string()),
        Some("sensor/watermeter".to_string()),
        Some("my-client".to_string()),
        Some("home/water/flow".to_string()),
        Some("1000".to_string()),
    );
    assert_eq!(config.mqtt_broker, "192.168.1.100");
    assert_eq!(config.mqtt_port, 1884);
    assert_eq!(config.mqtt_username.as_deref(), Some("user"));
    assert_eq!(config.mqtt_password.as_deref(), Some("secret"));
    assert_eq!(config.subscribe_topic, "sensor/watermeter");
    assert_eq!(config.client_id, "my-client");
    assert_eq!(config.publish_topic, "home/water/flow");
    assert_eq!(config.pulses_per_liter, 1000);
}

#[test]
fn config_bad_numbers_fall_back_to_defaults() {
    let config = Config::from_settings(
        None,
        Some("70000".to_string()),
        None,
        None,
        None,
        None,
        None,
        Some("-5".to_string()),
    );
    assert_eq!(config.mqtt_port, 1883);
    assert_eq!(config.pulses_per_liter, 433);
}

#[test]
fn parsing_follows_unsigned_from_str() {
    let cases: Vec<&str> = vec![
        "", "+", "-", "0", "007", "+42", "-1", "4294967295", "4294967296", " 1", "1 ", "12a", "++1",
        "65535", "65536", "١",
    ];
    for case in cases {
        assert_eq!(parse_unsigned_text(case, u32::MAX as u64), case.parse::<u32>().ok().map(|n| n as u64), "{case:?}");
        assert_eq!(parse_unsigned_text(case, u16::MAX as u64), case.parse::<u16>().ok().map(|n| n as u64), "{case:?}");
    }
    assert_eq!(parse_port(Some("8883".to_string()), 1883), 8883);
    assert_eq!(parse_port(Some("x".to_string()), 1883), 1883);
    assert_eq!(parse_port(None, 1883), 1883);
    assert_eq!(parse_u32(Some("+12".to_string()), 433), 12);
    assert_eq!(parse_u32(Some("".to_string()), 433), 433);
}

#[test]
fn test_config_validation() {
    let config = Config::test_config();
    assert!(config.validate().is_ok());
}

#[test]
fn test_config_validation_empty_broker() {
    let mut config = Config::test_config();
    config.mqtt_broker = "".to_string();
    assert!(config.validate().is_err());
}

#[test]
fn test_config_validation_zero_pulses() {
    let mut config = Config::test_config();
    config.pulses_per_liter = 0;
    assert!(config.validate().is_err());
}

#[test]
fn validation_messages() {
    let mut config = Config::test_config();
    config.mqtt_broker = "".to_string();
    config.pulses_per_liter = 0;
    assert_eq!(config.validate(), Err("MQTT_BROKER cannot be empty".to_string()));
    let mut config = Config::test_config();
    config.subscribe_topic = "".to_string();
    assert_eq!(config.validate(), Err("SUBSCRIBE_TOPIC cannot be empty".to_string()));
    let mut config = Config::test_config();
    config.publish_topic = "".to_string();
    assert_eq!(config.validate(), Err("PUBLISH_TOPIC cannot be empty".to_string()));
    let mut config = Config::test_config();
    config.pulses_per_liter = 0;
    assert_eq!(config.validate(), Err("PULSES_PER_LITER must be greater than 0".to_string()));
}

#[test]
fn test_connection_string() {
    let config = Config::test_config();
    assert_eq!(config.connection_string(), "test-broker:1883");
}

#[test]
fn connection_string_port_digits() {
    let mut config = Config::test_config();
    for port in [0u16, 7, 10, 99, 100, 8883, 65535] {
        config.mqtt_port = port;
        assert_eq!(config.connection_string(), format!("test-broker:{}", port));
    }
}

#[test]
fn settings_credentials_need_both() {
    let mut config = Config::test_config();
    let settings = mqtt_settings(&config);
    assert!(settings.credentials.is_none());
    assert_eq!(settings.keep_alive_secs, 5);
    assert!(!settings.clean_session);
    assert_eq!(settings.pending_throttle_ms, 10);
    assert_eq!(settings.request_capacity, 100);
    assert_eq!(settings.host, "test-broker");
    assert_eq!(settings.client_id, "test-client");
    assert_eq!(settings.port, 1883);
    config.mqtt_username = Some("u".to_string());
    assert!(mqtt_settings(&config).credentials.is_none());
    config.mqtt_password = Some("p".to_string());
    assert_eq!(mqtt_settings(&config).credentials, Some(("u".to_string(), "p".to_string())));
}
