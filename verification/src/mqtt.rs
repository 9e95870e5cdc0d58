//! MQTT events and errors, as the service sees them.
use vstd::prelude::*;
use vstd::string::StringExecFns;

use crate::config::Config;

verus! {

/// Error of an MQTT operation.
#[derive(Debug, Clone)]
pub enum MqttError {
    ConnectionFailed(String),
    SubscribeFailed(String),
    PublishFailed(String),
    PollFailed(String),
    ConnectionRefused,
    NotConnected,
    Custom(String),
}

/// Event returned by polling an MQTT connection.
#[derive(Debug, Clone)]
pub enum MqttEvent {
    Connected,
    Disconnected,
    /// A message arrived: topic and payload
    PublishReceived(String, Vec<u8>),
    Subscribed(String),
    Published(String),
    Other(String),
}

/// The human-readable text of an error.
pub open spec fn error_text(e: MqttError) -> Seq<char> {
    match e {
        MqttError::ConnectionFailed(msg) => "Connection failed: "@ + msg@,
        MqttError::SubscribeFailed(msg) => "Subscribe failed: "@ + msg@,
        MqttError::PublishFailed(msg) => "Publish failed: "@ + msg@,
        MqttError::PollFailed(msg) => "Poll failed: "@ + msg@,
        MqttError::ConnectionRefused => "Connection refused"@,
        MqttError::NotConnected => "Not connected"@,
        MqttError::Custom(msg) => msg@,
    }
}

impl MqttError {
    /// The human-readable text of this error (what `Display` shows).
    pub fn describe(&self) -> (text: String)
        ensures
            text@ == error_text(*self),
    {
        match self {
            MqttError::ConnectionFailed(msg) => String::from_str("Connection failed: ").concat(
                msg.as_str(),
            ),
            MqttError::SubscribeFailed(msg) => String::from_str("Subscribe failed: ").concat(
                msg.as_str(),
            ),
            MqttError::PublishFailed(msg) => String::from_str("Publish failed: ").concat(
                msg.as_str(),
            ),
            MqttError::PollFailed(msg) => String::from_str("Poll failed: ").concat(msg.as_str()),
            MqttError::ConnectionRefused => String::from_str("Connection refused"),
            MqttError::NotConnected => String::from_str("Not connected"),
            MqttError::Custom(msg) => msg.clone(),
        }
    }
}

/// How to connect to the broker, as the service does it.
#[derive(Debug, Clone)]
pub struct MqttSettings {
    pub client_id: String,
    pub host: String,
    pub port: u16,
    /// Keep-alive interval, in seconds
    pub keep_alive_secs: u64,
    /// Whether the broker should start a clean session
    pub clean_session: bool,
    /// Delay between outgoing requests, in milliseconds
    pub pending_throttle_ms: u64,
    /// Username and password, when both are configured
    pub credentials: Option<(String, String)>,
    /// Capacity of the client's request queue
    pub request_capacity: usize,
}

/// The credentials to log in with: the configured username and password
/// when both are set, else none.
pub open spec fn spec_credentials(c: Config) -> Option<(Seq<char>, Seq<char>)> {
    match (c.mqtt_username, c.mqtt_password) {
        (Some(u), Some(p)) => Some((u@, p@)),
        _ => None,
    }
}

/// The connection settings for `config`: its client id, broker and port, a
/// keep-alive of 5 s, a persistent session (not clean), a 10 ms throttle
/// between requests, a request queue of 100, and the credentials only when
/// both username and password are configured.
pub fn mqtt_settings(config: &Config) -> (s: MqttSettings)
    ensures
        s.client_id@ == config.client_id@,
        s.host@ == config.mqtt_broker@,
        s.port == config.mqtt_port,
        s.keep_alive_secs == 5,
        !s.clean_session,
        s.pending_throttle_ms == 10,
        s.request_capacity == 100,
        match s.credentials {
            Some((u, p)) => spec_credentials(*config) == Some((u@, p@)),
            None => spec_credentials(*config) is None,
        },
{
    let credentials = match (&config.mqtt_username, &config.mqtt_password) {
        (Some(username), Some(password)) => Some((username.clone(), password.clone())),
        _ => None,
    };
    MqttSettings {
        client_id: config.client_id.clone(),
        host: config.mqtt_broker.clone(),
        port: config.mqtt_port,
        keep_alive_secs: 5,
        clean_session: false,
        pending_throttle_ms: 10,
        credentials,
        request_capacity: 100,
    }
}

} // verus!
