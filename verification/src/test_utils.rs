//! Test helpers: a log recorder, a simulated MQTT client and an in-memory
//! broker, and the tokio channels the last two deliver messages over.
pub mod channels;
pub mod in_memory_mock;
pub mod log_capture;
pub mod mock_mqtt;

pub use in_memory_mock::InMemoryMqttMock;
pub use log_capture::TestLogger;
pub use mock_mqtt::MockMqttClient;
