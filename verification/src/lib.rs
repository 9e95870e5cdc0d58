//! FlowPulse: turns pulse-sensor readings into a per-second timeseries of
//! water flow rates in litres per minute, filling gaps with zero flow and
//! never publishing the same second twice.
//!
//! - `models`: sensor readings, exact flow rates, timeseries entries
//! - `processor`: flow-rate calculation and gap filling
//! - `state`: the service's state between messages
//! - `service`: what the service does with each message and event
//! - `config`: configuration values and their validation
//! - `mqtt`: MQTT events, errors and connection settings
//! - `time`: clocks, real and simulated
//! - `text`: substring search
//! - `test_utils`: a simulated MQTT client and a log recorder
pub mod models;
pub mod processor;
pub mod state;
pub mod mqtt;
pub mod service;
pub mod config;
pub mod time;
pub mod text;
pub mod test_utils;

use vstd::prelude::*;

verus! {

/// The package version.
pub const VERSION: &'static str = "0.1.0";

/// The package name.
pub const NAME: &'static str = "custom-ha-service";

/// The package version.
pub fn version() -> (v: &'static str)
    ensures
        v@ == "0.1.0"@,
{
    VERSION
}

/// The service's name.
pub fn service_name() -> (n: &'static str)
    ensures
        n@ == "custom-ha-service"@,
{
    NAME
}

} // verus!
