//! The service's state between messages.
use std::collections::HashSet;
use vstd::prelude::*;

use crate::models::FlowRate;

pub use crate::time::current_time_ms;

verus! {

broadcast use vstd::std_specs::hash::group_hash_axioms;

/// State kept by the service from one sensor message to the next.
#[derive(Debug)]
pub struct ServiceState {
    /// Last calculated flow rate
    pub last_l_per_min: FlowRate,
    /// Timestamp of last sensor message (ms since epoch)
    pub last_sensor_time_ms: u64,
    /// Whether the first message has been received
    pub is_initialized: bool,
    /// Time of the last data received (ms since epoch)
    pub last_data_receive_time_ms: Option<u64>,
    /// Every timestamp published so far, to prevent duplicates
    pub published_timestamps: HashSet<u64>,
    /// The last second (Unix time) covered by processed sensor data
    pub last_published_timestamp: u64,
}

/// The mathematical value of a `ServiceState`.
pub struct ServiceStateView {
    pub last_l_per_min: FlowRate,
    pub last_sensor_time_ms: u64,
    pub is_initialized: bool,
    pub last_data_receive_time_ms: Option<u64>,
    pub published_timestamps: Set<u64>,
    pub last_published_timestamp: u64,
}

impl View for ServiceState {
    type V = ServiceStateView;

    open spec fn view(&self) -> ServiceStateView {
        ServiceStateView {
            last_l_per_min: self.last_l_per_min,
            last_sensor_time_ms: self.last_sensor_time_ms,
            is_initialized: self.is_initialized,
            last_data_receive_time_ms: self.last_data_receive_time_ms,
            published_timestamps: self.published_timestamps@,
            last_published_timestamp: self.last_published_timestamp,
        }
    }
}

/// The state of a service that has received nothing yet.
pub open spec fn initial_state() -> ServiceStateView {
    ServiceStateView {
        last_l_per_min: FlowRate::spec_zero(),
        last_sensor_time_ms: 0,
        is_initialized: false,
        last_data_receive_time_ms: None,
        published_timestamps: Set::empty(),
        last_published_timestamp: 0,
    }
}

impl ServiceState {
    /// A fresh state: nothing received, nothing published.
    pub fn new() -> (s: Self)
        ensures
            s@ == initial_state(),
    {
        ServiceState {
            last_l_per_min: FlowRate::zero(),
            last_sensor_time_ms: 0,
            is_initialized: false,
            last_data_receive_time_ms: None,
            published_timestamps: HashSet::new(),
            last_published_timestamp: 0,
        }
    }

    /// Records the time at which data was last received.
    pub fn update_last_receive(&mut self, timestamp_ms: u64)
        ensures
            final(self)@ == (ServiceStateView {
                last_data_receive_time_ms: Some(timestamp_ms),
                ..old(self)@
            }),
    {
        self.last_data_receive_time_ms = Some(timestamp_ms);
    }

    /// Whether `timestamp` was already published.
    pub fn is_timestamp_published(&self, timestamp: u64) -> (b: bool)
        ensures
            b == self@.published_timestamps.contains(timestamp),
    {
        self.published_timestamps.contains(&timestamp)
    }

    /// Marks `timestamp` as published.
    pub fn mark_timestamp_published(&mut self, timestamp: u64)
        ensures
            final(self)@ == (ServiceStateView {
                published_timestamps: old(self)@.published_timestamps.insert(timestamp),
                ..old(self)@
            }),
    {
        self.published_timestamps.insert(timestamp);
    }

    /// Decides whether an entry for `timestamp` may be published: true, and
    /// the timestamp is marked, exactly when it was not published before;
    /// false, with nothing changed, otherwise.
    pub fn claim_timestamp(&mut self, timestamp: u64) -> (fresh: bool)
        ensures
            fresh == !old(self)@.published_timestamps.contains(timestamp),
            final(self)@ == (ServiceStateView {
                published_timestamps: old(self)@.published_timestamps.insert(timestamp),
                ..old(self)@
            }),
    {
        if self.is_timestamp_published(timestamp) {
            proof {
                assert(old(self)@.published_timestamps.insert(timestamp)
                    =~= old(self)@.published_timestamps);
            }
            false
        } else {
            self.mark_timestamp_published(timestamp);
            true
        }
    }
}

} // verus!
