//! Data models: the sensor reading that comes in, and the per-second
//! timeseries entries that go out.
//!
//! Flow rates are held exactly, as the three integers they are computed
//! from, so that every rule about them can be stated and proved; turning
//! one into a floating-point number is left to the caller.
use vstd::prelude::*;

verus! {

/// Rounds a duration in milliseconds to the nearest whole second
/// (half a second rounds up): `(time_ms + 500) / 1000`.
pub open spec fn rounded_seconds(time_ms: u64) -> int {
    (time_ms + 500) / 1000
}

/// Input data from a pulse sensor: `total_pulses` counted over `time_ms`
/// milliseconds.
#[derive(Debug, Clone, Copy, PartialEq, Eq, Structural)]
pub struct SensorData {
    /// Total number of pulses counted
    pub total_pulses: u32,
    /// Duration of the measurement in milliseconds
    pub time_ms: u64,
}

impl SensorData {
    /// Creates a reading from its two fields.
    pub fn new(total_pulses: u32, time_ms: u64) -> (data: Self)
        ensures
            data.total_pulses == total_pulses,
            data.time_ms == time_ms,
    {
        SensorData { total_pulses, time_ms }
    }

    /// The measurement duration in whole seconds, rounded to the nearest
    /// second (below 500 ms rounds down to 0, from 500 ms up to 1).
    pub fn duration_secs(&self) -> (secs: u64)
        ensures
            secs == rounded_seconds(self.time_ms),
    {
        round_ms_to_secs(self.time_ms)
    }

    /// The flow rate of this reading at the given calibration.
    pub fn flow_rate_lpm(&self, pulses_per_liter: u32) -> (rate: FlowRate)
        ensures
            rate == FlowRate::of(self.total_pulses, rounded_seconds(self.time_ms), pulses_per_liter),
    {
        let seconds = self.duration_secs();
        crate::processor::calculate_l_per_min(self.total_pulses, seconds, pulses_per_liter)
    }
}

/// `(time_ms + 500) / 1000`, computed without overflow for every `u64`.
pub fn round_ms_to_secs(time_ms: u64) -> (secs: u64)
    ensures
        secs == rounded_seconds(time_ms),
{
    let whole = time_ms / 1000;
    if time_ms % 1000 >= 500 {
        whole + 1
    } else {
        whole
    }
}

/// A flow rate in litres per minute, held as the integers it is computed
/// from: `(pulses / seconds) * (60 / pulses_per_liter)`.
///
/// Zero flow is the single value with all three fields zero; any other
/// rate has all three fields nonzero (see `wf`). Two rates compare equal
/// (`==`) when they are the same number of litres per minute (see
/// `same_rate`), such as 433 pulses in one second and 866 in two.
#[derive(Debug, Clone, Copy)]
pub struct FlowRate {
    /// Pulses counted
    pub pulses: u32,
    /// Whole seconds over which they were counted
    pub seconds: u64,
    /// Sensor calibration: pulses per litre
    pub pulses_per_liter: u32,
}

impl FlowRate {
    /// Either the canonical zero or all fields nonzero.
    pub open spec fn wf(self) -> bool {
        if self.pulses == 0 {
            self.seconds == 0 && self.pulses_per_liter == 0
        } else {
            self.seconds > 0 && self.pulses_per_liter > 0
        }
    }

    /// The canonical zero flow rate.
    pub open spec fn spec_zero() -> FlowRate {
        FlowRate { pulses: 0, seconds: 0, pulses_per_liter: 0 }
    }

    /// The rate for `pulses` over `seconds` at `pulses_per_liter`: zero if
    /// any of the three is zero.
    pub open spec fn of(pulses: u32, seconds: int, pulses_per_liter: u32) -> FlowRate {
        if seconds <= 0 || pulses_per_liter == 0 || pulses == 0 {
            FlowRate::spec_zero()
        } else {
            FlowRate { pulses, seconds: seconds as u64, pulses_per_liter }
        }
    }

    /// Numerator of the rate in litres per minute: `60 * pulses`.
    pub open spec fn spec_numerator(self) -> int {
        60 * self.pulses
    }

    /// Denominator of the rate in litres per minute: `seconds * pulses_per_liter`
    /// (1 for zero flow).
    pub open spec fn spec_denominator(self) -> int {
        if self.pulses == 0 {
            1
        } else {
            self.seconds * self.pulses_per_liter
        }
    }

    /// Zero flow.
    pub fn zero() -> (rate: FlowRate)
        ensures
            rate == FlowRate::spec_zero(),
            rate.wf(),
    {
        FlowRate { pulses: 0, seconds: 0, pulses_per_liter: 0 }
    }

    /// Whether this is zero flow.
    pub fn is_zero(&self) -> (b: bool)
        ensures
            b == (self.spec_numerator() == 0),
            self.wf() ==> (b == (*self == FlowRate::spec_zero())),
    {
        self.pulses == 0
    }

    /// `60 * pulses`: the rate is `numerator() / denominator()` L/min.
    pub fn numerator(&self) -> (n: u64)
        ensures
            n == self.spec_numerator(),
    {
        60 * (self.pulses as u64)
    }

    /// `seconds * pulses_per_liter` (1 for zero flow): the rate is
    /// `numerator() / denominator()` L/min.
    pub fn denominator(&self) -> (d: u128)
        ensures
            d == self.spec_denominator(),
            self.wf() ==> d > 0,
    {
        if self.pulses == 0 {
            1
        } else {
            proof {
                if self.wf() {
                    vstd::arithmetic::mul::lemma_mul_strictly_positive(
                        self.seconds as int,
                        self.pulses_per_liter as int,
                    );
                }
                vstd::arithmetic::mul::lemma_mul_upper_bound(
                    self.seconds as int,
                    u64::MAX as int,
                    self.pulses_per_liter as int,
                    u32::MAX as int,
                );
            }
            (self.seconds as u128) * (self.pulses_per_liter as u128)
        }
    }
}

/// Whether `a` and `b` are the same number of litres per minute:
/// `numerator / denominator` of each, compared by cross-multiplying.
pub open spec fn same_rate(a: FlowRate, b: FlowRate) -> bool {
    a.spec_numerator() * b.spec_denominator() == b.spec_numerator() * a.spec_denominator()
}

impl PartialEq for FlowRate {
    fn eq(&self, other: &FlowRate) -> (same: bool) {
        if self.pulses == 0 || other.pulses == 0 {
            proof {
                if self.pulses == 0 {
                    vstd::arithmetic::mul::lemma_mul_basics(other.spec_denominator());
                    assert(other.spec_numerator() * self.spec_denominator()
                        == other.spec_numerator());
                } else {
                    vstd::arithmetic::mul::lemma_mul_basics(self.spec_denominator());
                    assert(self.spec_numerator() * other.spec_denominator()
                        == self.spec_numerator());
                }
            }
            self.pulses == 0 && other.pulses == 0
        } else {
            let p1 = self.pulses as u64;
            let q1 = self.pulses_per_liter as u64;
            let s1 = self.seconds as u128;
            let p2 = other.pulses as u64;
            let q2 = other.pulses_per_liter as u64;
            let s2 = other.seconds as u128;
            proof {
                assert(p1 * q2 <= u64::MAX) by (nonlinear_arith)
                    requires
                        p1 <= u32::MAX,
                        q2 <= u32::MAX,
                ;
                assert(p2 * q1 <= u64::MAX) by (nonlinear_arith)
                    requires
                        p2 <= u32::MAX,
                        q1 <= u32::MAX,
                ;
            }
            let a = (p1 * q2) as u128;
            let b = (p2 * q1) as u128;
            proof {
                assert(a * s2 <= u128::MAX) by (nonlinear_arith)
                    requires
                        a <= u64::MAX,
                        s2 <= u64::MAX,
                ;
                assert(b * s1 <= u128::MAX) by (nonlinear_arith)
                    requires
                        b <= u64::MAX,
                        s1 <= u64::MAX,
                ;
                assert((60 * p1) * (s2 * q2) == 60 * (a * s2)) by (nonlinear_arith)
                    requires
                        a == p1 * q2,
                ;
                assert((60 * p2) * (s1 * q1) == 60 * (b * s1)) by (nonlinear_arith)
                    requires
                        b == p2 * q1,
                ;
            }
            assert(self.spec_numerator() * other.spec_denominator() == 60 * (a * s2));
            assert(other.spec_numerator() * self.spec_denominator() == 60 * (b * s1));
            a * s2 == b * s1
        }
    }
}

impl vstd::std_specs::cmp::PartialEqSpecImpl for FlowRate {
    open spec fn obeys_eq_spec() -> bool {
        true
    }

    open spec fn eq_spec(&self, other: &FlowRate) -> bool {
        same_rate(*self, *other)
    }
}

/// One point of the output timeseries: a Unix timestamp in seconds and the
/// flow rate during that second. Two entries compare equal (`==`) when
/// they have the same timestamp and the same rate (`same_rate`).
#[derive(Debug, Clone, Copy)]
pub struct TimeseriesEntry {
    /// Unix timestamp in seconds (UTC)
    pub timestamp: u64,
    /// Flow rate in litres per minute
    pub flow_rate_lpm: FlowRate,
}

impl TimeseriesEntry {
    /// An entry with the given timestamp and rate.
    pub fn new(timestamp: u64, flow_rate_lpm: FlowRate) -> (entry: Self)
        ensures
            entry.timestamp == timestamp,
            entry.flow_rate_lpm == flow_rate_lpm,
    {
        TimeseriesEntry { timestamp, flow_rate_lpm }
    }

    /// A zero-flow entry, as used to fill gaps.
    pub fn zero(timestamp: u64) -> (entry: Self)
        ensures
            entry.timestamp == timestamp,
            entry.flow_rate_lpm == FlowRate::spec_zero(),
    {
        TimeseriesEntry { timestamp, flow_rate_lpm: FlowRate::zero() }
    }

    /// Whether this entry records zero flow.
    pub fn is_zero(&self) -> (b: bool)
        ensures
            b == (self.flow_rate_lpm.spec_numerator() == 0),
            self.flow_rate_lpm.wf() ==> (b == (self.flow_rate_lpm == FlowRate::spec_zero())),
    {
        self.flow_rate_lpm.is_zero()
    }
}

impl PartialEq for TimeseriesEntry {
    fn eq(&self, other: &TimeseriesEntry) -> (same: bool) {
        self.timestamp == other.timestamp && self.flow_rate_lpm.eq(&other.flow_rate_lpm)
    }
}

impl vstd::std_specs::cmp::PartialEqSpecImpl for TimeseriesEntry {
    open spec fn obeys_eq_spec() -> bool {
        true
    }

    open spec fn eq_spec(&self, other: &TimeseriesEntry) -> bool {
        self.timestamp == other.timestamp && same_rate(self.flow_rate_lpm, other.flow_rate_lpm)
    }
}

} // verus!
