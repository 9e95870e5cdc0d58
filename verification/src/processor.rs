//! Flow-rate calculation and gap filling.
//!
//! Each sensor reading covers its duration rounded to whole seconds and
//! ends at the second it was received. It becomes one entry per second
//! with the reading's flow rate; any seconds between the last second
//! already covered and the start of the reading are filled with zero flow,
//! and no entry ever repeats or precedes a second already covered.
use vstd::prelude::*;

use crate::models::{rounded_seconds, round_ms_to_secs, FlowRate, SensorData, TimeseriesEntry};
use crate::state::{ServiceState, ServiceStateView};

verus! {

/// The flow rate in L/min for `pulses` counted over `seconds` by a sensor
/// giving `pulses_per_liter` pulses per litre:
/// `(pulses / seconds) * (60 / pulses_per_liter)`, or zero when any of the
/// three is zero.
pub fn calculate_l_per_min(pulses: u32, seconds: u64, pulses_per_liter: u32) -> (rate: FlowRate)
    ensures
        rate == FlowRate::of(pulses, seconds as int, pulses_per_liter),
        rate.wf(),
        rate.spec_numerator() == (if rate == FlowRate::spec_zero() { 0 } else { 60 * pulses }),
        rate != FlowRate::spec_zero() ==> rate.spec_denominator() == seconds * pulses_per_liter,
{
    if seconds == 0 || pulses_per_liter == 0 || pulses == 0 {
        FlowRate::zero()
    } else {
        FlowRate { pulses, seconds, pulses_per_liter }
    }
}

/// The second at which a reading received at `receive_time_sec` starts,
/// before any adjustment: its duration before the receive time, or 0.
pub open spec fn raw_start(data: SensorData, receive_time_sec: u64) -> int {
    let seconds = rounded_seconds(data.time_ms);
    if receive_time_sec >= seconds {
        receive_time_sec - seconds
    } else {
        0
    }
}

/// The first second of the reading's own entries: its raw start, moved
/// forward past the last second already covered once the state is
/// initialized.
pub open spec fn data_start(s: ServiceStateView, data: SensorData, receive_time_sec: u64) -> int {
    let raw = raw_start(data, receive_time_sec);
    if s.is_initialized && raw <= s.last_published_timestamp {
        s.last_published_timestamp + 1
    } else {
        raw
    }
}

/// The first second of the batch: just after the last second covered once
/// initialized (the seconds up to `data_start` are gap), else `data_start`.
pub open spec fn batch_start(s: ServiceStateView, data: SensorData, receive_time_sec: u64) -> int {
    if s.is_initialized {
        s.last_published_timestamp + 1
    } else {
        data_start(s, data, receive_time_sec)
    }
}

/// The entries produced for one reading: consecutive seconds from
/// `batch_start` to the end of the reading, with zero flow before
/// `data_start` and the reading's flow rate from there on.
pub open spec fn batch(
    s: ServiceStateView,
    data: SensorData,
    pulses_per_liter: u32,
    receive_time_sec: u64,
) -> Seq<TimeseriesEntry> {
    let first = batch_start(s, data, receive_time_sec);
    let start = data_start(s, data, receive_time_sec);
    let seconds = rounded_seconds(data.time_ms);
    let rate = FlowRate::of(data.total_pulses, seconds, pulses_per_liter);
    Seq::new(
        (start + seconds - first) as nat,
        |i: int|
            TimeseriesEntry {
                timestamp: (first + i) as u64,
                flow_rate_lpm: if first + i < start {
                    FlowRate::spec_zero()
                } else {
                    rate
                },
            },
    )
}

/// The state after one reading: initialized, remembering the reading's
/// rate, and covering up to the reading's last second (unchanged when the
/// reading rounds to zero seconds).
pub open spec fn next_state(
    s: ServiceStateView,
    data: SensorData,
    pulses_per_liter: u32,
    receive_time_sec: u64,
) -> ServiceStateView {
    let seconds = rounded_seconds(data.time_ms);
    ServiceStateView {
        is_initialized: true,
        last_l_per_min: FlowRate::of(data.total_pulses, seconds, pulses_per_liter),
        last_published_timestamp: if seconds > 0 {
            (data_start(s, data, receive_time_sec) + seconds - 1) as u64
        } else {
            s.last_published_timestamp
        },
        ..s
    }
}

/// The seconds a reading covers, counted from the last second already
/// covered, stay within `u64`.
pub open spec fn processing_fits(s: ServiceStateView, data: SensorData) -> bool {
    s.is_initialized ==> {
        &&& s.last_published_timestamp < u64::MAX
        &&& s.last_published_timestamp + rounded_seconds(data.time_ms) <= u64::MAX
    }
}

/// Whether `process_sensor_data` can take `data` in `state` (see
/// `processing_fits`).
pub fn can_process(state: &ServiceState, data: &SensorData) -> (b: bool)
    ensures
        b == processing_fits(state@, *data),
{
    if !state.is_initialized {
        true
    } else {
        let seconds = round_ms_to_secs(data.time_ms);
        state.last_published_timestamp < u64::MAX
            && seconds <= u64::MAX - state.last_published_timestamp
    }
}

/// Turns a sensor reading received at `receive_time_sec` (Unix seconds)
/// into per-second entries, filling any gap since the last second covered
/// with zero flow, and updates the state.
///
/// The reading covers `rounded_seconds(time_ms)` seconds ending just
/// before `receive_time_sec`, moved forward if needed so that it never
/// overlaps a second already covered.
pub fn process_sensor_data(
    data: SensorData,
    state: &mut ServiceState,
    pulses_per_liter: u32,
    receive_time_sec: u64,
) -> (entries: Vec<TimeseriesEntry>)
    requires
        processing_fits(old(state)@, data),
    ensures
        entries@ == batch(old(state)@, data, pulses_per_liter, receive_time_sec),
        final(state)@ == next_state(old(state)@, data, pulses_per_liter, receive_time_sec),
{
    let ghost s0 = state@;
    let ghost b = batch(s0, data, pulses_per_liter, receive_time_sec);
    let seconds = round_ms_to_secs(data.time_ms);
    let current_l_per_min = calculate_l_per_min(data.total_pulses, seconds, pulses_per_liter);
    let raw_sensor_start_time_sec = receive_time_sec.saturating_sub(seconds);

    let sensor_start_time_sec = if !state.is_initialized {
        raw_sensor_start_time_sec
    } else {
        let min_start_time = state.last_published_timestamp + 1;
        if raw_sensor_start_time_sec >= min_start_time {
            raw_sensor_start_time_sec
        } else {
            min_start_time
        }
    };
    assert(sensor_start_time_sec == data_start(s0, data, receive_time_sec));
    assert(sensor_start_time_sec + seconds <= u64::MAX + 1);

    let mut timeseries: Vec<TimeseriesEntry> = Vec::new();

    if !state.is_initialized {
        state.is_initialized = true;
        state.last_l_per_min = current_l_per_min;
        assert(batch_start(s0, data, receive_time_sec) == sensor_start_time_sec);
        assert(b.len() == seconds);
        for i in 0..seconds
            invariant
                b == batch(s0, data, pulses_per_liter, receive_time_sec),
                b.len() == seconds,
                batch_start(s0, data, receive_time_sec) == sensor_start_time_sec,
                data_start(s0, data, receive_time_sec) == sensor_start_time_sec,
                sensor_start_time_sec + seconds <= u64::MAX + 1,
                current_l_per_min == FlowRate::of(data.total_pulses, seconds as int, pulses_per_liter),
                seconds == rounded_seconds(data.time_ms),
                timeseries@ =~= b.subrange(0, i as int),
        {
            let entry_time_sec = sensor_start_time_sec + i;
            timeseries.push(TimeseriesEntry { timestamp: entry_time_sec, flow_rate_lpm: current_l_per_min });
        }
        if seconds > 0 {
            state.last_published_timestamp = sensor_start_time_sec + (seconds - 1);
        }
        return timeseries;
    }

    let total_time_since_last = receive_time_sec.saturating_sub(state.last_published_timestamp);
    let gap_seconds = total_time_since_last.saturating_sub(seconds);
    let gap_start_sec = state.last_published_timestamp + 1;
    assert(batch_start(s0, data, receive_time_sec) == gap_start_sec);
    assert(gap_seconds == 0 ==> sensor_start_time_sec == gap_start_sec);

    if gap_seconds > 0 {
        let gap_end_sec = sensor_start_time_sec;
        let mut current_gap_sec = gap_start_sec;
        while current_gap_sec < gap_end_sec
            invariant
                b == batch(s0, data, pulses_per_liter, receive_time_sec),
                gap_start_sec == batch_start(s0, data, receive_time_sec),
                gap_end_sec == data_start(s0, data, receive_time_sec),
                gap_start_sec <= current_gap_sec <= gap_end_sec,
                seconds == rounded_seconds(data.time_ms),
                timeseries@ =~= b.subrange(0, current_gap_sec - gap_start_sec),
            decreases gap_end_sec - current_gap_sec,
        {
            timeseries.push(TimeseriesEntry { timestamp: current_gap_sec, flow_rate_lpm: FlowRate::zero() });
            current_gap_sec += 1;
        }
    }

    let gap_len: u64 = sensor_start_time_sec - gap_start_sec;
    assert(timeseries@ =~= b.subrange(0, gap_len as int));
    for i in 0..seconds
        invariant
            b == batch(s0, data, pulses_per_liter, receive_time_sec),
            b.len() == gap_len + seconds,
            gap_start_sec == batch_start(s0, data, receive_time_sec),
            sensor_start_time_sec == data_start(s0, data, receive_time_sec),
            gap_len == sensor_start_time_sec - gap_start_sec,
            sensor_start_time_sec + seconds <= u64::MAX + 1,
            current_l_per_min == FlowRate::of(data.total_pulses, seconds as int, pulses_per_liter),
            seconds == rounded_seconds(data.time_ms),
            timeseries@ =~= b.subrange(0, gap_len + i),
    {
        let entry_time_sec = sensor_start_time_sec + i;
        timeseries.push(TimeseriesEntry { timestamp: entry_time_sec, flow_rate_lpm: current_l_per_min });
    }

    state.last_l_per_min = current_l_per_min;
    if seconds > 0 {
        state.last_published_timestamp = sensor_start_time_sec + (seconds - 1);
    }
    timeseries
}

/// The batch's seconds lie within `u64`: it starts no later than the
/// reading's own entries, which end no later than `u64::MAX`.
pub proof fn lemma_batch_bounds(s: ServiceStateView, data: SensorData, receive_time_sec: u64)
    requires
        processing_fits(s, data),
    ensures
        0 <= batch_start(s, data, receive_time_sec) <= data_start(s, data, receive_time_sec),
        data_start(s, data, receive_time_sec) + rounded_seconds(data.time_ms) <= u64::MAX + 1,
        s.is_initialized ==> data_start(s, data, receive_time_sec) > s.last_published_timestamp,
{
}

/// Within one batch the timestamps are consecutive seconds: each entry is
/// exactly one second after the one before it, so a batch has neither
/// holes nor repeats.
pub proof fn lemma_batch_consecutive(
    s: ServiceStateView,
    data: SensorData,
    pulses_per_liter: u32,
    receive_time_sec: u64,
)
    requires
        processing_fits(s, data),
    ensures
        forall|i: int|
            0 < i < batch(s, data, pulses_per_liter, receive_time_sec).len() ==> #[trigger] batch(
                s,
                data,
                pulses_per_liter,
                receive_time_sec,
            )[i].timestamp == batch(s, data, pulses_per_liter, receive_time_sec)[i - 1].timestamp
                + 1,
{
    lemma_batch_bounds(s, data, receive_time_sec);
}

/// Once initialized, a batch starts right after the last second already
/// covered: it never repeats an earlier second and leaves no hole after it.
pub proof fn lemma_batch_follows_covered(
    s: ServiceStateView,
    data: SensorData,
    pulses_per_liter: u32,
    receive_time_sec: u64,
)
    requires
        processing_fits(s, data),
        s.is_initialized,
    ensures
        forall|i: int|
            0 <= i < batch(s, data, pulses_per_liter, receive_time_sec).len() ==> #[trigger] batch(
                s,
                data,
                pulses_per_liter,
                receive_time_sec,
            )[i].timestamp == s.last_published_timestamp + 1 + i,
{
    lemma_batch_bounds(s, data, receive_time_sec);
}

/// A reading of `n` whole seconds yields exactly `n` entries at its own
/// flow rate (the rate `SensorData::flow_rate_lpm` gives, with the same
/// rounding), at the end of the batch; every entry before them is a
/// zero-flow gap entry.
pub proof fn lemma_batch_shape(
    s: ServiceStateView,
    data: SensorData,
    pulses_per_liter: u32,
    receive_time_sec: u64,
)
    requires
        processing_fits(s, data),
    ensures
        ({
            let b = batch(s, data, pulses_per_liter, receive_time_sec);
            let n = rounded_seconds(data.time_ms);
            let rate = FlowRate::of(data.total_pulses, n, pulses_per_liter);
            &&& b.len() >= n
            &&& forall|i: int| b.len() - n <= i < b.len() ==> #[trigger] b[i].flow_rate_lpm == rate
            &&& forall|i: int| 0 <= i < b.len() - n ==> #[trigger] b[i].flow_rate_lpm
                == FlowRate::spec_zero()
            &&& (!s.is_initialized ==> b.len() == n)
        }),
{
    lemma_batch_bounds(s, data, receive_time_sec);
}

/// The first reading covers the seconds just before it was received: its
/// last entry is one second before the receive time (when the reading is
/// not longer than the time since the epoch).
pub proof fn lemma_first_batch_ends_before_receipt(
    data: SensorData,
    pulses_per_liter: u32,
    receive_time_sec: u64,
)
    requires
        0 < rounded_seconds(data.time_ms) <= receive_time_sec,
    ensures
        ({
            let b = batch(crate::state::initial_state(), data, pulses_per_liter, receive_time_sec);
            &&& b.len() == rounded_seconds(data.time_ms)
            &&& b.last().timestamp == receive_time_sec - 1
        }),
{
}

/// After a reading of at least one second, the state covers exactly up to
/// the last entry of its batch.
pub proof fn lemma_covered_up_to_last_entry(
    s: ServiceStateView,
    data: SensorData,
    pulses_per_liter: u32,
    receive_time_sec: u64,
)
    requires
        processing_fits(s, data),
        rounded_seconds(data.time_ms) > 0,
    ensures
        next_state(s, data, pulses_per_liter, receive_time_sec).last_published_timestamp
            == batch(s, data, pulses_per_liter, receive_time_sec).last().timestamp,
        next_state(s, data, pulses_per_liter, receive_time_sec).is_initialized,
{
    lemma_batch_bounds(s, data, receive_time_sec);
}

/// Two successive readings, the first of at least one second: the second
/// batch continues exactly where the first ended, so that together they
/// form one run of consecutive seconds, and every second of the second
/// batch is later than every second of the first.
pub proof fn lemma_successive_batches_chain(
    s: ServiceStateView,
    first: SensorData,
    second: SensorData,
    pulses_per_liter: u32,
    first_receive_sec: u64,
    second_receive_sec: u64,
)
    requires
        processing_fits(s, first),
        rounded_seconds(first.time_ms) > 0,
        processing_fits(next_state(s, first, pulses_per_liter, first_receive_sec), second),
    ensures
        ({
            let b1 = batch(s, first, pulses_per_liter, first_receive_sec);
            let s1 = next_state(s, first, pulses_per_liter, first_receive_sec);
            let b2 = batch(s1, second, pulses_per_liter, second_receive_sec);
            &&& b2.len() > 0 ==> b2[0].timestamp == b1.last().timestamp + 1
            &&& forall|i: int, j: int|
                0 <= i < b1.len() && 0 <= j < b2.len() ==> #[trigger] b1[i].timestamp
                    < #[trigger] b2[j].timestamp
        }),
{
    let b1 = batch(s, first, pulses_per_liter, first_receive_sec);
    let s1 = next_state(s, first, pulses_per_liter, first_receive_sec);
    lemma_covered_up_to_last_entry(s, first, pulses_per_liter, first_receive_sec);
    lemma_batch_bounds(s, first, first_receive_sec);
    lemma_batch_follows_covered(s1, second, pulses_per_liter, second_receive_sec);
    lemma_batch_bounds(s1, second, second_receive_sec);
}

/// A reading that fits after the last covered second is placed where it
/// happened, however long the gap before it: once the state is initialized,
/// if the reading's `n = round(time_ms / 1000)` seconds (with `n > 0`)
/// before the receive time `t` all come after the last covered second `c`,
/// then the batch is exactly the seconds `c + 1 ..= t - 1` (so `t - 1 - c`
/// entries): zero flow before `t - n`, the reading's rate from `t - n` on,
/// and afterwards the state covers up to `t - 1`, the second just before
/// the receive time.
pub proof fn lemma_reading_ends_at_receipt(
    s: ServiceStateView,
    data: SensorData,
    pulses_per_liter: u32,
    receive_time_sec: u64,
)
    requires
        processing_fits(s, data),
        s.is_initialized,
        0 < (data.time_ms + 500) / 1000 <= receive_time_sec,
        receive_time_sec - (data.time_ms + 500) / 1000 > s.last_published_timestamp,
    ensures
        ({
            let n = (data.time_ms + 500) / 1000;
            let t = receive_time_sec as int;
            let c = s.last_published_timestamp as int;
            let b = batch(s, data, pulses_per_liter, receive_time_sec);
            let rate = FlowRate::of(data.total_pulses, n as int, pulses_per_liter);
            &&& b.len() == t - 1 - c
            &&& forall|i: int| 0 <= i < b.len() ==> #[trigger] b[i].timestamp == c + 1 + i
            &&& b.last().timestamp == t - 1
            &&& forall|i: int|
                0 <= i < b.len() ==> (#[trigger] b[i].flow_rate_lpm == if b[i].timestamp < t - n {
                    FlowRate::spec_zero()
                } else {
                    rate
                })
            &&& next_state(s, data, pulses_per_liter, receive_time_sec).last_published_timestamp
                == t - 1
            &&& next_state(s, data, pulses_per_liter, receive_time_sec).last_l_per_min == rate
            &&& next_state(s, data, pulses_per_liter, receive_time_sec).published_timestamps
                == s.published_timestamps
        }),
{
    lemma_batch_bounds(s, data, receive_time_sec);
}

/// A reading that would overlap seconds already covered is moved forward
/// just past them, keeping all its seconds: once the state is initialized,
/// if the reading's `n` seconds before the receive time `t` do not all come
/// after the last covered second `c` (or `n > t`), the batch is exactly `n`
/// entries at the reading's rate, at the seconds `c + 1 ..= c + n`, and the
/// state then covers up to `c + n`.
pub proof fn lemma_late_reading_follows_covered(
    s: ServiceStateView,
    data: SensorData,
    pulses_per_liter: u32,
    receive_time_sec: u64,
)
    requires
        processing_fits(s, data),
        s.is_initialized,
        (data.time_ms + 500) / 1000 > receive_time_sec || receive_time_sec - (data.time_ms + 500)
            / 1000 <= s.last_published_timestamp,
    ensures
        ({
            let n = (data.time_ms + 500) / 1000;
            let c = s.last_published_timestamp as int;
            let b = batch(s, data, pulses_per_liter, receive_time_sec);
            let rate = FlowRate::of(data.total_pulses, n as int, pulses_per_liter);
            &&& b.len() == n
            &&& forall|i: int|
                0 <= i < b.len() ==> #[trigger] b[i].timestamp == c + 1 + i
                    && b[i].flow_rate_lpm == rate
            &&& n > 0 ==> next_state(
                s,
                data,
                pulses_per_liter,
                receive_time_sec,
            ).last_published_timestamp == c + n
            &&& n == 0 ==> next_state(
                s,
                data,
                pulses_per_liter,
                receive_time_sec,
            ).last_published_timestamp == c
            &&& next_state(s, data, pulses_per_liter, receive_time_sec).last_l_per_min == rate
            &&& next_state(s, data, pulses_per_liter, receive_time_sec).published_timestamps
                == s.published_timestamps
        }),
{
    lemma_batch_bounds(s, data, receive_time_sec);
}

/// The first reading (state not initialized) yields exactly its own `n`
/// seconds at its rate, ending just before the receive time `t` (starting
/// at the epoch when `n > t`), with no gap entries; afterwards the state is
/// initialized, remembers the reading's rate, covers up to its last second,
/// and keeps its published seconds and receive time.
pub proof fn lemma_first_reading_placed_before_receipt(
    s: ServiceStateView,
    data: SensorData,
    pulses_per_liter: u32,
    receive_time_sec: u64,
)
    requires
        !s.is_initialized,
    ensures
        ({
            let n = (data.time_ms + 500) / 1000;
            let t = receive_time_sec as int;
            let first = if n <= t { t - n } else { 0 };
            let b = batch(s, data, pulses_per_liter, receive_time_sec);
            let rate = FlowRate::of(data.total_pulses, n as int, pulses_per_liter);
            let s1 = next_state(s, data, pulses_per_liter, receive_time_sec);
            &&& b.len() == n
            &&& forall|i: int|
                0 <= i < b.len() ==> #[trigger] b[i].timestamp == first + i && b[i].flow_rate_lpm
                    == rate
            &&& n > 0 && n <= t ==> b.last().timestamp == t - 1
            &&& s1.is_initialized
            &&& s1.last_l_per_min == rate
            &&& s1.last_published_timestamp == if n > 0 {
                first + n - 1
            } else {
                s.last_published_timestamp as int
            }
            &&& s1.published_timestamps == s.published_timestamps
            &&& s1.last_data_receive_time_ms == s.last_data_receive_time_ms
        }),
{
    lemma_batch_bounds(s, data, receive_time_sec);
}

} // verus!
