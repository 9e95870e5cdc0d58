//! What the service does with each message and each connection event.
//!
//! The service's run loop alternates MQTT I/O with decisions. The
//! decisions stand here: `next_action` says, for the outcome of the last
//! action, what to do next; `handle_payload` turns a payload, parsed or
//! not, into entries; `next_publish_step` says, after each publish, which
//! entry to publish next (one whose second was not published yet), or that
//! the message is done, or that it failed. The caller performs the
//! publishes and the other actions.
use vstd::prelude::*;

use crate::models::{SensorData, TimeseriesEntry};
use crate::mqtt::{MqttError, MqttEvent};
use crate::processor::{batch, next_state, process_sensor_data, processing_fits};
use crate::state::{ServiceState, ServiceStateView};

verus! {

/// Seconds to wait after a failed subscription or a lost connection
/// before subscribing again.
pub const RECONNECT_DELAY_SECS: u64 = 5;

/// The outcome of the service's last action, handed to `next_action`.
#[derive(Debug)]
pub enum LoopEvent {
    /// The service has just started.
    Started,
    /// The subscription to the input topic was attempted.
    Subscribed(Result<(), MqttError>),
    /// The connection was polled.
    Polled(Result<MqttEvent, MqttError>),
    /// An incoming message was handled (whether or not that succeeded).
    MessageHandled,
    /// The subscription was renewed after a (re)connection.
    Resubscribed(Result<(), MqttError>),
    /// The reconnect delay has elapsed.
    Waited,
}

/// What the service does next.
#[derive(Debug, Clone)]
pub enum LoopAction {
    /// Subscribe to the input topic.
    Subscribe,
    /// Poll the connection for the next event.
    Poll,
    /// Handle this payload received on the input topic.
    HandleMessage(Vec<u8>),
    /// Renew the subscription after the broker reports a connection.
    Resubscribe,
    /// Wait this many seconds, then subscribe again.
    Wait(u64),
}

/// The decision table of the run loop.
pub open spec fn spec_next_action(subscribe_topic: Seq<char>, event: LoopEvent) -> LoopAction {
    match event {
        LoopEvent::Started => LoopAction::Subscribe,
        LoopEvent::Subscribed(Ok(_)) => LoopAction::Poll,
        LoopEvent::Subscribed(Err(_)) => LoopAction::Wait(RECONNECT_DELAY_SECS),
        LoopEvent::Polled(Ok(MqttEvent::PublishReceived(topic, payload))) => if topic@
            == subscribe_topic {
            LoopAction::HandleMessage(payload)
        } else {
            LoopAction::Poll
        },
        LoopEvent::Polled(Ok(MqttEvent::Connected)) => LoopAction::Resubscribe,
        LoopEvent::Polled(Ok(MqttEvent::Disconnected)) => LoopAction::Wait(RECONNECT_DELAY_SECS),
        LoopEvent::Polled(Ok(_)) => LoopAction::Poll,
        LoopEvent::Polled(Err(_)) => LoopAction::Wait(RECONNECT_DELAY_SECS),
        LoopEvent::MessageHandled => LoopAction::Poll,
        LoopEvent::Resubscribed(Ok(_)) => LoopAction::Poll,
        LoopEvent::Resubscribed(Err(_)) => LoopAction::Wait(RECONNECT_DELAY_SECS),
        LoopEvent::Waited => LoopAction::Subscribe,
    }
}

/// What to do after `event`, for a service subscribed to `subscribe_topic`:
/// subscribe at start and after every wait; poll once subscribed; handle
/// each message on the input topic and ignore other topics; renew the
/// subscription when the broker reports a connection; and on a failed
/// subscription, a lost connection or a polling error, wait
/// `RECONNECT_DELAY_SECS` and subscribe again.
pub fn next_action(subscribe_topic: &String, event: LoopEvent) -> (action: LoopAction)
    ensures
        action == spec_next_action(subscribe_topic@, event),
{
    match event {
        LoopEvent::Started => LoopAction::Subscribe,
        LoopEvent::Subscribed(Ok(_)) => LoopAction::Poll,
        LoopEvent::Subscribed(Err(_)) => LoopAction::Wait(RECONNECT_DELAY_SECS),
        LoopEvent::Polled(Ok(MqttEvent::PublishReceived(topic, payload))) => {
            if topic == *subscribe_topic {
                LoopAction::HandleMessage(payload)
            } else {
                LoopAction::Poll
            }
        },
        LoopEvent::Polled(Ok(MqttEvent::Connected)) => LoopAction::Resubscribe,
        LoopEvent::Polled(Ok(MqttEvent::Disconnected)) => LoopAction::Wait(RECONNECT_DELAY_SECS),
        LoopEvent::Polled(Ok(_)) => LoopAction::Poll,
        LoopEvent::Polled(Err(_)) => LoopAction::Wait(RECONNECT_DELAY_SECS),
        LoopEvent::MessageHandled => LoopAction::Poll,
        LoopEvent::Resubscribed(Ok(_)) => LoopAction::Poll,
        LoopEvent::Resubscribed(Err(_)) => LoopAction::Wait(RECONNECT_DELAY_SECS),
        LoopEvent::Waited => LoopAction::Subscribe,
    }
}

/// Every outcome gets an answer that keeps the service running: after any
/// failure the service waits and subscribes again, and every message on
/// the input topic is handled.
pub proof fn lemma_loop_never_stops(subscribe_topic: Seq<char>, event: LoopEvent)
    ensures
        match event {
            LoopEvent::Subscribed(Err(_)) | LoopEvent::Polled(Err(_)) | LoopEvent::Resubscribed(
                Err(_),
            ) | LoopEvent::Polled(Ok(MqttEvent::Disconnected)) => spec_next_action(
                subscribe_topic,
                event,
            ) == LoopAction::Wait(RECONNECT_DELAY_SECS) && spec_next_action(
                subscribe_topic,
                LoopEvent::Waited,
            ) == LoopAction::Subscribe,
            LoopEvent::Polled(Ok(MqttEvent::PublishReceived(topic, payload))) => topic@
                == subscribe_topic ==> spec_next_action(subscribe_topic, event)
                == LoopAction::HandleMessage(payload),
            _ => true,
        },
{
}

/// Handles a reading received at `receive_time_ms` (milliseconds since the
/// epoch): records the receive time, in milliseconds, then processes the
/// reading at the receive time in whole seconds (see `process_sensor_data`).
pub fn handle_sensor_data(
    state: &mut ServiceState,
    data: SensorData,
    pulses_per_liter: u32,
    receive_time_ms: u64,
) -> (entries: Vec<TimeseriesEntry>)
    requires
        processing_fits(old(state)@, data),
    ensures
        entries@ == batch(old(state)@, data, pulses_per_liter, receive_time_ms / 1000),
        final(state)@ == next_state(
            ServiceStateView { last_data_receive_time_ms: Some(receive_time_ms), ..old(state)@ },
            data,
            pulses_per_liter,
            receive_time_ms / 1000,
        ),
        final(state)@.last_data_receive_time_ms == Some(receive_time_ms),
{
    state.update_last_receive(receive_time_ms);
    process_sensor_data(data, state, pulses_per_liter, receive_time_ms / 1000)
}

/// What a call of `handle_payload(state, parsed, pulses_per_liter,
/// receive_time_ms)` does, from the state `before` to the state `after`,
/// returning `entries`: a payload that did not parse changes nothing and
/// yields nothing; a reading yields its batch, processed at the receive time
/// in whole seconds, and leaves the state that processing it leaves, with
/// the receive time recorded in milliseconds.
pub open spec fn message_step(
    before: ServiceStateView,
    parsed: Option<SensorData>,
    pulses_per_liter: u32,
    receive_time_ms: u64,
    entries: Seq<TimeseriesEntry>,
    after: ServiceStateView,
) -> bool {
    match parsed {
        None => entries.len() == 0 && after == before,
        Some(data) => {
            &&& entries == batch(before, data, pulses_per_liter, receive_time_ms / 1000)
            &&& after == next_state(
                ServiceStateView { last_data_receive_time_ms: Some(receive_time_ms), ..before },
                data,
                pulses_per_liter,
                receive_time_ms / 1000,
            )
        },
    }
}

/// Handles an incoming payload, parsed as a reading or not: a payload that
/// did not parse (`None`) changes nothing and yields no entries; a reading
/// is handled by `handle_sensor_data` (see `message_step`).
pub fn handle_payload(
    state: &mut ServiceState,
    parsed: Option<SensorData>,
    pulses_per_liter: u32,
    receive_time_ms: u64,
) -> (entries: Vec<TimeseriesEntry>)
    requires
        parsed matches Some(data) ==> processing_fits(old(state)@, data),
    ensures
        message_step(
            old(state)@,
            parsed,
            pulses_per_liter,
            receive_time_ms,
            entries@,
            final(state)@,
        ),
{
    match parsed {
        None => Vec::new(),
        Some(data) => handle_sensor_data(state, data, pulses_per_liter, receive_time_ms),
    }
}

/// What a call of `next_publication(state, entries, from)` does, from the
/// state `before` to the state `after`, answering `next`: `Some(k)` names
/// the first entry from `from` on whose second was not published, and that
/// second is then marked published; `None` means every entry from `from` on
/// has a published second, and nothing changes.
pub open spec fn picks_next(
    before: ServiceStateView,
    entries: Seq<TimeseriesEntry>,
    from: int,
    next: Option<usize>,
    after: ServiceStateView,
) -> bool {
    match next {
        Some(k) => {
            &&& from <= k < entries.len()
            &&& forall|j: int|
                from <= j < k ==> before.published_timestamps.contains(
                    #[trigger] entries[j].timestamp,
                )
            &&& !before.published_timestamps.contains(entries[k as int].timestamp)
            &&& after == (ServiceStateView {
                published_timestamps: before.published_timestamps.insert(
                    entries[k as int].timestamp,
                ),
                ..before
            })
        },
        None => {
            &&& forall|j: int|
                from <= j < entries.len() ==> before.published_timestamps.contains(
                    #[trigger] entries[j].timestamp,
                )
            &&& after == before
        },
    }
}

/// The next entry of `entries`, from index `from` on, that may be
/// published: skips the entries whose second was already published, and
/// claims (marks as published) the second of the entry it returns. `None`
/// when every remaining entry's second was already published; nothing is
/// changed then.
pub fn next_publication(state: &mut ServiceState, entries: &Vec<TimeseriesEntry>, from: usize) -> (next: Option<usize>)
    ensures
        picks_next(old(state)@, entries@, from as int, next, final(state)@),
{
    let mut i = from;
    while i < entries.len()
        invariant
            from <= i,
            state@ == old(state)@,
            forall|j: int|
                from <= j < i ==> old(state)@.published_timestamps.contains(
                    #[trigger] entries@[j].timestamp,
                ),
        decreases entries@.len() - i,
    {
        if state.claim_timestamp(entries[i].timestamp) {
            return Some(i);
        }
        proof {
            assert(old(state)@.published_timestamps.insert(entries@[i as int].timestamp)
                =~= old(state)@.published_timestamps);
        }
        i = i + 1;
    }
    None
}

/// What to do next while publishing the entries of one message.
#[derive(Debug)]
pub enum PublishStep {
    /// Publish the entry at this index; its second is now marked published.
    Publish(usize),
    /// Every remaining entry's second was published already: the message
    /// is done.
    Done,
    /// The last publish failed with this error: publish nothing more, and
    /// report it.
    Failed(MqttError),
}

/// What a call of `next_publish_step(state, entries, from, last)` does,
/// from the state `before` to the state `after`, answering `step`: after a
/// failed publish it stops with that error and changes nothing; otherwise it
/// answers as `next_publication` does (`picks_next`), `Publish(k)` for
/// `Some(k)` and `Done` for `None`.
pub open spec fn publication_step(
    before: ServiceStateView,
    entries: Seq<TimeseriesEntry>,
    from: int,
    last: Result<(), MqttError>,
    step: PublishStep,
    after: ServiceStateView,
) -> bool {
    match last {
        Err(e) => step == PublishStep::Failed(e) && after == before,
        Ok(_) => match step {
            PublishStep::Publish(k) => picks_next(before, entries, from, Some(k), after),
            PublishStep::Done => picks_next(before, entries, from, None, after),
            PublishStep::Failed(_) => false,
        },
    }
}

/// The next step of publishing `entries`, given the outcome `last` of the
/// previous publish (`Ok(())` before the first one, and after an entry that
/// could not be serialized): a failed publish ends the message with its
/// error, and no later entry is claimed; otherwise the next entry from
/// `from` on whose second was not published is claimed and named, or the
/// message is done (see `publication_step`).
pub fn next_publish_step(
    state: &mut ServiceState,
    entries: &Vec<TimeseriesEntry>,
    from: usize,
    last: Result<(), MqttError>,
) -> (step: PublishStep)
    ensures
        publication_step(old(state)@, entries@, from as int, last, step, final(state)@),
{
    match last {
        Err(e) => PublishStep::Failed(e),
        Ok(()) => match next_publication(state, entries, from) {
            Some(k) => PublishStep::Publish(k),
            None => PublishStep::Done,
        },
    }
}

/// One call made on the service's state while it runs, with its arguments
/// and its result.
pub enum ServiceStep {
    /// `handle_payload` took this payload and returned `entries`.
    Message {
        parsed: Option<SensorData>,
        pulses_per_liter: u32,
        receive_time_ms: u64,
        entries: Seq<TimeseriesEntry>,
    },
    /// `next_publish_step` took these arguments and answered `step`.
    Publication {
        entries: Seq<TimeseriesEntry>,
        from: usize,
        last: Result<(), MqttError>,
        step: PublishStep,
    },
}

/// The call `step` took the state from `before` to `after`, as its
/// contract says.
pub open spec fn service_step(before: ServiceStateView, step: ServiceStep, after: ServiceStateView) -> bool {
    match step {
        ServiceStep::Message { parsed, pulses_per_liter, receive_time_ms, entries } => message_step(
            before,
            parsed,
            pulses_per_liter,
            receive_time_ms,
            entries,
            after,
        ),
        ServiceStep::Publication { entries, from, last, step } => publication_step(
            before,
            entries,
            from as int,
            last,
            step,
            after,
        ),
    }
}

/// The second that `step` hands to the broker, if any: that of the entry a
/// `Publish` answer names.
pub open spec fn sent_second(step: ServiceStep) -> Option<u64> {
    match step {
        ServiceStep::Publication { entries, step: PublishStep::Publish(k), .. } => Some(
            entries[k as int].timestamp,
        ),
        _ => None,
    }
}

/// No call takes a second out of the published set.
proof fn lemma_step_keeps_published(before: ServiceStateView, step: ServiceStep, after: ServiceStateView)
    requires
        service_step(before, step, after),
    ensures
        before.published_timestamps.subset_of(after.published_timestamps),
{
}

/// Along a run, the published set only grows.
proof fn lemma_published_grows(states: Seq<ServiceStateView>, steps: Seq<ServiceStep>, i: int, j: int)
    requires
        states.len() == steps.len() + 1,
        forall|n: int| 0 <= n < steps.len() ==> service_step(states[n], #[trigger] steps[n], states[n + 1]),
        0 <= i <= j < states.len(),
    ensures
        states[i].published_timestamps.subset_of(states[j].published_timestamps),
    decreases j - i,
{
    if i < j {
        lemma_published_grows(states, steps, i, j - 1);
        lemma_step_keeps_published(states[j - 1], steps[j - 1], states[j]);
    }
}

/// Across any run of the service (the states `states[0]`, ...,
/// `states[n]` and the calls `steps[0]`, ..., `steps[n - 1]` between them,
/// with any payloads, clock readings and publish outcomes), no second is
/// handed to the broker twice. Each second handed over was not published
/// before its call and is published in every later state, and no call takes
/// a second out of the published set.
pub proof fn lemma_no_second_published_twice(states: Seq<ServiceStateView>, steps: Seq<ServiceStep>)
    requires
        states.len() == steps.len() + 1,
        forall|n: int| 0 <= n < steps.len() ==> service_step(states[n], #[trigger] steps[n], states[n + 1]),
    ensures
        forall|i: int, j: int|
            0 <= i < j < steps.len() && (#[trigger] sent_second(steps[i])) is Some ==> #[trigger] sent_second(
                steps[j],
            ) != sent_second(steps[i]),
        forall|i: int, j: int|
            0 <= i < j < states.len() && (#[trigger] sent_second(steps[i])) is Some ==> {
                &&& !states[i].published_timestamps.contains(sent_second(steps[i])->0)
                &&& (#[trigger] states[j]).published_timestamps.contains(sent_second(steps[i])->0)
            },
        forall|i: int, j: int|
            0 <= i <= j < states.len() ==> (#[trigger] states[i]).published_timestamps.subset_of(
                (#[trigger] states[j]).published_timestamps,
            ),
{
    assert forall|i: int, j: int| 0 <= i <= j < states.len() implies (#[trigger] states[i]).published_timestamps.subset_of(
        (#[trigger] states[j]).published_timestamps,
    ) by {
        lemma_published_grows(states, steps, i, j);
    }
    assert forall|i: int, j: int|
        0 <= i < j < states.len() && (#[trigger] sent_second(steps[i])) is Some implies {
            &&& !states[i].published_timestamps.contains(sent_second(steps[i])->0)
            &&& (#[trigger] states[j]).published_timestamps.contains(sent_second(steps[i])->0)
        } by {
        let t = sent_second(steps[i])->0;
        assert(service_step(states[i], steps[i], states[i + 1]));
        assert(states[i + 1].published_timestamps.contains(t));
        lemma_published_grows(states, steps, i + 1, j);
    }
    assert forall|i: int, j: int|
        0 <= i < j < steps.len() && (#[trigger] sent_second(steps[i])) is Some implies #[trigger] sent_second(
            steps[j],
        ) != sent_second(steps[i]) by {
        let t = sent_second(steps[i])->0;
        assert(service_step(states[i], steps[i], states[i + 1]));
        lemma_published_grows(states, steps, i + 1, j);
        assert(service_step(states[j], steps[j], states[j + 1]));
    }
}

/// What successive calls of `ServiceState::claim_timestamp` answer, for the
/// timestamps `ts` in order, starting from the published set `published`:
/// the `i`-th answer is true exactly when `ts[i]` was neither published
/// before nor among the timestamps claimed before it.
pub open spec fn claim_answers(published: Set<u64>, ts: Seq<u64>) -> Seq<bool> {
    Seq::new(ts.len(), |i: int| !published.contains(ts[i]) && !ts.take(i).contains(ts[i]))
}

/// The published set before the `i`-th of successive claims: the set at
/// the start with the timestamps claimed before it.
pub open spec fn published_before(published: Set<u64>, ts: Seq<u64>, i: int) -> Set<u64> {
    published.union(ts.take(i).to_set())
}

/// Successive claims follow `claim_answers`: the `i`-th claim, made on the
/// set that the claims before it left (`published_before`), answers
/// `claim_answers(..)[i]` (by `claim_timestamp`'s contract) and leaves
/// `published_before(.., i + 1)`; so every timestamp is published at most
/// once, and exactly the timestamps not published before are.
pub proof fn lemma_each_second_published_once(published: Set<u64>, ts: Seq<u64>)
    ensures
        forall|i: int|
            0 <= i < ts.len() ==> {
                &&& #[trigger] claim_answers(published, ts)[i] == !published_before(
                    published,
                    ts,
                    i,
                ).contains(ts[i])
                &&& published_before(published, ts, i + 1) == published_before(
                    published,
                    ts,
                    i,
                ).insert(ts[i])
            },
        forall|i: int, j: int|
            0 <= i < j < ts.len() && ts[i] == ts[j] ==> !(#[trigger] claim_answers(published, ts)[i]
                && #[trigger] claim_answers(published, ts)[j]),
        forall|t: u64|
            (exists|i: int| 0 <= i < ts.len() && ts[i] == t && #[trigger] claim_answers(published, ts)[i])
                <==> (ts.contains(t) && !published.contains(t)),
{
    let c = claim_answers(published, ts);
    assert forall|i: int| 0 <= i < ts.len() implies {
        &&& #[trigger] c[i] == !published_before(published, ts, i).contains(ts[i])
        &&& published_before(published, ts, i + 1) == published_before(published, ts, i).insert(
            ts[i],
        )
    } by {
        assert(ts.take(i + 1) =~= ts.take(i).push(ts[i]));
        assert(ts.take(i).push(ts[i]).to_set() =~= ts.take(i).to_set().insert(ts[i])) by {
            vstd::seq_lib::lemma_seq_contains_after_push(ts.take(i), ts[i], ts[i]);
            assert forall|x: u64| #[trigger] ts.take(i).push(ts[i]).contains(x) <==> (
            ts.take(i).contains(x) || x == ts[i]) by {
                vstd::seq_lib::lemma_seq_contains_after_push(ts.take(i), ts[i], x);
            }
        }
        assert(published_before(published, ts, i + 1) =~= published_before(
            published,
            ts,
            i,
        ).insert(ts[i]));
    }
    assert forall|i: int, j: int|
        0 <= i < j < ts.len() && ts[i] == ts[j] implies !(#[trigger] c[i] && #[trigger] c[j]) by {
        assert(ts.take(j)[i] == ts[i]);
    }
    assert forall|t: u64| ts.contains(t) && !published.contains(t) implies (exists|i: int|
        0 <= i < ts.len() && ts[i] == t && #[trigger] c[i]) by {
        let k = choose|k: int| 0 <= k < ts.len() && ts[k] == t;
        first_occurrence(ts, t, k);
        let i = choose|i: int| 0 <= i <= k && ts[i] == t && !ts.take(i).contains(t);
        assert(c[i]);
    }
}

/// The first occurrence of `t` in `ts`, at or before `k`, has no earlier
/// occurrence before it.
proof fn first_occurrence(ts: Seq<u64>, t: u64, k: int)
    requires
        0 <= k < ts.len(),
        ts[k] == t,
    ensures
        exists|i: int| 0 <= i <= k && ts[i] == t && !ts.take(i).contains(t),
    decreases k,
{
    if ts.take(k).contains(t) {
        let j = choose|j: int| 0 <= j < ts.take(k).len() && ts.take(k)[j] == t;
        first_occurrence(ts, t, j);
    } else {
        assert(0 <= k <= k && ts[k] == t && !ts.take(k).contains(t));
    }
}

} // verus!
