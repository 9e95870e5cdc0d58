//! A simulated MQTT client for tests: it records what is published, hands
//! out scheduled events and injected incoming messages, and fails on
//! demand.
//!
//! Published messages are handed, over a tokio broadcast channel per
//! topic, to the receivers that `subscribe_and_receive` gave out; injected
//! incoming messages wait in a tokio mpsc queue. Waiting for events, and
//! sharing one client between tasks, is the caller's.
use std::collections::VecDeque;
use tokio::sync::{broadcast, mpsc};
use vstd::prelude::*;

use crate::mqtt::{MqttError, MqttEvent};
use crate::test_utils::channels::{
    add_message_receiver, feeds, listens_for_messages, message_sent_on, messages_handed_to_send,
    offer, open_message_channel, open_queue, queue_capacity, send_message, take, waiting,
};
use crate::text::{contains_text, text_contains};

verus! {

/// How many injected incoming messages may wait to be polled; further
/// injections are dropped.
pub const INCOMING_CAPACITY: usize = 100;

/// How many messages each topic's broadcast channel holds for a receiver
/// that has not read them (tokio rounds it up to a power of two).
pub const SUBSCRIPTION_CAPACITY: usize = 100;

/// What `String::from_utf8_lossy` makes of `bytes` (it depends on the bytes
/// alone).
pub uninterp spec fn lossy_text(bytes: Seq<u8>) -> Seq<char>;

/// Decodes bytes as UTF-8, replacing invalid sequences:
/// `String::from_utf8_lossy`. std documents that valid UTF-8 decodes to
/// the characters it encodes; what an invalid input becomes (with
/// replacement characters) is only named, as `lossy_text`.
#[verifier::external_body]
fn decode_lossy(bytes: &[u8]) -> (s: String)
    ensures
        s@ == lossy_text(bytes@),
        vstd::utf8::valid_utf8(bytes@) ==> s@ == vstd::utf8::decode_utf8(bytes@),
{
    String::from_utf8_lossy(bytes).into_owned()
}

/// Pending injected failures.
#[derive(Debug)]
struct ErrorState {
    /// The next subscribe fails with this error
    next_subscribe_error: Option<MqttError>,
    /// The next publish fails with this error
    next_publish_error: Option<MqttError>,
    /// The next poll fails with this error
    next_poll_error: Option<MqttError>,
    /// The connection failed with this error
    connection_error: Option<MqttError>,
    /// The connection is broken: every operation fails
    is_broken: bool,
}

impl ErrorState {
    fn none() -> (e: ErrorState)
        ensures
            e.next_subscribe_error is None,
            e.next_publish_error is None,
            e.next_poll_error is None,
            e.connection_error is None,
            !e.is_broken,
    {
        ErrorState {
            next_subscribe_error: None,
            next_publish_error: None,
            next_poll_error: None,
            connection_error: None,
            is_broken: false,
        }
    }
}

/// The mathematical value of a `MockMqttClient`.
pub struct MockMqttView {
    /// Topics subscribed to, in the order of first subscription
    pub subscribed_topics: Seq<Seq<char>>,
    /// The sending half of each subscribed topic's broadcast channel, in
    /// the order of `subscribed_topics`
    pub channels: Seq<broadcast::Sender<(String, Vec<u8>)>>,
    /// Every message published, oldest first: topic and payload
    pub published: Seq<(Seq<char>, Seq<u8>)>,
    /// Events that polling hands out first, in order
    pub scheduled_events: Seq<MqttEvent>,
    /// Incoming messages waiting to be polled: topic and payload
    pub incoming: Seq<(Seq<char>, Seq<u8>)>,
    pub next_subscribe_error: Option<MqttError>,
    pub next_publish_error: Option<MqttError>,
    pub next_poll_error: Option<MqttError>,
    pub connection_error: Option<MqttError>,
    pub is_broken: bool,
    pub connected: bool,
}

impl MockMqttView {
    /// Every subscribed topic has one channel, and no topic is listed twice.
    pub open spec fn well_formed(self) -> bool {
        &&& self.channels.len() == self.subscribed_topics.len()
        &&& self.subscribed_topics.no_duplicates()
    }
}

/// What a successful publish of `payload` to `topic` does to the client's
/// channels, from `before` to `after`: if the topic is subscribed, the
/// message (topic and payload) is sent on its channel and no other channel
/// changes; otherwise no channel changes.
pub open spec fn messages_delivered(
    before: MockMqttView,
    topic: Seq<char>,
    payload: Seq<u8>,
    after: MockMqttView,
) -> bool {
    if before.subscribed_topics.contains(topic) {
        exists|i: int|
            0 <= i < before.subscribed_topics.len() && #[trigger] before.subscribed_topics[i]
                == topic && message_sent_on(before.channels[i], (topic, payload), after.channels[i])
                && after.channels == before.channels.update(i, after.channels[i])
    } else {
        after.channels == before.channels
    }
}

/// A receiver from `subscribe_and_receive(topic)` is handed every message
/// later published to `topic`: if `rx` belongs to the channel of topic `i`
/// in `before`, and a publish of `payload` to `topic` takes the client to
/// `after`, then for `i`'s own topic `rx` still belongs to its channel, on
/// which the message is now the last thing sent; any other topic's channel
/// is unchanged.
pub proof fn lemma_receiver_gets_later_publish(
    before: MockMqttView,
    after: MockMqttView,
    rx: broadcast::Receiver<(String, Vec<u8>)>,
    topic: Seq<char>,
    payload: Seq<u8>,
    i: int,
)
    requires
        before.well_formed(),
        0 <= i < before.subscribed_topics.len(),
        listens_for_messages(rx, before.channels[i]),
        messages_delivered(before, topic, payload, after),
    ensures
        before.subscribed_topics[i] == topic ==> {
            &&& listens_for_messages(rx, after.channels[i])
            &&& messages_handed_to_send(after.channels[i]) == messages_handed_to_send(
                before.channels[i],
            ).push((topic, payload))
        },
        before.subscribed_topics[i] != topic ==> after.channels[i] == before.channels[i],
{
    if before.subscribed_topics.contains(topic) {
        let k = choose|k: int|
            0 <= k < before.subscribed_topics.len() && #[trigger] before.subscribed_topics[k]
                == topic && message_sent_on(before.channels[k], (topic, payload), after.channels[k])
                && after.channels == before.channels.update(k, after.channels[k]);
        if before.subscribed_topics[i] == topic {
            assert(i == k);
        }
    }
}

/// The payloads published to `topic`, oldest first.
pub open spec fn payloads_for(published: Seq<(Seq<char>, Seq<u8>)>, topic: Seq<char>) -> Seq<
    Seq<u8>,
>
    decreases published.len(),
{
    if published.len() == 0 {
        Seq::empty()
    } else {
        let rest = payloads_for(published.drop_last(), topic);
        if published.last().0 == topic {
            rest.push(published.last().1)
        } else {
            rest
        }
    }
}

/// A simulated MQTT client.
pub struct MockMqttClient {
    /// Each topic subscribed to, once, in the order of first subscription,
    /// with the sending half of its broadcast channel
    subscriptions: Vec<(String, broadcast::Sender<(String, Vec<u8>)>)>,
    /// Every message published, oldest first
    published_messages: Vec<(String, Vec<u8>)>,
    /// Events for polls to hand out, front first
    event_queue: VecDeque<MqttEvent>,
    error_state: ErrorState,
    connected: bool,
    incoming: IncomingMessages,
}

/// Messages injected as if they came from the broker, waiting to be
/// polled, oldest first, in a tokio mpsc queue of capacity
/// `INCOMING_CAPACITY`.
pub struct IncomingMessages {
    sender: mpsc::Sender<(String, Vec<u8>)>,
    receiver: mpsc::Receiver<(String, Vec<u8>)>,
}

impl IncomingMessages {
    /// The sender feeds the receiver, whose queue holds `INCOMING_CAPACITY`.
    #[verifier::type_invariant]
    spec fn is_queue(self) -> bool {
        &&& feeds(self.sender, self.receiver)
        &&& queue_capacity(self.receiver) == INCOMING_CAPACITY
    }
}

impl View for IncomingMessages {
    type V = Seq<(Seq<char>, Seq<u8>)>;

    closed spec fn view(&self) -> Seq<(Seq<char>, Seq<u8>)> {
        waiting(self.receiver)
    }
}

impl IncomingMessages {
    /// No messages waiting.
    pub fn new() -> (q: Self)
        ensures
            q@ == Seq::<(Seq<char>, Seq<u8>)>::empty(),
    {
        let (sender, receiver) = open_queue(INCOMING_CAPACITY);
        IncomingMessages { sender, receiver }
    }

    /// Queues a message; dropped when `INCOMING_CAPACITY` messages are
    /// already waiting.
    pub fn inject(&mut self, topic: &str, payload: &[u8])
        ensures
            final(self)@ == if old(self)@.len() < INCOMING_CAPACITY {
                old(self)@.push((topic@, payload@))
            } else {
                old(self)@
            },
    {
        proof {
            use_type_invariant(&*self);
        }
        let message = (String::from_str(topic), copy_bytes(payload));
        offer(&self.sender, &mut self.receiver, message);
    }

    /// Takes the oldest waiting message, as a `PublishReceived` event;
    /// `None` when nothing is waiting.
    pub fn next(&mut self) -> (e: Option<MqttEvent>)
        ensures
            if old(self)@.len() > 0 {
                &&& e matches Some(MqttEvent::PublishReceived(t, p))
                &&& (t@, p@) == old(self)@[0]
                &&& final(self)@ == old(self)@.drop_first()
            } else {
                e is None && final(self)@ == old(self)@
            },
    {
        proof {
            use_type_invariant(&*self);
        }
        match take(&mut self.receiver) {
            Some((topic, payload)) => Some(MqttEvent::PublishReceived(topic, payload)),
            None => None,
        }
    }
}

/// A copy of `v`.
fn copy_bytes(v: &[u8]) -> (c: Vec<u8>)
    ensures
        c@ == v@,
{
    let mut c: Vec<u8> = Vec::new();
    let mut i: usize = 0;
    while i < v.len()
        invariant
            i <= v@.len(),
            c@ =~= v@.take(i as int),
        decreases v@.len() - i,
    {
        c.push(v[i]);
        i = i + 1;
    }
    assert(v@.take(v@.len() as int) =~= v@);
    c
}

impl View for MockMqttClient {
    type V = MockMqttView;

    closed spec fn view(&self) -> MockMqttView {
        MockMqttView {
            subscribed_topics: self.subscriptions@.map_values(
                |t: (String, broadcast::Sender<(String, Vec<u8>)>)| t.0@,
            ),
            channels: self.subscriptions@.map_values(
                |t: (String, broadcast::Sender<(String, Vec<u8>)>)| t.1,
            ),
            published: self.published_messages@.map_values(|m: (String, Vec<u8>)| (m.0@, m.1@)),
            scheduled_events: self.event_queue@,
            incoming: self.incoming@,
            next_subscribe_error: self.error_state.next_subscribe_error,
            next_publish_error: self.error_state.next_publish_error,
            next_poll_error: self.error_state.next_poll_error,
            connection_error: self.error_state.connection_error,
            is_broken: self.error_state.is_broken,
            connected: self.connected,
        }
    }
}

impl MockMqttClient {
    /// A connected client with nothing subscribed, published, scheduled or
    /// injected.
    pub fn new() -> (c: Self)
        ensures
            c@ == (MockMqttView {
                subscribed_topics: Seq::empty(),
                channels: Seq::empty(),
                published: Seq::empty(),
                scheduled_events: Seq::empty(),
                incoming: Seq::empty(),
                next_subscribe_error: None,
                next_publish_error: None,
                next_poll_error: None,
                connection_error: None,
                is_broken: false,
                connected: true,
            }),
            c@.well_formed(),
    {
        let c = MockMqttClient {
            subscriptions: Vec::new(),
            published_messages: Vec::new(),
            event_queue: VecDeque::new(),
            error_state: ErrorState::none(),
            connected: true,
            incoming: IncomingMessages::new(),
        };
        proof {
            assert(c@.subscribed_topics =~= Seq::empty());
            assert(c@.channels =~= Seq::empty());
            assert(c@.published =~= Seq::empty());
            assert(c@.incoming =~= Seq::empty());
        }
        c
    }

    /// Makes the next subscribe fail with `error`.
    pub fn inject_subscribe_error(&mut self, error: MqttError)
        ensures
            final(self)@ == (MockMqttView { next_subscribe_error: Some(error), ..old(self)@ }),
    {
        self.error_state.next_subscribe_error = Some(error);
    }

    /// Makes the next publish fail with `error`.
    pub fn inject_publish_error(&mut self, error: MqttError)
        ensures
            final(self)@ == (MockMqttView { next_publish_error: Some(error), ..old(self)@ }),
    {
        self.error_state.next_publish_error = Some(error);
    }

    /// Makes the next poll fail with `error`.
    pub fn inject_poll_error(&mut self, error: MqttError)
        ensures
            final(self)@ == (MockMqttView { next_poll_error: Some(error), ..old(self)@ }),
    {
        self.error_state.next_poll_error = Some(error);
    }

    /// Simulates a failed connection: records `error` and disconnects.
    pub fn inject_connection_failure(&mut self, error: MqttError)
        ensures
            final(self)@ == (MockMqttView {
                connection_error: Some(error),
                connected: false,
                ..old(self)@
            }),
    {
        self.error_state.connection_error = Some(error);
        self.connected = false;
    }

    /// Breaks the connection: clears every injected error, marks the
    /// connection broken and disconnects.
    pub fn break_connection(&mut self)
        ensures
            final(self)@ == (MockMqttView {
                next_subscribe_error: None,
                next_publish_error: None,
                next_poll_error: None,
                connection_error: None,
                is_broken: true,
                connected: false,
                ..old(self)@
            }),
    {
        let mut errors = ErrorState::none();
        errors.is_broken = true;
        self.error_state = errors;
        self.connected = false;
    }

    /// Restores the connection: no errors, connected.
    pub fn restore_connection(&mut self)
        ensures
            final(self)@ == (MockMqttView {
                next_subscribe_error: None,
                next_publish_error: None,
                next_poll_error: None,
                connection_error: None,
                is_broken: false,
                connected: true,
                ..old(self)@
            }),
    {
        self.error_state = ErrorState::none();
        self.connected = true;
    }

    /// Clears every injected error (the connection state stays).
    pub fn clear_errors(&mut self)
        ensures
            final(self)@ == (MockMqttView {
                next_subscribe_error: None,
                next_publish_error: None,
                next_poll_error: None,
                connection_error: None,
                is_broken: false,
                ..old(self)@
            }),
    {
        self.error_state = ErrorState::none();
    }

    /// Queues a message as if it came from the broker; dropped when
    /// `INCOMING_CAPACITY` messages are already waiting.
    pub fn inject_incoming_message(&mut self, topic: &str, payload: &[u8])
        ensures
            final(self)@ == (MockMqttView {
                incoming: if old(self)@.incoming.len() < INCOMING_CAPACITY {
                    old(self)@.incoming.push((topic@, payload@))
                } else {
                    old(self)@.incoming
                },
                ..old(self)@
            }),
    {
        self.incoming.inject(topic, payload);
    }

    /// Schedules `event` to be handed out by a later poll.
    pub fn schedule_event(&mut self, event: MqttEvent)
        ensures
            final(self)@ == (MockMqttView {
                scheduled_events: old(self)@.scheduled_events.push(event),
                ..old(self)@
            }),
    {
        self.event_queue.push_back(event);
    }

    /// A copy of every published message, oldest first.
    pub fn get_published_messages(&self) -> (v: Vec<(String, Vec<u8>)>)
        ensures
            v@.map_values(|m: (String, Vec<u8>)| (m.0@, m.1@)) == self@.published,
    {
        let ghost pub_view = self@.published;
        let mut v: Vec<(String, Vec<u8>)> = Vec::new();
        let mut i: usize = 0;
        while i < self.published_messages.len()
            invariant
                i <= self.published_messages@.len(),
                pub_view == self@.published,
                pub_view.len() == self.published_messages@.len(),
                forall|j: int|
                    0 <= j < pub_view.len() ==> #[trigger] pub_view[j] == (
                    self.published_messages@[j].0@,
                    self.published_messages@[j].1@,
                ),
                v@.map_values(|m: (String, Vec<u8>)| (m.0@, m.1@)) =~= pub_view.take(i as int),
            decreases self.published_messages@.len() - i,
        {
            let ghost before = v@;
            let entry = &self.published_messages[i];
            let copy = (entry.0.clone(), copy_bytes(entry.1.as_slice()));
            assert((copy.0@, copy.1@) == pub_view[i as int]);
            v.push(copy);
            proof {
                assert(v@ =~= before.push(copy));
                assert(v@.map_values(|m: (String, Vec<u8>)| (m.0@, m.1@)) =~= before.map_values(
                    |m: (String, Vec<u8>)| (m.0@, m.1@),
                ).push(pub_view[i as int]));
                assert(pub_view.take(i + 1) =~= pub_view.take(i as int).push(pub_view[i as int]));
            }
            i = i + 1;
        }
        assert(pub_view.take(pub_view.len() as int) =~= pub_view);
        v
    }

    /// What a successful publish of `payload` to `topic` does to the client's
/// channels, from `before` to `after`: if the topic is subscribed, the
/// message (topic and payload) is sent on its channel and no other channel
/// changes; otherwise no channel changes.
pub open spec fn messages_delivered(
    before: MockMqttView,
    topic: Seq<char>,
    payload: Seq<u8>,
    after: MockMqttView,
) -> bool {
    if before.subscribed_topics.contains(topic) {
        exists|i: int|
            0 <= i < before.subscribed_topics.len() && #[trigger] before.subscribed_topics[i]
                == topic && message_sent_on(before.channels[i], (topic, payload), after.channels[i])
                && after.channels == before.channels.update(i, after.channels[i])
    } else {
        after.channels == before.channels
    }
}

/// A receiver from `subscribe_and_receive(topic)` is handed every message
/// later published to `topic`: if `rx` belongs to the channel of topic `i`
/// in `before`, and a publish of `payload` to `topic` takes the client to
/// `after`, then for `i`'s own topic `rx` still belongs to its channel, on
/// which the message is now the last thing sent; any other topic's channel
/// is unchanged.
pub proof fn lemma_receiver_gets_later_publish(
    before: MockMqttView,
    after: MockMqttView,
    rx: broadcast::Receiver<(String, Vec<u8>)>,
    topic: Seq<char>,
    payload: Seq<u8>,
    i: int,
)
    requires
        before.well_formed(),
        0 <= i < before.subscribed_topics.len(),
        listens_for_messages(rx, before.channels[i]),
        messages_delivered(before, topic, payload, after),
    ensures
        before.subscribed_topics[i] == topic ==> {
            &&& listens_for_messages(rx, after.channels[i])
            &&& messages_handed_to_send(after.channels[i]) == messages_handed_to_send(
                before.channels[i],
            ).push((topic, payload))
        },
        before.subscribed_topics[i] != topic ==> after.channels[i] == before.channels[i],
{
    if before.subscribed_topics.contains(topic) {
        let k = choose|k: int|
            0 <= k < before.subscribed_topics.len() && #[trigger] before.subscribed_topics[k]
                == topic && message_sent_on(before.channels[k], (topic, payload), after.channels[k])
                && after.channels == before.channels.update(k, after.channels[k]);
        if before.subscribed_topics[i] == topic {
            assert(i == k);
        }
    }
}

/// The payloads published to `topic`, oldest first.
    pub fn get_messages_for_topic(&self, topic: &str) -> (v: Vec<Vec<u8>>)
        ensures
            v@.map_values(|p: Vec<u8>| p@) == payloads_for(self@.published, topic@),
    {
        let ghost pub_view = self@.published;
        let wanted = String::from_str(topic);
        let mut v: Vec<Vec<u8>> = Vec::new();
        let mut i: usize = 0;
        while i < self.published_messages.len()
            invariant
                i <= self.published_messages@.len(),
                wanted@ == topic@,
                pub_view == self@.published,
                pub_view.len() == self.published_messages@.len(),
                forall|j: int|
                    0 <= j < pub_view.len() ==> #[trigger] pub_view[j] == (
                    self.published_messages@[j].0@,
                    self.published_messages@[j].1@,
                ),
                v@.len() == payloads_for(pub_view.take(i as int), topic@).len(),
                forall|j: int|
                    0 <= j < v@.len() ==> #[trigger] v@[j]@ == payloads_for(
                        pub_view.take(i as int),
                        topic@,
                    )[j],
            decreases self.published_messages@.len() - i,
        {
            let entry = &self.published_messages[i];
            assert(pub_view.take(i + 1).drop_last() =~= pub_view.take(i as int));
            assert(pub_view.take(i + 1).last() == pub_view[i as int]);
            assert(pub_view[i as int] == (entry.0@, entry.1@));
            if entry.0 == wanted {
                v.push(copy_bytes(entry.1.as_slice()));
            }
            i = i + 1;
        }
        assert(pub_view.take(pub_view.len() as int) =~= pub_view);
        assert(v@.map_values(|p: Vec<u8>| p@) =~= payloads_for(self@.published, topic@));
        v
    }

    /// Whether a message whose payload, decoded as text, contains `content`
    /// was published to `topic`.
    pub fn has_published_message(&self, topic: &str, content: &str) -> (b: bool)
        ensures
            b == exists|i: int|
                0 <= i < self@.published.len() && #[trigger] self@.published[i].0 == topic@
                    && contains_text(lossy_text(self@.published[i].1), content@),
    {
        let ghost pub_view = self@.published;
        let wanted = String::from_str(topic);
        let mut i: usize = 0;
        while i < self.published_messages.len()
            invariant
                i <= self.published_messages@.len(),
                wanted@ == topic@,
                pub_view == self@.published,
                pub_view.len() == self.published_messages@.len(),
                forall|j: int|
                    0 <= j < pub_view.len() ==> #[trigger] pub_view[j] == (
                    self.published_messages@[j].0@,
                    self.published_messages@[j].1@,
                ),
                forall|j: int|
                    0 <= j < i ==> !(#[trigger] pub_view[j].0 == topic@ && contains_text(
                        lossy_text(pub_view[j].1),
                        content@,
                    )),
            decreases self.published_messages@.len() - i,
        {
            let entry = &self.published_messages[i];
            assert(pub_view[i as int] == (entry.0@, entry.1@));
            if entry.0 == wanted {
                let text = decode_lossy(entry.1.as_slice());
                if text_contains(text.as_str(), content) {
                    assert(pub_view[i as int].0 == topic@);
                    return true;
                }
            }
            i = i + 1;
        }
        false
    }

    /// The last payload published to `topic`, if any.
    pub fn get_last_message(&self, topic: &str) -> (m: Option<Vec<u8>>)
        ensures
            match m {
                Some(p) => payloads_for(self@.published, topic@).len() > 0 && p@ == payloads_for(
                    self@.published,
                    topic@,
                ).last(),
                None => payloads_for(self@.published, topic@).len() == 0,
            },
    {
        let ghost pub_view = self@.published;
        let wanted = String::from_str(topic);
        let mut i: usize = self.published_messages.len();
        assert(pub_view.take(i as int) =~= pub_view);
        while i > 0
            invariant
                i <= self.published_messages@.len(),
                wanted@ == topic@,
                pub_view == self@.published,
                pub_view.len() == self.published_messages@.len(),
                forall|j: int|
                    0 <= j < pub_view.len() ==> #[trigger] pub_view[j] == (
                    self.published_messages@[j].0@,
                    self.published_messages@[j].1@,
                ),
                payloads_for(pub_view, topic@) == payloads_for(pub_view.take(i as int), topic@),
            decreases i,
        {
            let entry = &self.published_messages[i - 1];
            assert(pub_view.take(i as int).drop_last() =~= pub_view.take(i - 1));
            assert(pub_view.take(i as int).last() == pub_view[i - 1]);
            assert(pub_view[i - 1] == (entry.0@, entry.1@));
            if entry.0 == wanted {
                return Some(copy_bytes(entry.1.as_slice()));
            }
            i = i - 1;
        }
        assert(pub_view.take(0) =~= Seq::<(Seq<char>, Seq<u8>)>::empty());
        None
    }

    /// Forgets every published message.
    pub fn clear_messages(&mut self)
        ensures
            final(self)@ == (MockMqttView { published: Seq::empty(), ..old(self)@ }),
    {
        self.published_messages.clear();
        proof {
            assert(self@.published =~= Seq::empty());
        }
    }

    /// Whether the client is connected.
    pub fn is_connected(&self) -> (b: bool)
        ensures
            b == self@.connected,
    {
        self.connected
    }

    /// The index of `topic` among the subscriptions, if it is subscribed.
    fn channel_of(&self, topic: &str) -> (found: Option<usize>)
        ensures
            match found {
                Some(i) => i < self.subscriptions@.len() && self@.subscribed_topics[i as int]
                    == topic@,
                None => !self@.subscribed_topics.contains(topic@),
            },
    {
        let wanted = String::from_str(topic);
        let mut i: usize = 0;
        while i < self.subscriptions.len()
            invariant
                i <= self.subscriptions@.len(),
                wanted@ == topic@,
                forall|j: int| 0 <= j < i ==> self.subscriptions@[j].0@ != topic@,
            decreases self.subscriptions@.len() - i,
        {
            if self.subscriptions[i].0 == wanted {
                assert(self@.subscribed_topics[i as int] == topic@);
                return Some(i);
            }
            i = i + 1;
        }
        assert forall|j: int| 0 <= j < self@.subscribed_topics.len() implies #[trigger] self@.subscribed_topics[j]
            != topic@ by {
            assert(self@.subscribed_topics[j] == self.subscriptions@[j].0@);
        }
        None
    }

    /// Whether `topic` is subscribed to.
    pub fn is_subscribed(&self, topic: &str) -> (b: bool)
        ensures
            b == self@.subscribed_topics.contains(topic@),
    {
        self.channel_of(topic).is_some()
    }

    /// Opens a broadcast channel for `topic`, which is not subscribed yet.
    fn add_topic(&mut self, topic: &str) -> (rx: broadcast::Receiver<(String, Vec<u8>)>)
        requires
            !old(self)@.subscribed_topics.contains(topic@),
        ensures
            final(self)@ == (MockMqttView {
                subscribed_topics: old(self)@.subscribed_topics.push(topic@),
                channels: final(self)@.channels,
                ..old(self)@
            }),
            final(self)@.channels.len() == old(self)@.channels.len() + 1,
            final(self)@.channels.drop_last() == old(self)@.channels,
            messages_handed_to_send(final(self)@.channels.last()) == Seq::<
                (Seq<char>, Seq<u8>),
            >::empty(),
            listens_for_messages(rx, final(self)@.channels.last()),
            old(self)@.well_formed() ==> final(self)@.well_formed(),
    {
        let (tx, rx) = open_message_channel(SUBSCRIPTION_CAPACITY);
        self.subscriptions.push((String::from_str(topic), tx));
        proof {
            let n = old(self)@.subscribed_topics.len() as int;
            assert(self@.subscribed_topics =~= old(self)@.subscribed_topics.push(topic@));
            assert(self@.channels.drop_last() =~= old(self)@.channels);
            assert(self@.channels[n] == tx);
            if old(self)@.well_formed() {
                assert forall|a: int, b: int|
                    0 <= a < b < self@.subscribed_topics.len() implies self@.subscribed_topics[a]
                    != self@.subscribed_topics[b] by {
                    if b == n {
                        assert(old(self)@.subscribed_topics.contains(self@.subscribed_topics[a]));
                    }
                }
            }
        }
        rx
    }

    /// A receiver for the messages published to `topic` from now on, as
    /// topic and payload: subscribes to `topic` if it is not yet (opening its
    /// channel), else adds a receiver to its channel. Injected errors do not
    /// apply. The receiver belongs to the topic's channel.
    pub fn subscribe_and_receive(&mut self, topic: &str) -> (rx: broadcast::Receiver<
        (String, Vec<u8>),
    >)
        ensures
            final(self)@ == (MockMqttView {
                subscribed_topics: if old(self)@.subscribed_topics.contains(topic@) {
                    old(self)@.subscribed_topics
                } else {
                    old(self)@.subscribed_topics.push(topic@)
                },
                channels: final(self)@.channels,
                ..old(self)@
            }),
            if old(self)@.subscribed_topics.contains(topic@) {
                final(self)@.channels == old(self)@.channels
            } else {
                &&& final(self)@.channels.len() == old(self)@.channels.len() + 1
                &&& final(self)@.channels.drop_last() == old(self)@.channels
                &&& messages_handed_to_send(final(self)@.channels.last()) == Seq::<
                    (Seq<char>, Seq<u8>),
                >::empty()
            },
            exists|i: int|
                0 <= i < final(self)@.subscribed_topics.len()
                    && #[trigger] final(self)@.subscribed_topics[i] == topic@
                    && listens_for_messages(rx, final(self)@.channels[i]),
            old(self)@.well_formed() ==> final(self)@.well_formed(),
    {
        match self.channel_of(topic) {
            Some(i) => {
                proof {
                    assert(self@.channels[i as int] == self.subscriptions@[i as int].1);
                }
                add_message_receiver(&self.subscriptions[i].1)
            },
            None => {
                let rx = self.add_topic(topic);
                proof {
                    let n = old(self)@.subscribed_topics.len() as int;
                    assert(self@.subscribed_topics[n] == topic@);
                }
                rx
            },
        }
    }

    /// Subscribes to `topic`: fails with the injected subscribe error if
    /// there is one (which is then cleared), else with the injected
    /// connection failure if there is one (which is then cleared), else with
    /// `NotConnected` if the connection is broken; otherwise records the
    /// subscription (once per topic) and succeeds.
    pub fn subscribe(&mut self, topic: &str) -> (res: Result<(), MqttError>)
        ensures
            match old(self)@.next_subscribe_error {
                Some(e) => res == Err::<(), MqttError>(e) && final(self)@ == (MockMqttView {
                    next_subscribe_error: None,
                    ..old(self)@
                }),
                None => if let Some(e) = old(self)@.connection_error {
                    res == Err::<(), MqttError>(e) && final(self)@ == (MockMqttView {
                        connection_error: None,
                        ..old(self)@
                    })
                } else if old(self)@.is_broken {
                    res == Err::<(), MqttError>(MqttError::NotConnected) && final(self)@ == old(
                        self,
                    )@
                } else {
                    &&& res is Ok
                    &&& final(self)@ == (MockMqttView {
                        subscribed_topics: if old(self)@.subscribed_topics.contains(topic@) {
                            old(self)@.subscribed_topics
                        } else {
                            old(self)@.subscribed_topics.push(topic@)
                        },
                        channels: final(self)@.channels,
                        ..old(self)@
                    })
                    &&& if old(self)@.subscribed_topics.contains(topic@) {
                        final(self)@.channels == old(self)@.channels
                    } else {
                        &&& final(self)@.channels.len() == old(self)@.channels.len() + 1
                        &&& final(self)@.channels.drop_last() == old(self)@.channels
                        &&& messages_handed_to_send(final(self)@.channels.last()) == Seq::<
                            (Seq<char>, Seq<u8>),
                        >::empty()
                    }
                },
            },
            old(self)@.well_formed() ==> final(self)@.well_formed(),
    {
        if let Some(error) = self.error_state.next_subscribe_error.take() {
            return Err(error);
        }
        if let Some(error) = self.error_state.connection_error.take() {
            return Err(error);
        }
        if self.error_state.is_broken {
            return Err(MqttError::NotConnected);
        }
        if !self.is_subscribed(topic) {
            let _receiver = self.add_topic(topic);
        }
        Ok(())
    }

    /// Publishes `payload` to `topic`: fails with the injected publish error
    /// if there is one (which is then cleared), else with the injected
    /// connection failure if there is one (which is then cleared), else with
    /// `NotConnected` if the connection is broken; otherwise records the
    /// message and succeeds.
    pub fn publish(&mut self, topic: &str, payload: &[u8]) -> (res: Result<(), MqttError>)
        ensures
            match old(self)@.next_publish_error {
                Some(e) => res == Err::<(), MqttError>(e) && final(self)@ == (MockMqttView {
                    next_publish_error: None,
                    ..old(self)@
                }),
                None => if let Some(e) = old(self)@.connection_error {
                    res == Err::<(), MqttError>(e) && final(self)@ == (MockMqttView {
                        connection_error: None,
                        ..old(self)@
                    })
                } else if old(self)@.is_broken {
                    res == Err::<(), MqttError>(MqttError::NotConnected) && final(self)@ == old(
                        self,
                    )@
                } else {
                    &&& res is Ok
                    &&& final(self)@ == (MockMqttView {
                        published: old(self)@.published.push((topic@, payload@)),
                        channels: final(self)@.channels,
                        ..old(self)@
                    })
                    &&& messages_delivered(old(self)@, topic@, payload@, final(self)@)
                },
            },
            old(self)@.well_formed() ==> final(self)@.well_formed(),
    {
        if let Some(error) = self.error_state.next_publish_error.take() {
            return Err(error);
        }
        if let Some(error) = self.error_state.connection_error.take() {
            return Err(error);
        }
        if self.error_state.is_broken {
            return Err(MqttError::NotConnected);
        }
        let message = (String::from_str(topic), copy_bytes(payload));
        self.published_messages.push(message);
        proof {
            assert(self@.published =~= old(self)@.published.push((topic@, payload@)));
            assert(self@.subscribed_topics =~= old(self)@.subscribed_topics);
            assert(self@.channels =~= old(self)@.channels);
        }
        if let Some(i) = self.channel_of(topic) {
            let ghost mid = self@;
            send_message(
                &mut self.subscriptions[i].1,
                (String::from_str(topic), copy_bytes(payload)),
            );
            proof {
                assert(old(self)@.subscribed_topics[i as int] == topic@);
                assert(self@.subscribed_topics =~= old(self)@.subscribed_topics);
                assert(self@.channels =~= old(self)@.channels.update(
                    i as int,
                    self@.channels[i as int],
                ));
                assert(self@.published =~= mid.published);
            }
        }
        Ok(())
    }

    /// What a poll answers before looking at incoming messages: the
    /// injected poll error if there is one (which is then cleared); else the
    /// injected connection failure if there is one (which is then cleared);
    /// `ConnectionRefused` if the connection is broken; else the first
    /// scheduled event; else `None`, and nothing changes.
    pub fn poll_pending(&mut self) -> (res: Option<Result<MqttEvent, MqttError>>)
        ensures
            match old(self)@.next_poll_error {
                Some(e) => res == Some(Err::<MqttEvent, MqttError>(e)) && final(self)@ == (
                MockMqttView { next_poll_error: None, ..old(self)@ }),
                None => if let Some(e) = old(self)@.connection_error {
                    res == Some(Err::<MqttEvent, MqttError>(e)) && final(self)@ == (
                    MockMqttView { connection_error: None, ..old(self)@ })
                } else if old(self)@.is_broken {
                    res == Some(Err::<MqttEvent, MqttError>(MqttError::ConnectionRefused))
                        && final(self)@ == old(self)@
                } else if old(self)@.scheduled_events.len() > 0 {
                    res == Some(Ok::<MqttEvent, MqttError>(old(self)@.scheduled_events[0]))
                        && final(self)@ == (MockMqttView {
                        scheduled_events: old(self)@.scheduled_events.drop_first(),
                        ..old(self)@
                    })
                } else {
                    res is None && final(self)@ == old(self)@
                },
            },
    {
        if let Some(error) = self.error_state.next_poll_error.take() {
            return Some(Err(error));
        }
        if let Some(error) = self.error_state.connection_error.take() {
            return Some(Err(error));
        }
        if self.error_state.is_broken {
            return Some(Err(MqttError::ConnectionRefused));
        }
        match self.event_queue.pop_front() {
            Some(event) => {
                proof {
                    assert(self@.scheduled_events =~= old(self)@.scheduled_events.drop_first());
                }
                Some(Ok(event))
            },
            None => None,
        }
    }

    /// Polls for the next event: what `poll_pending` answers if anything;
    /// else the first injected incoming message, as `PublishReceived`; else
    /// `None`: nothing is pending (the caller then waits briefly and reports
    /// a keepalive).
    pub fn poll(&mut self) -> (res: Option<Result<MqttEvent, MqttError>>)
        ensures
            match old(self)@.next_poll_error {
                Some(e) => res == Some(Err::<MqttEvent, MqttError>(e)) && final(self)@ == (
                MockMqttView { next_poll_error: None, ..old(self)@ }),
                None => if let Some(e) = old(self)@.connection_error {
                    res == Some(Err::<MqttEvent, MqttError>(e)) && final(self)@ == (
                    MockMqttView { connection_error: None, ..old(self)@ })
                } else if old(self)@.is_broken {
                    res == Some(Err::<MqttEvent, MqttError>(MqttError::ConnectionRefused))
                        && final(self)@ == old(self)@
                } else if old(self)@.scheduled_events.len() > 0 {
                    res == Some(Ok::<MqttEvent, MqttError>(old(self)@.scheduled_events[0]))
                        && final(self)@ == (MockMqttView {
                        scheduled_events: old(self)@.scheduled_events.drop_first(),
                        ..old(self)@
                    })
                } else if old(self)@.incoming.len() > 0 {
                    &&& res matches Some(Ok(MqttEvent::PublishReceived(t, p)))
                    &&& (t@, p@) == old(self)@.incoming[0]
                    &&& final(self)@ == (MockMqttView {
                        incoming: old(self)@.incoming.drop_first(),
                        ..old(self)@
                    })
                } else {
                    res is None && final(self)@ == old(self)@
                },
            },
    {
        match self.poll_pending() {
            Some(res) => Some(res),
            None => match self.incoming.next() {
                Some(event) => Some(Ok(event)),
                None => None,
            },
        }
    }
}

} // verus!
