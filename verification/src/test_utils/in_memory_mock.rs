//! An in-memory MQTT broker for tests: it records every message published
//! and delivers each one to the receivers subscribed to its topic, over
//! tokio broadcast channels (one channel per topic).
use tokio::sync::broadcast::{Receiver, Sender};
use vstd::prelude::*;

use crate::test_utils::channels::{
    add_receiver, handed_to_send, listens_on, open_channel, send_payload, sent_on,
};

verus! {

/// How many messages each topic's channel holds for a receiver that has
/// not read them (tokio rounds it up to a power of two).
pub const CHANNEL_CAPACITY: usize = 100;

/// The mathematical value of an `InMemoryMqttMock`.
pub struct InMemoryMockView {
    /// The topics that have a channel, each once, in the order of their
    /// first subscription
    pub subscribed_topics: Seq<Seq<char>>,
    /// The sending half of each subscribed topic's channel, in the order of
    /// `subscribed_topics`
    pub channels: Seq<Sender<String>>,
    /// The messages published, oldest first: topic and payload
    pub published: Seq<(Seq<char>, Seq<char>)>,
}

impl InMemoryMockView {
    /// Every subscribed topic has one channel, and no topic is listed twice.
    pub open spec fn well_formed(self) -> bool {
        &&& self.channels.len() == self.subscribed_topics.len()
        &&& self.subscribed_topics.no_duplicates()
    }
}

/// What publishing `payload` to `topic` does to the broker's channels,
/// from `before` to `after`: if the topic has a channel, the payload is sent
/// on it and no other channel changes; otherwise no channel changes.
pub open spec fn delivered(
    before: InMemoryMockView,
    topic: Seq<char>,
    payload: Seq<char>,
    after: InMemoryMockView,
) -> bool {
    if before.subscribed_topics.contains(topic) {
        exists|i: int|
            0 <= i < before.subscribed_topics.len() && #[trigger] before.subscribed_topics[i]
                == topic && sent_on(before.channels[i], payload, after.channels[i])
                && after.channels == before.channels.update(i, after.channels[i])
    } else {
        after.channels == before.channels
    }
}

/// A receiver subscribed to `topic` is handed every payload published to
/// it afterwards: if `rx` belongs to the channel of `topic` in `before`, and
/// publishing `payload` to `topic` takes the broker to `after`, then `rx`
/// still belongs to the topic's channel, on which `payload` is now the last
/// thing sent. A receiver of any other topic's channel is handed nothing.
pub proof fn lemma_subscriber_gets_later_publish(
    before: InMemoryMockView,
    after: InMemoryMockView,
    rx: Receiver<String>,
    topic: Seq<char>,
    payload: Seq<char>,
    i: int,
)
    requires
        before.well_formed(),
        0 <= i < before.subscribed_topics.len(),
        listens_on(rx, before.channels[i]),
        delivered(before, topic, payload, after),
    ensures
        before.subscribed_topics[i] == topic ==> {
            &&& listens_on(rx, after.channels[i])
            &&& handed_to_send(after.channels[i]) == handed_to_send(before.channels[i]).push(
                payload,
            )
        },
        before.subscribed_topics[i] != topic ==> after.channels[i] == before.channels[i],
{
    if before.subscribed_topics.contains(topic) {
        let k = choose|k: int|
            0 <= k < before.subscribed_topics.len() && #[trigger] before.subscribed_topics[k]
                == topic && sent_on(before.channels[k], payload, after.channels[k])
                && after.channels == before.channels.update(k, after.channels[k]);
        if before.subscribed_topics[i] == topic {
            assert(i == k);
        }
    } else {
        assert(before.subscribed_topics[i] != topic);
    }
}

/// An in-memory broker: publish/subscribe without a real broker.
pub struct InMemoryMqttMock {
    /// Each subscribed topic with the sending half of its channel
    subscriptions: Vec<(String, Sender<String>)>,
    /// Every message published, oldest first: topic and payload
    published_messages: Vec<(String, String)>,
}

impl View for InMemoryMqttMock {
    type V = InMemoryMockView;

    closed spec fn view(&self) -> InMemoryMockView {
        InMemoryMockView {
            subscribed_topics: self.subscriptions@.map_values(|s: (String, Sender<String>)| s.0@),
            channels: self.subscriptions@.map_values(|s: (String, Sender<String>)| s.1),
            published: self.published_messages@.map_values(|m: (String, String)| (m.0@, m.1@)),
        }
    }
}

impl InMemoryMqttMock {
    /// A broker with no subscription and no message.
    pub fn new() -> (m: Self)
        ensures
            m@.subscribed_topics == Seq::<Seq<char>>::empty(),
            m@.published == Seq::<(Seq<char>, Seq<char>)>::empty(),
            m@.well_formed(),
    {
        let m = InMemoryMqttMock { subscriptions: Vec::new(), published_messages: Vec::new() };
        proof {
            assert(m@.subscribed_topics =~= Seq::<Seq<char>>::empty());
            assert(m@.channels =~= Seq::<Sender<String>>::empty());
            assert(m@.published =~= Seq::<(Seq<char>, Seq<char>)>::empty());
        }
        m
    }

    /// The index of `topic`'s channel, if the topic has one.
    fn channel_of(&self, topic: &str) -> (found: Option<usize>)
        ensures
            match found {
                Some(i) => i < self.subscriptions@.len() && self.subscriptions@[i as int].0@
                    == topic@,
                None => !self@.subscribed_topics.contains(topic@),
            },
    {
        let wanted = String::from_str(topic);
        let mut i: usize = 0;
        while i < self.subscriptions.len()
            invariant
                i <= self.subscriptions@.len(),
                wanted@ == topic@,
                forall|j: int| 0 <= j < i ==> self.subscriptions@[j].0@ != topic@,
            decreases self.subscriptions@.len() - i,
        {
            if self.subscriptions[i].0 == wanted {
                return Some(i);
            }
            i = i + 1;
        }
        assert forall|j: int| 0 <= j < self@.subscribed_topics.len() implies #[trigger] self@.subscribed_topics[j]
            != topic@ by {
            assert(self@.subscribed_topics[j] == self.subscriptions@[j].0@);
        }
        None
    }

    /// Subscribes to `topic`: a receiver for the messages published to it
    /// from now on. The first subscription to a topic opens its channel
    /// (on which nothing was sent yet); later ones add receivers to it. The
    /// receiver belongs to the topic's channel.
    pub fn subscribe(&mut self, topic: &str) -> (rx: Receiver<String>)
        ensures
            final(self)@.subscribed_topics == if old(self)@.subscribed_topics.contains(topic@) {
                old(self)@.subscribed_topics
            } else {
                old(self)@.subscribed_topics.push(topic@)
            },
            if old(self)@.subscribed_topics.contains(topic@) {
                final(self)@.channels == old(self)@.channels
            } else {
                &&& final(self)@.channels.len() == old(self)@.channels.len() + 1
                &&& final(self)@.channels.drop_last() == old(self)@.channels
                &&& handed_to_send(final(self)@.channels.last()) == Seq::<Seq<char>>::empty()
            },
            exists|i: int|
                0 <= i < final(self)@.subscribed_topics.len()
                    && #[trigger] final(self)@.subscribed_topics[i] == topic@ && listens_on(
                    rx,
                    final(self)@.channels[i],
                ),
            final(self)@.published == old(self)@.published,
            old(self)@.well_formed() ==> final(self)@.well_formed(),
    {
        match self.channel_of(topic) {
            Some(i) => {
                proof {
                    assert(old(self)@.subscribed_topics[i as int] == topic@);
                    assert(self@.channels[i as int] == self.subscriptions@[i as int].1);
                }
                add_receiver(&self.subscriptions[i].1)
            },
            None => {
                let (tx, rx) = open_channel(CHANNEL_CAPACITY);
                self.subscriptions.push((String::from_str(topic), tx));
                proof {
                    let n = old(self)@.subscribed_topics.len() as int;
                    assert(self@.subscribed_topics =~= old(self)@.subscribed_topics.push(topic@));
                    assert(self@.channels.drop_last() =~= old(self)@.channels);
                    assert(self@.subscribed_topics[n] == topic@);
                    assert(self@.channels[n] == tx);
                    if old(self)@.well_formed() {
                        assert forall|a: int, b: int|
                            0 <= a < b < self@.subscribed_topics.len() implies self@.subscribed_topics[a]
                            != self@.subscribed_topics[b] by {
                            if b == n {
                                assert(old(self)@.subscribed_topics[a] == self@.subscribed_topics[a]);
                            }
                        }
                    }
                }
                rx
            },
        }
    }

    /// Publishes `payload` to `topic`: records the message and sends it on
    /// the topic's channel, if the topic has one (so every receiver
    /// subscribed to it gets it); no other channel is touched. Always
    /// succeeds, with or without subscribers.
    pub fn publish(&mut self, topic: &str, payload: &str) -> (res: Result<(), String>)
        ensures
            res is Ok,
            final(self)@.published == old(self)@.published.push((topic@, payload@)),
            final(self)@.subscribed_topics == old(self)@.subscribed_topics,
            delivered(old(self)@, topic@, payload@, final(self)@),
            old(self)@.well_formed() ==> final(self)@.well_formed(),
    {
        self.published_messages.push((String::from_str(topic), String::from_str(payload)));
        proof {
            assert(self@.published =~= old(self)@.published.push((topic@, payload@)));
            assert(self@.subscribed_topics =~= old(self)@.subscribed_topics);
            assert(self@.channels =~= old(self)@.channels);
        }
        if let Some(i) = self.channel_of(topic) {
            let ghost mid = self@;
            send_payload(&mut self.subscriptions[i].1, String::from_str(payload));
            proof {
                assert(old(self)@.subscribed_topics[i as int] == topic@);
                assert(self@.subscribed_topics =~= old(self)@.subscribed_topics);
                assert(self@.channels =~= old(self)@.channels.update(
                    i as int,
                    self@.channels[i as int],
                ));
                assert(self@.published =~= mid.published);
            }
        }
        Ok(())
    }

    /// A copy of every published message, oldest first.
    pub fn get_published_messages(&self) -> (v: Vec<(String, String)>)
        ensures
            v@.map_values(|m: (String, String)| (m.0@, m.1@)) == self@.published,
    {
        let ghost pub_view = self@.published;
        let mut v: Vec<(String, String)> = Vec::new();
        let mut i: usize = 0;
        while i < self.published_messages.len()
            invariant
                i <= self.published_messages@.len(),
                pub_view == self@.published,
                pub_view.len() == self.published_messages@.len(),
                forall|j: int|
                    0 <= j < pub_view.len() ==> #[trigger] pub_view[j] == (
                    self.published_messages@[j].0@,
                    self.published_messages@[j].1@,
                ),
                v@.map_values(|m: (String, String)| (m.0@, m.1@)) =~= pub_view.take(i as int),
            decreases self.published_messages@.len() - i,
        {
            let ghost before = v@;
            let entry = &self.published_messages[i];
            let copy = (entry.0.clone(), entry.1.clone());
            assert((copy.0@, copy.1@) == pub_view[i as int]);
            v.push(copy);
            proof {
                assert(v@ =~= before.push(copy));
                assert(v@.map_values(|m: (String, String)| (m.0@, m.1@)) =~= before.map_values(
                    |m: (String, String)| (m.0@, m.1@),
                ).push(pub_view[i as int]));
                assert(pub_view.take(i + 1) =~= pub_view.take(i as int).push(pub_view[i as int]));
            }
            i = i + 1;
        }
        assert(pub_view.take(pub_view.len() as int) =~= pub_view);
        v
    }

    /// Forgets the published messages (subscriptions stay).
    pub fn clear_messages(&mut self)
        ensures
            final(self)@.published == Seq::<(Seq<char>, Seq<char>)>::empty(),
            final(self)@.subscribed_topics == old(self)@.subscribed_topics,
            final(self)@.channels == old(self)@.channels,
    {
        self.published_messages.clear();
        proof {
            assert(self@.published =~= Seq::<(Seq<char>, Seq<char>)>::empty());
            assert(self@.subscribed_topics =~= old(self)@.subscribed_topics);
            assert(self@.channels =~= old(self)@.channels);
        }
    }
}

impl Default for InMemoryMqttMock {
    /// A broker with no subscription and no message.
    fn default() -> (m: Self)
        ensures
            m@.subscribed_topics == Seq::<Seq<char>>::empty(),
            m@.published == Seq::<(Seq<char>, Seq<char>)>::empty(),
            m@.well_formed(),
    {
        Self::new()
    }
}

} // verus!
