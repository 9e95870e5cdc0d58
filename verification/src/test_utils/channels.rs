//! The tokio channels the test helpers deliver messages over, and what is
//! known of the few calls made on them.
//!
//! A broadcast channel hands each message to every receiver it has; an
//! mpsc channel queues messages for its one receiver. Their contents are
//! named (`handed_to_send`, `messages_handed_to_send`, `waiting`) and
//! related to the handles (`listens_on`, `listens_for_messages`, `feeds`);
//! the wrappers below state what each call does to them.
use tokio::sync::broadcast;
use tokio::sync::mpsc;
use vstd::prelude::*;

verus! {

/// The sending half of a broadcast channel, `tokio::sync::broadcast::Sender`.
#[verifier::external_type_specification]
#[verifier::external_body]
#[verifier::reject_recursive_types(T)]
pub struct ExBroadcastSender<T>(tokio::sync::broadcast::Sender<T>);

/// The receiving half of a broadcast channel,
/// `tokio::sync::broadcast::Receiver`.
#[verifier::external_type_specification]
#[verifier::external_body]
#[verifier::reject_recursive_types(T)]
pub struct ExBroadcastReceiver<T>(tokio::sync::broadcast::Receiver<T>);

/// The sending half of a bounded queue, `tokio::sync::mpsc::Sender`.
#[verifier::external_type_specification]
#[verifier::external_body]
#[verifier::reject_recursive_types(T)]
pub struct ExMpscSender<T>(tokio::sync::mpsc::Sender<T>);

/// The receiving half of a bounded queue, `tokio::sync::mpsc::Receiver`.
#[verifier::external_type_specification]
#[verifier::external_body]
#[verifier::reject_recursive_types(T)]
pub struct ExMpscReceiver<T>(tokio::sync::mpsc::Receiver<T>);

// Broadcast channels of text payloads.
/// The payloads handed to `Sender::send` on the channel of `sender` so far,
/// oldest first (whether or not a receiver was there to take them).
pub uninterp spec fn handed_to_send(sender: broadcast::Sender<String>) -> Seq<Seq<char>>;

/// Whether `receiver` belongs to the channel of `sender`: it was made with
/// that channel by `broadcast::channel` or by `Sender::subscribe`, and gets
/// what is sent on the channel after it was made.
pub uninterp spec fn listens_on(
    receiver: broadcast::Receiver<String>,
    sender: broadcast::Sender<String>,
) -> bool;

/// Opens a broadcast channel of text holding up to `capacity` unread
/// messages: `tokio::sync::broadcast::channel`, which panics on a capacity
/// of zero or above `usize::MAX / 2`. Nothing has been sent on the new
/// channel, and the receiver returned belongs to it. What a receiver then
/// yields (including the capacity being rounded up to a power of two and
/// how a slow receiver lags) is the channel's, and is not stated.
#[verifier::external_body]
pub(crate) fn open_channel(capacity: usize) -> (channel: (
    broadcast::Sender<String>,
    broadcast::Receiver<String>,
))
    requires
        0 < capacity <= usize::MAX / 2,
    ensures
        handed_to_send(channel.0) == Seq::<Seq<char>>::empty(),
        listens_on(channel.1, channel.0),
{
    broadcast::channel(capacity)
}

/// A new receiver on the channel of `sender`, which gets every message sent
/// after this call: `Sender::subscribe`. It panics only with `usize::MAX / 4`
/// receivers alive on one channel, which memory cannot hold; that bound is
/// not stated.
#[verifier::external_body]
pub(crate) fn add_receiver(sender: &broadcast::Sender<String>) -> (receiver: broadcast::Receiver<
    String,
>)
    ensures
        listens_on(receiver, *sender),
{
    sender.subscribe()
}

/// Sends `payload` to every receiver of the channel of `sender`:
/// `Sender::send`. The payload is handed to the channel; a channel with no
/// receiver left refuses it, and it is then dropped, as a broker drops a
/// message nobody listens to. Sending changes no receiver's channel.
#[verifier::external_body]
pub(crate) fn send_payload(sender: &mut broadcast::Sender<String>, payload: String)
    ensures
        handed_to_send(*final(sender)) == handed_to_send(*old(sender)).push(payload@),
        forall|r: broadcast::Receiver<String>|
            #![trigger listens_on(r, *final(sender))]
            #![trigger listens_on(r, *old(sender))]
            listens_on(r, *final(sender)) == listens_on(r, *old(sender)),
{
    let _ = sender.send(payload);
}

/// `after` is the sender `before` once `payload` was sent on it: the payload
/// was handed to the channel, and the channel kept its receivers.
pub open spec fn sent_on(
    before: broadcast::Sender<String>,
    payload: Seq<char>,
    after: broadcast::Sender<String>,
) -> bool {
    &&& handed_to_send(after) == handed_to_send(before).push(payload)
    &&& forall|r: broadcast::Receiver<String>|
        #![trigger listens_on(r, after)]
        #![trigger listens_on(r, before)]
        listens_on(r, after) == listens_on(r, before)
}

// Broadcast channels of MQTT messages (topic and payload).
/// The messages handed to `Sender::send` on the channel of `sender` so far,
/// oldest first, as topic and payload.
pub uninterp spec fn messages_handed_to_send(
    sender: broadcast::Sender<(String, Vec<u8>)>,
) -> Seq<(Seq<char>, Seq<u8>)>;

/// Whether `receiver` belongs to the channel of `sender` (made with it by
/// `broadcast::channel` or by `Sender::subscribe`).
pub uninterp spec fn listens_for_messages(
    receiver: broadcast::Receiver<(String, Vec<u8>)>,
    sender: broadcast::Sender<(String, Vec<u8>)>,
) -> bool;

/// Opens a broadcast channel of messages holding up to `capacity` unread
/// ones: `tokio::sync::broadcast::channel`, as `open_channel` does for text.
#[verifier::external_body]
pub(crate) fn open_message_channel(capacity: usize) -> (channel: (
    broadcast::Sender<(String, Vec<u8>)>,
    broadcast::Receiver<(String, Vec<u8>)>,
))
    requires
        0 < capacity <= usize::MAX / 2,
    ensures
        messages_handed_to_send(channel.0) == Seq::<(Seq<char>, Seq<u8>)>::empty(),
        listens_for_messages(channel.1, channel.0),
{
    broadcast::channel(capacity)
}

/// A new receiver on the channel of `sender`: `Sender::subscribe`, as
/// `add_receiver` does for text.
#[verifier::external_body]
pub(crate) fn add_message_receiver(sender: &broadcast::Sender<(String, Vec<u8>)>) -> (receiver:
    broadcast::Receiver<(String, Vec<u8>)>)
    ensures
        listens_for_messages(receiver, *sender),
{
    sender.subscribe()
}

/// Sends `message` to every receiver of the channel of `sender`:
/// `Sender::send`, as `send_payload` does for text.
#[verifier::external_body]
pub(crate) fn send_message(
    sender: &mut broadcast::Sender<(String, Vec<u8>)>,
    message: (String, Vec<u8>),
)
    ensures
        messages_handed_to_send(*final(sender)) == messages_handed_to_send(*old(sender)).push(
            (message.0@, message.1@),
        ),
        forall|r: broadcast::Receiver<(String, Vec<u8>)>|
            #![trigger listens_for_messages(r, *final(sender))]
            #![trigger listens_for_messages(r, *old(sender))]
            listens_for_messages(r, *final(sender)) == listens_for_messages(r, *old(sender)),
{
    let _ = sender.send(message);
}

/// `after` is the sender `before` once `message` was sent on it.
pub open spec fn message_sent_on(
    before: broadcast::Sender<(String, Vec<u8>)>,
    message: (Seq<char>, Seq<u8>),
    after: broadcast::Sender<(String, Vec<u8>)>,
) -> bool {
    &&& messages_handed_to_send(after) == messages_handed_to_send(before).push(message)
    &&& forall|r: broadcast::Receiver<(String, Vec<u8>)>|
        #![trigger listens_for_messages(r, after)]
        #![trigger listens_for_messages(r, before)]
        listens_for_messages(r, after) == listens_for_messages(r, before)
}

// Bounded queues of MQTT messages.
/// The messages waiting in the queue of `receiver`, oldest first: sent and
/// not received yet.
pub uninterp spec fn waiting(receiver: mpsc::Receiver<(String, Vec<u8>)>) -> Seq<
    (Seq<char>, Seq<u8>),
>;

/// How many messages the queue of `receiver` holds at most: the capacity
/// it was made with.
pub uninterp spec fn queue_capacity(receiver: mpsc::Receiver<(String, Vec<u8>)>) -> nat;

/// Whether `sender` sends into the queue of `receiver`.
pub uninterp spec fn feeds(
    sender: mpsc::Sender<(String, Vec<u8>)>,
    receiver: mpsc::Receiver<(String, Vec<u8>)>,
) -> bool;

/// Opens a queue holding up to `capacity` messages:
/// `tokio::sync::mpsc::channel`, which panics on a capacity of zero or above
/// `usize::MAX / 8`. The queue is empty, and the sender feeds the receiver.
#[verifier::external_body]
pub(crate) fn open_queue(capacity: usize) -> (queue: (
    mpsc::Sender<(String, Vec<u8>)>,
    mpsc::Receiver<(String, Vec<u8>)>,
))
    requires
        0 < capacity <= usize::MAX / 8,
    ensures
        waiting(queue.1) == Seq::<(Seq<char>, Seq<u8>)>::empty(),
        queue_capacity(queue.1) == capacity,
        feeds(queue.0, queue.1),
{
    mpsc::channel(capacity)
}

/// Offers `message` to the queue that `sender` feeds, whose receiver is
/// `receiver`: `Sender::try_send`. It is queued if fewer than the capacity
/// are waiting, and dropped otherwise (tokio refuses a send when the
/// capacity's worth of messages is buffered; the receiver is alive, since it
/// is passed here). The receiver is taken only to speak of its queue. It
/// does not panic.
#[verifier::external_body]
pub(crate) fn offer(
    sender: &mpsc::Sender<(String, Vec<u8>)>,
    receiver: &mut mpsc::Receiver<(String, Vec<u8>)>,
    message: (String, Vec<u8>),
)
    requires
        feeds(*sender, *old(receiver)),
    ensures
        waiting(*final(receiver)) == if waiting(*old(receiver)).len() < queue_capacity(
            *old(receiver),
        ) {
            waiting(*old(receiver)).push((message.0@, message.1@))
        } else {
            waiting(*old(receiver))
        },
        queue_capacity(*final(receiver)) == queue_capacity(*old(receiver)),
        feeds(*sender, *final(receiver)),
    no_unwind
{
    let _ = sender.try_send(message);
}

/// Takes the oldest waiting message from the queue of `receiver`:
/// `Receiver::try_recv`, which never reports an empty queue while a message
/// is waiting. `None` when nothing is waiting. The queue keeps its capacity
/// and its senders. It does not panic.
#[verifier::external_body]
pub(crate) fn take(receiver: &mut mpsc::Receiver<(String, Vec<u8>)>) -> (message: Option<
    (String, Vec<u8>),
>)
    ensures
        if waiting(*old(receiver)).len() > 0 {
            &&& message matches Some(m)
            &&& (m.0@, m.1@) == waiting(*old(receiver))[0]
            &&& waiting(*final(receiver)) == waiting(*old(receiver)).drop_first()
        } else {
            message is None && waiting(*final(receiver)) == waiting(*old(receiver))
        },
        queue_capacity(*final(receiver)) == queue_capacity(*old(receiver)),
        forall|s: mpsc::Sender<(String, Vec<u8>)>|
            #![trigger feeds(s, *final(receiver))]
            #![trigger feeds(s, *old(receiver))]
            feeds(s, *final(receiver)) == feeds(s, *old(receiver)),
    no_unwind
{
    receiver.try_recv().ok()
}

} // verus!
