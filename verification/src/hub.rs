//! The live broadcast hub: every accepted change is handed to one bounded
//! in-process channel, and each connected client reads the channel through a
//! subscription of its own that lets through the changes of its user only.
//! Delivery is best effort: a subscriber that falls behind by more than the
//! channel retains loses the oldest messages.

use crate::data::bookmarks::{Bookmark, BookmarkView};
use tokio::sync::broadcast::error::TryRecvError;
use tokio::sync::broadcast::{Receiver, Sender};
use vstd::prelude::*;

verus! {

/// The sending half of tokio's broadcast channel.
#[verifier::external_type_specification]
#[verifier::external_body]
#[verifier::reject_recursive_types(T)]
pub struct ExSender<T>(Sender<T>);

/// The receiving half of tokio's broadcast channel.
#[verifier::external_type_specification]
#[verifier::external_body]
#[verifier::reject_recursive_types(T)]
pub struct ExReceiver<T>(Receiver<T>);

/// How many messages the hub of a server is asked to retain for slow
/// subscribers; at least this many are kept.
pub const HUB_CAPACITY: usize = 100;

/// Seconds between two keep-alive signs on an idle live stream.
pub const KEEP_ALIVE_SECS: u64 = 15;

/// One accepted change on its way to the live subscribers: the bookmark and
/// the user it belongs to. It is never stored.
#[derive(Debug, PartialEq, Eq)]
pub struct SyncMessage {
    pub user_id: String,
    pub bookmark: Bookmark,
}

/// Mathematical value of a [`SyncMessage`].
pub struct SyncMessageView {
    pub user_id: Seq<char>,
    pub bookmark: BookmarkView,
}

impl View for SyncMessage {
    type V = SyncMessageView;

    open spec fn view(&self) -> SyncMessageView {
        SyncMessageView { user_id: self.user_id@, bookmark: self.bookmark@ }
    }
}

impl Clone for SyncMessage {
    fn clone(&self) -> (copy: Self)
        ensures
            copy@ == self@,
    {
        SyncMessage { user_id: self.user_id.clone(), bookmark: self.bookmark.clone() }
    }
}

/// What the channel hands to a subscription that asks for its next message.
#[derive(Debug, PartialEq, Eq)]
pub enum Received {
    /// The next message.
    Message(SyncMessage),
    /// Nothing is waiting.
    Empty,
    /// Nothing is waiting and no sender is left.
    Closed,
    /// The subscription fell behind and so many messages are lost to it.
    Lagged(u64),
}

/// Mathematical value of [`Received`].
pub enum ReceivedView {
    Message(SyncMessageView),
    Empty,
    Closed,
    Lagged(u64),
}

impl View for Received {
    type V = ReceivedView;

    open spec fn view(&self) -> ReceivedView {
        match *self {
            Received::Message(m) => ReceivedView::Message(m@),
            Received::Empty => ReceivedView::Empty,
            Received::Closed => ReceivedView::Closed,
            Received::Lagged(n) => ReceivedView::Lagged(n),
        }
    }
}

/// What a subscription passes on to its client.
#[derive(Debug, PartialEq, Eq)]
pub enum Delivery {
    /// A change of the subscriber's own user.
    Event(Bookmark),
    /// Something the client is not told of: a change of another user, or the
    /// notice that messages were lost.
    Skipped,
    /// Nothing is waiting.
    Idle,
    /// The stream has ended.
    Closed,
}

/// Mathematical value of [`Delivery`].
pub enum DeliveryView {
    Event(BookmarkView),
    Skipped,
    Idle,
    Closed,
}

impl View for Delivery {
    type V = DeliveryView;

    open spec fn view(&self) -> DeliveryView {
        match *self {
            Delivery::Event(b) => DeliveryView::Event(b@),
            Delivery::Skipped => DeliveryView::Skipped,
            Delivery::Idle => DeliveryView::Idle,
            Delivery::Closed => DeliveryView::Closed,
        }
    }
}

/// The messages for a batch: one for each bookmark, in the order of the
/// batch, each tagged with the user.
pub open spec fn tagged(user_id: Seq<char>, batch: Seq<BookmarkView>) -> Seq<SyncMessageView> {
    batch.map_values(|b: BookmarkView| SyncMessageView { user_id, bookmark: b })
}

/// The values of a sequence of messages.
pub open spec fn messages_view(messages: Seq<SyncMessage>) -> Seq<SyncMessageView> {
    messages.map_values(|m: SyncMessage| m@)
}

/// What a subscriber of `user_id` passes on for what it received: a message
/// goes through exactly when it is tagged with the subscriber's user.
pub open spec fn deliver_spec(user_id: Seq<char>, received: ReceivedView) -> DeliveryView {
    match received {
        ReceivedView::Message(m) => if m.user_id == user_id {
            DeliveryView::Event(m.bookmark)
        } else {
            DeliveryView::Skipped
        },
        ReceivedView::Empty => DeliveryView::Idle,
        ReceivedView::Closed => DeliveryView::Closed,
        ReceivedView::Lagged(_) => DeliveryView::Skipped,
    }
}

/// The changes that a subscriber of `user_id` has passed on after it received
/// `received`, in order.
pub open spec fn delivered(user_id: Seq<char>, received: Seq<ReceivedView>) -> Seq<BookmarkView>
    decreases received.len(),
{
    if received.len() == 0 {
        Seq::empty()
    } else {
        let before = delivered(user_id, received.drop_last());
        match deliver_spec(user_id, received.last()) {
            DeliveryView::Event(b) => before.push(b),
            _ => before,
        }
    }
}

/// Decides what a subscriber of `user_id` passes on for what it received.
pub fn deliver(user_id: &str, received: Received) -> (delivery: Delivery)
    ensures
        delivery@ == deliver_spec(user_id@, received@),
{
    match received {
        Received::Message(message) => {
            if crate::text::text_equal(message.user_id.as_str(), user_id) {
                Delivery::Event(message.bookmark)
            } else {
                Delivery::Skipped
            }
        },
        Received::Empty => Delivery::Idle,
        Received::Closed => Delivery::Closed,
        Received::Lagged(_) => Delivery::Skipped,
    }
}

/// Tags each bookmark of a batch with the user, keeping the order.
pub fn tag_all(user_id: &str, bookmarks: &Vec<Bookmark>) -> (messages: Vec<SyncMessage>)
    ensures
        messages_view(messages@) == tagged(user_id@, crate::data::bookmarks::views_of(bookmarks@)),
{
    let mut messages: Vec<SyncMessage> = Vec::new();
    let mut i: usize = 0;
    while i < bookmarks.len()
        invariant
            i <= bookmarks.len(),
            messages.len() == i,
            forall|j: int|
                0 <= j < i ==> (#[trigger] messages[j])@ == (SyncMessageView {
                    user_id: user_id@,
                    bookmark: bookmarks[j]@,
                }),
        decreases bookmarks.len() - i,
    {
        messages.push(SyncMessage { user_id: user_id.to_owned(), bookmark: bookmarks[i].clone() });
        i += 1;
    }
    assert(messages_view(messages@) =~= tagged(
        user_id@,
        crate::data::bookmarks::views_of(bookmarks@),
    ));
    messages
}

/// The channel that a sender sends to, told by the sender that the channel
/// was made with, as it then was. Two senders have the same one exactly when
/// what is sent through either reaches the same subscriptions.
pub uninterp spec fn channel_of(tx: Sender<SyncMessage>) -> Sender<SyncMessage>;

/// The messages that were handed to the channel through this very sender,
/// oldest first, whether or not anybody was subscribed at the time.
pub uninterp spec fn handed(tx: Sender<SyncMessage>) -> Seq<SyncMessageView>;

/// The number of messages that a channel was asked to retain for slow
/// subscribers when it was made. At least this many are kept: the channel
/// rounds the number up to a power of two for the length of its ring.
pub uninterp spec fn channel_capacity(channel: Sender<SyncMessage>) -> nat;

/// The channel that a receiver reads from.
pub uninterp spec fn receiver_source(rx: Receiver<SyncMessage>) -> Sender<SyncMessage>;

/// What this receiver has handed out so far, oldest first: each message it
/// gave, and each time it had none to give or told of a loss.
pub uninterp spec fn handed_out(rx: Receiver<SyncMessage>) -> Seq<ReceivedView>;

/// Makes the sending half of a channel with `Sender::new`, which retains
/// `capacity` messages rounded up to a power of two. It panics on a capacity
/// of zero or above half of `usize::MAX`, which the precondition leaves out.
/// The sender that comes back is the one its channel is told by; nothing was
/// sent through it; the contract records the capacity that was asked for.
#[verifier::external_body]
fn channel_new(capacity: usize) -> (tx: Sender<SyncMessage>)
    requires
        0 < capacity <= usize::MAX / 2,
    ensures
        channel_of(tx) == tx,
        channel_capacity(tx) == capacity,
        handed(tx) == Seq::<SyncMessageView>::empty(),
{
    Sender::new(capacity)
}

/// Calls `Sender::send`, which hands the message to the sender's channel
/// and to no other. What `send` hands back, how many subscriptions there
/// were, depends on who is connected and is dropped.
#[verifier::external_body]
fn channel_send(tx: &mut Sender<SyncMessage>, message: SyncMessage)
    ensures
        channel_of(*final(tx)) == channel_of(*old(tx)),
        handed(*final(tx)) == handed(*old(tx)).push(message@),
{
    let _ = tx.send(message);
}

/// Calls `Sender::subscribe`: a new receiving half on the sender's own
/// channel, which has handed out nothing yet and sees what is sent from now
/// on. (It panics once a quarter of `usize::MAX` receivers are alive.)
#[verifier::external_body]
fn channel_subscribe(tx: &Sender<SyncMessage>) -> (rx: Receiver<SyncMessage>)
    ensures
        receiver_source(rx) == channel_of(*tx),
        handed_out(rx) == Seq::<ReceivedView>::empty(),
{
    tx.subscribe()
}

/// Calls `Sender::clone`: another sender on the same channel, through which
/// nothing was sent yet.
#[verifier::external_body]
fn channel_handle(tx: &Sender<SyncMessage>) -> (other: Sender<SyncMessage>)
    ensures
        channel_of(other) == channel_of(*tx),
        handed(other) == Seq::<SyncMessageView>::empty(),
{
    tx.clone()
}

/// Calls `Receiver::try_recv` and carries its four outcomes over, one for
/// one. Which outcome it is depends on what others have sent; the receiver
/// stays on its channel and has handed out one outcome more.
#[verifier::external_body]
fn channel_try_recv(rx: &mut Receiver<SyncMessage>) -> (received: Received)
    ensures
        receiver_source(*final(rx)) == receiver_source(*old(rx)),
        handed_out(*final(rx)) == handed_out(*old(rx)).push(received@),
{
    match rx.try_recv() {
        Ok(message) => Received::Message(message),
        Err(TryRecvError::Empty) => Received::Empty,
        Err(TryRecvError::Closed) => Received::Closed,
        Err(TryRecvError::Lagged(missed)) => Received::Lagged(missed),
    }
}

/// A handle on the hub's channel. The hub knows nothing of users: it hands
/// every message to every subscription.
pub struct Hub {
    tx: Sender<SyncMessage>,
}

impl Hub {
    /// The messages that were published through this handle, oldest first.
    pub closed spec fn published(&self) -> Seq<SyncMessageView> {
        handed(self.tx)
    }

    /// The channel that this handle publishes to.
    pub closed spec fn channel(&self) -> Sender<SyncMessage> {
        channel_of(self.tx)
    }

    /// How many messages the channel was asked to retain for slow
    /// subscribers; at least this many are kept.
    pub open spec fn capacity(&self) -> nat {
        channel_capacity(self.channel())
    }

    /// The hub of a server, asked to retain [`HUB_CAPACITY`] messages.
    pub fn new() -> (hub: Hub)
        ensures
            hub.capacity() == HUB_CAPACITY,
            hub.published() == Seq::<SyncMessageView>::empty(),
    {
        Hub { tx: channel_new(HUB_CAPACITY) }
    }

    /// A hub that is asked to retain `capacity` messages for slow
    /// subscribers; at least that many are kept.
    pub fn with_capacity(capacity: usize) -> (hub: Hub)
        requires
            0 < capacity <= usize::MAX / 2,
        ensures
            hub.capacity() == capacity,
            hub.published() == Seq::<SyncMessageView>::empty(),
    {
        Hub { tx: channel_new(capacity) }
    }

    /// Another handle on the same channel, through which nothing was
    /// published yet.
    pub fn handle(&self) -> (hub: Hub)
        ensures
            hub.channel() == self.channel(),
            hub.published() == Seq::<SyncMessageView>::empty(),
    {
        Hub { tx: channel_handle(&self.tx) }
    }

    /// Hands a message to the channel. It neither waits nor fails, whether
    /// anybody listens or not.
    pub fn publish(&mut self, message: SyncMessage)
        ensures
            final(self).channel() == old(self).channel(),
            final(self).published() == old(self).published().push(message@),
    {
        channel_send(&mut self.tx, message);
    }

    /// Publishes the messages one by one, in their order.
    pub fn publish_all(&mut self, messages: Vec<SyncMessage>)
        ensures
            final(self).channel() == old(self).channel(),
            final(self).published() == old(self).published() + messages_view(messages@),
    {
        let ghost all = messages_view(messages@);
        let mut i: usize = 0;
        assert(self.published() =~= old(self).published() + all.take(0));
        while i < messages.len()
            invariant
                i <= messages.len(),
                all == messages_view(messages@),
                self.channel() == old(self).channel(),
                self.published() == old(self).published() + all.take(i as int),
            decreases messages.len() - i,
        {
            self.publish(messages[i].clone());
            assert(all.take(i as int + 1) =~= all.take(i as int).push(messages[i as int]@));
            assert(self.published() =~= old(self).published() + all.take(i as int + 1));
            i += 1;
        }
        assert(all.take(i as int) =~= all);
    }

    /// Opens a subscription for a user on this hub's channel. It sees what
    /// is published after this call.
    pub fn subscribe(&self, user_id: String) -> (subscriber: Subscriber)
        ensures
            subscriber.channel() == self.channel(),
            subscriber.user_id() == user_id@,
            subscriber.received() == Seq::<ReceivedView>::empty(),
    {
        Subscriber { user_id, rx: channel_subscribe(&self.tx) }
    }
}

/// The live stream of one connected client: a read position of its own on
/// the hub's channel, and the user whose changes it lets through.
pub struct Subscriber {
    user_id: String,
    rx: Receiver<SyncMessage>,
}

impl Subscriber {
    /// The user whose changes the subscription lets through.
    pub closed spec fn user_id(&self) -> Seq<char> {
        self.user_id@
    }

    /// The channel that the subscription reads from.
    pub closed spec fn channel(&self) -> Sender<SyncMessage> {
        receiver_source(self.rx)
    }

    /// Everything the channel has handed to this subscription, oldest first.
    pub closed spec fn received(&self) -> Seq<ReceivedView> {
        handed_out(self.rx)
    }

    /// Asks the channel for the next message without waiting and decides what
    /// the client gets of it.
    pub fn try_next(&mut self) -> (delivery: Delivery)
        ensures
            final(self).channel() == old(self).channel(),
            final(self).user_id() == old(self).user_id(),
            final(self).received().len() == old(self).received().len() + 1,
            final(self).received().drop_last() == old(self).received(),
            delivery@ == deliver_spec(old(self).user_id(), final(self).received().last()),
    {
        let received = channel_try_recv(&mut self.rx);
        proof {
            assert(self.received().drop_last() =~= old(self).received());
        }
        deliver(self.user_id.as_str(), received)
    }

    /// Gives up the subscription for its user and its read position, for a
    /// caller that waits on the channel itself and hands each outcome to
    /// [`deliver`].
    pub fn into_parts(self) -> (parts: (String, Receiver<SyncMessage>))
        ensures
            parts.0@ == self.user_id(),
            receiver_source(parts.1) == self.channel(),
            handed_out(parts.1) == self.received(),
    {
        (self.user_id, self.rx)
    }
}

/// Broadcast isolation: whatever a subscriber of one user receives, it
/// passes a change on only if the message was published for that very user.
pub proof fn lemma_broadcast_isolation(user_id: Seq<char>, received: ReceivedView)
    ensures
        deliver_spec(user_id, received) is Event ==> received is Message && received->Message_0.user_id
            == user_id && deliver_spec(user_id, received)->Event_0 == received->Message_0.bookmark,
        received is Message && received->Message_0.user_id != user_id ==> deliver_spec(
            user_id,
            received,
        ) == DeliveryView::Skipped,
{
}

/// Over the whole life of a subscription: every change it has passed on was
/// received in a message published for its user, and the changes were passed
/// on in the order in which they were received.
pub proof fn lemma_delivered_are_own(user_id: Seq<char>, received: Seq<ReceivedView>)
    ensures
        forall|k: int|
            0 <= k < delivered(user_id, received).len() ==> exists|i: int|
                0 <= i < received.len() && received[i] == ReceivedView::Message(
                    SyncMessageView {
                        user_id,
                        bookmark: #[trigger] delivered(user_id, received)[k],
                    },
                ),
    decreases received.len(),
{
    if received.len() > 0 {
        let front = received.drop_last();
        lemma_delivered_are_own(user_id, front);
        let all = delivered(user_id, received);
        let part = delivered(user_id, front);
        assert forall|k: int| 0 <= k < all.len() implies exists|i: int|
            0 <= i < received.len() && received[i] == ReceivedView::Message(
                SyncMessageView { user_id, bookmark: #[trigger] all[k] },
            ) by {
            if k < part.len() {
                assert(all[k] == part[k]);
                let i = choose|i: int|
                    0 <= i < front.len() && front[i] == ReceivedView::Message(
                        SyncMessageView { user_id, bookmark: part[k] },
                    );
                assert(received[i] == front[i]);
            } else {
                assert(received[received.len() - 1] == ReceivedView::Message(
                    SyncMessageView { user_id, bookmark: all[k] },
                ));
            }
        }
    }
}

} // verus!
