//! The broadcast bus: one channel that carries every message to every
//! subscriber.
//!
//! The channel is tokio's. It keeps a bounded number of messages; a
//! subscriber that falls further behind than that loses the oldest of them,
//! and no subscriber ever holds up a publisher. A subscription sees what is
//! published after it was made. None of this is visible to the verifier, which
//! sees the channel's two ends as opaque values. What is stated here is which
//! of a session's actions go to the bus, what is left for the socket, and what
//! a publisher gets back: the number of subscribers, or the message itself
//! where nobody is subscribed.

use vstd::prelude::*;
use vstd::string::*;
use crate::message::BroadcastMessage;
use crate::session::{ActionView, SessionAction};
use tokio::sync::broadcast::{Receiver, Sender};

verus! {

/// The number of messages that a server's bus keeps for a subscriber that
/// has fallen behind.
pub const BUS_CAPACITY: usize = 100;

/// The sending end of tokio's broadcast channel.
#[verifier::external_type_specification]
#[verifier::external_body]
#[verifier::reject_recursive_types(T)]
pub struct ExSender<T>(Sender<T>);

/// The receiving end of tokio's broadcast channel.
#[verifier::external_type_specification]
#[verifier::external_body]
#[verifier::reject_recursive_types(T)]
pub struct ExReceiver<T>(Receiver<T>);

/// `tokio::sync::broadcast::channel`: a new channel that keeps at least
/// `capacity` messages for a subscriber that has fallen behind, and its first
/// receiver. The call panics on a capacity of zero and on one above half of
/// `usize::MAX`; nothing is claimed of what it returns.
#[verifier::external_body]
fn open_channel(capacity: usize) -> (ends: (Sender<BroadcastMessage>, Receiver<BroadcastMessage>))
    requires
        0 < capacity <= usize::MAX / 2,
{
    tokio::sync::broadcast::channel(capacity)
}

/// `Sender::send` of tokio's broadcast channel, with the message taken out of
/// the error. The call succeeds where the channel has a receiver, and then
/// gives the number of receivers, which is not zero; where it has none, the
/// call fails and gives the message back as it was. Whether there is a
/// receiver is the channel's to say, so nothing is claimed of which of the two
/// comes back.
#[verifier::external_body]
fn send(sender: &Sender<BroadcastMessage>, message: BroadcastMessage) -> (outcome: Result<
    usize,
    BroadcastMessage,
>)
    ensures
        outcome matches Ok(receivers) ==> receivers > 0,
        outcome matches Err(returned) ==> returned@ == message@,
{
    sender.send(message).map_err(|error| error.0)
}

/// `Sender::subscribe` of tokio's broadcast channel: a new receiver, which
/// sees what is sent from now on. The call panics only where there are more
/// receivers than a quarter of `usize::MAX`, more than memory can hold;
/// nothing is claimed of what it returns.
#[verifier::external_body]
fn subscribe(sender: &Sender<BroadcastMessage>) -> (receiver: Receiver<BroadcastMessage>) {
    sender.subscribe()
}

/// `Clone::clone` of tokio's `Sender`: another sending end of the same
/// channel. Nothing is claimed of what it returns.
#[verifier::external_body]
fn another_sender(sender: &Sender<BroadcastMessage>) -> (copy: Sender<BroadcastMessage>) {
    sender.clone()
}

/// A handle on the bus. Every session of a server holds one, and all of them
/// lead to the same channel.
pub struct Bus {
    sender: Sender<BroadcastMessage>,
}

/// What is left to do once the bus has had its part of an action.
pub enum Effect {
    /// Nothing.
    Nothing,
    /// The session has joined: from now on, wait on this subscription too.
    Subscribed(Receiver<BroadcastMessage>),
    /// Write this text to the socket as one line.
    Write(String),
    /// The session has left: release the socket and the subscription.
    Released,
}

/// The mathematical value of an [`Effect`]; a subscription has none.
pub ghost enum EffectView {
    Nothing,
    Subscribed,
    Write(Seq<char>),
    Released,
}

impl View for Effect {
    type V = EffectView;

    open spec fn view(&self) -> EffectView {
        match self {
            Effect::Nothing => EffectView::Nothing,
            Effect::Subscribed(_) => EffectView::Subscribed,
            Effect::Write(text) => EffectView::Write(text@),
            Effect::Released => EffectView::Released,
        }
    }
}

/// What is left of `action` once the bus has had its part: an arrival leaves
/// a subscription, a departure the release, a delivery the text to write, and
/// a relayed line nothing.
pub open spec fn effect_of(action: ActionView) -> EffectView {
    match action {
        ActionView::Idle => EffectView::Nothing,
        ActionView::Join(_) => EffectView::Subscribed,
        ActionView::Relay(_) => EffectView::Nothing,
        ActionView::Leave(_) => EffectView::Released,
        ActionView::Deliver(text) => EffectView::Write(text),
    }
}

impl Bus {
    /// Opens a bus that keeps `capacity` messages for a subscriber that has
    /// fallen behind. Returns a handle and the bus's first subscription; for
    /// as long as that is kept, the bus has a subscriber.
    pub fn open(capacity: usize) -> (ends: (Bus, Receiver<BroadcastMessage>))
        requires
            0 < capacity <= usize::MAX / 2,
    {
        let (sender, receiver) = open_channel(capacity);
        (Bus { sender }, receiver)
    }

    /// Another handle on the same bus.
    pub fn handle(&self) -> (bus: Bus) {
        Bus { sender: another_sender(&self.sender) }
    }

    /// A new subscription, which sees what is published from now on.
    pub fn subscribe(&self) -> (subscription: Receiver<BroadcastMessage>) {
        subscribe(&self.sender)
    }

    /// Puts `message` before every subscriber there is, and waits for none of
    /// them. Returns how many subscribers there were, which is at least one;
    /// with none, the message is lost to the bus and comes back unchanged.
    pub fn publish(&self, message: BroadcastMessage) -> (outcome: Result<usize, BroadcastMessage>)
        ensures
            outcome matches Ok(subscribers) ==> subscribers > 0,
            outcome matches Err(returned) ==> returned@ == message@,
    {
        send(&self.sender, message)
    }

    /// Does on the bus what `action` asks for, and hands back what is left to
    /// do. An arrival is subscribed before it is announced, so that the
    /// session misses nothing that follows. Whether a message reaches anybody
    /// makes no difference: a departure is announced as far as that is
    /// possible.
    pub fn carry_out(&self, action: SessionAction) -> (effect: Effect)
        ensures
            effect@ == effect_of(action@),
    {
        match action {
            SessionAction::Idle => Effect::Nothing,
            SessionAction::Join(announcement) => {
                let subscription = self.subscribe();
                let _ = self.publish(announcement);
                Effect::Subscribed(subscription)
            },
            SessionAction::Relay(message) => {
                let _ = self.publish(message);
                Effect::Nothing
            },
            SessionAction::Leave(announcement) => {
                let _ = self.publish(announcement);
                Effect::Released
            },
            SessionAction::Deliver(text) => Effect::Write(text),
        }
    }
}

} // verus!
