//! One logical subscription to a remote account, as a state machine.
//!
//! The subscriber is bound to one account and one event bus. The transport
//! that actually carries the stream lives outside: it reports handshake
//! results, notifications and stream failures here, and this state machine
//! decides what each means — publish, drop, or change state. Notifications
//! are published on the subscriber's topic as [`Event::AccountUpdate`];
//! cancellation is prompt in the sense that once unsubscribed, no further
//! notification is published.

use vstd::prelude::*;
use vstd::string::StringSliceAdditionalSpecFns;

use crate::events::{Event, EventEmitter, EventV};
use crate::keys::Pubkey;
use crate::types::{SdkError, SdkResult};

verus! {

/// Where one subscription stands.
#[derive(Copy, Clone, Debug, PartialEq, Eq, Structural)]
pub enum SubscriptionState {
    /// No stream; nothing is published.
    Unsubscribed,
    /// A stream is being established; nothing is published yet.
    Subscribing,
    /// Live: every notification is published on the topic.
    Active,
    /// The transport dropped the stream; a new handshake is awaited.
    Reconnecting,
}

/// Durability level requested when subscribing to remote state; passed
/// through to the transport opaquely.
#[derive(Copy, Clone, Debug, PartialEq, Eq, Structural)]
pub enum CommitmentLevel {
    Processed,
    Confirmed,
    Finalized,
}

/// A subscription to one remote account, publishing its updates on one
/// topic of one event bus.
pub struct AccountSubscriber {
    topic: String,
    endpoint: String,
    account_key: Pubkey,
    commitment: CommitmentLevel,
    state: SubscriptionState,
    emitter: EventEmitter,
}

impl AccountSubscriber {
    /// The topic updates are published on.
    pub closed spec fn topic(self) -> Seq<char> {
        self.topic@
    }

    /// The endpoint the transport connects to.
    pub closed spec fn endpoint(self) -> Seq<char> {
        self.endpoint@
    }

    /// The account subscribed to.
    pub closed spec fn account_key(self) -> Pubkey {
        self.account_key
    }

    /// The commitment level handed to the transport.
    pub closed spec fn commitment(self) -> CommitmentLevel {
        self.commitment
    }

    /// Where the subscription stands.
    pub closed spec fn state(self) -> SubscriptionState {
        self.state
    }

    /// The listener queues of `name` on the owned bus.
    pub closed spec fn queues_of(self, name: Seq<char>) -> Seq<Seq<EventV>> {
        self.emitter.queues_of(name)
    }

    /// Whether two subscriber states share one identity: topic, endpoint,
    /// account and commitment. Every transition here preserves it.
    pub open spec fn same_binding(self, other: Self) -> bool {
        self.topic() == other.topic() && self.endpoint() == other.endpoint()
            && self.account_key() == other.account_key() && self.commitment() == other.commitment()
    }

    /// Whether the bus is untouched: every queue on every topic as before.
    pub open spec fn same_queues(self, other: Self) -> bool {
        forall|name: Seq<char>| self.queues_of(name) == other.queues_of(name)
    }

    /// Binds a subscriber to one account and one event bus; does not
    /// connect.
    pub fn new(
        topic: &str,
        endpoint: String,
        account_key: Pubkey,
        commitment: CommitmentLevel,
        emitter: EventEmitter,
    ) -> (r: Self)
        ensures
            r.topic() == topic@,
            r.endpoint() == endpoint@,
            r.account_key() == account_key,
            r.commitment() == commitment,
            r.state() == SubscriptionState::Unsubscribed,
            forall|name: Seq<char>| r.queues_of(name) == emitter.queues_of(name),
    {
        AccountSubscriber {
            topic: topic.to_owned(),
            endpoint,
            account_key,
            commitment,
            state: SubscriptionState::Unsubscribed,
            emitter,
        }
    }

    /// Registers one more listener on the subscriber's topic and returns
    /// its number; listeners are numbered in registration order.
    pub fn register_listener(&mut self) -> (id: usize)
        ensures
            old(self).same_binding(*final(self)),
            final(self).state() == old(self).state(),
            id == old(self).queues_of(old(self).topic()).len(),
            final(self).queues_of(old(self).topic()) == old(self).queues_of(
                old(self).topic(),
            ).push(Seq::<EventV>::empty()),
            forall|name: Seq<char>|
                name != old(self).topic() ==> final(self).queues_of(name) == old(self).queues_of(
                    name,
                ),
    {
        self.emitter.subscribe(self.topic.as_str())
    }

    /// Asks the transport for a stream: the subscription enters
    /// `Subscribing`, replacing any stream it held before — resubscribing
    /// replaces, never duplicates.
    pub fn begin_subscribe(&mut self)
        ensures
            old(self).same_binding(*final(self)),
            old(self).same_queues(*final(self)),
            final(self).state() == SubscriptionState::Subscribing,
    {
        self.state = SubscriptionState::Subscribing;
    }

    /// Records the transport's answer to the handshake: accepted means the
    /// subscription is `Active`; rejected means it is back to
    /// `Unsubscribed` with a `ConnectionError`.
    pub fn confirm_subscribed(&mut self, accepted: bool) -> (r: SdkResult<()>)
        requires
            old(self).state() == SubscriptionState::Subscribing,
        ensures
            old(self).same_binding(*final(self)),
            old(self).same_queues(*final(self)),
            accepted ==> final(self).state() == SubscriptionState::Active && r == Ok::<
                (),
                SdkError,
            >(()),
            !accepted ==> final(self).state() == SubscriptionState::Unsubscribed && r == Err::<
                (),
                SdkError,
            >(SdkError::ConnectionError),
    {
        if accepted {
            self.state = SubscriptionState::Active;
            Ok(())
        } else {
            self.state = SubscriptionState::Unsubscribed;
            Err(SdkError::ConnectionError)
        }
    }

    /// Takes one remote notification. While the subscription is `Active`
    /// the notification is published on the topic to every listener; in any
    /// other state it is dropped — no new work after cancellation.
    pub fn on_notification(&mut self, data: Vec<u8>, slot: u64) -> (delivered: bool)
        ensures
            old(self).same_binding(*final(self)),
            final(self).state() == old(self).state(),
            delivered == (old(self).state() == SubscriptionState::Active),
            delivered ==> {
                &&& final(self).queues_of(old(self).topic()).len() == old(self).queues_of(
                    old(self).topic(),
                ).len()
                &&& forall|i: int|
                    0 <= i < old(self).queues_of(old(self).topic()).len() ==> final(self).queues_of(old(self).topic())[i] == old(self).queues_of(old(self).topic())[i].push(
                        EventV::AccountUpdate { data: data@, slot },
                    )
                &&& forall|name: Seq<char>|
                    name != old(self).topic() ==> final(self).queues_of(name) == old(self).queues_of(name)
            },
            !delivered ==> old(self).same_queues(*final(self)),
    {
        match self.state {
            SubscriptionState::Active => {
                let event = Event::AccountUpdate { data, slot };
                self.emitter.emit(self.topic.as_str(), event);
                true
            },
            _ => false,
        }
    }

    /// Records a transport failure: a live subscription enters
    /// `Reconnecting` and the listeners hear that the stream was
    /// interrupted; in any other state nothing changes.
    pub fn on_stream_error(&mut self)
        ensures
            old(self).same_binding(*final(self)),
            old(self).state() == SubscriptionState::Active ==> {
                &&& final(self).state() == SubscriptionState::Reconnecting
                &&& final(self).queues_of(old(self).topic()).len() == old(self).queues_of(
                    old(self).topic(),
                ).len()
                &&& forall|i: int|
                    0 <= i < old(self).queues_of(old(self).topic()).len() ==> final(self).queues_of(old(self).topic())[i] == old(self).queues_of(old(self).topic())[i].push(
                        EventV::StreamInterrupted,
                    )
                &&& forall|name: Seq<char>|
                    name != old(self).topic() ==> final(self).queues_of(name) == old(self).queues_of(name)
            },
            old(self).state() != SubscriptionState::Active ==> final(self).state() == old(self).state() && old(self).same_queues(*final(self)),
    {
        match self.state {
            SubscriptionState::Active => {
                self.state = SubscriptionState::Reconnecting;
                self.emitter.emit(self.topic.as_str(), Event::StreamInterrupted);
            },
            _ => {},
        }
    }

    /// Scoped teardown: cancels the stream. Safe to call in any state;
    /// when nothing is subscribed it is a no-op.
    pub fn unsubscribe(&mut self)
        ensures
            old(self).same_binding(*final(self)),
            old(self).same_queues(*final(self)),
            final(self).state() == SubscriptionState::Unsubscribed,
    {
        self.state = SubscriptionState::Unsubscribed;
    }

    /// Hands listener `id` everything published on the topic since it last
    /// drained, in delivery order.
    pub fn drain(&mut self, id: usize) -> (events: Vec<Event>)
        requires
            id < old(self).queues_of(old(self).topic()).len(),
        ensures
            old(self).same_binding(*final(self)),
            final(self).state() == old(self).state(),
            crate::events::events_view(events) == old(self).queues_of(old(self).topic())[id as int],
            final(self).queues_of(old(self).topic()) == old(self).queues_of(
                old(self).topic(),
            ).update(id as int, Seq::<EventV>::empty()),
            forall|name: Seq<char>|
                name != old(self).topic() ==> final(self).queues_of(name) == old(self).queues_of(
                    name,
                ),
    {
        self.emitter.drain(self.topic.as_str(), id)
    }

    /// Where the subscription stands, for the transport loop to branch on.
    pub fn current_state(&self) -> (r: SubscriptionState)
        ensures
            r == self.state(),
    {
        self.state
    }
}

} // verus!
