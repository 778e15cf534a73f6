//! Slot-consistent local mirror of one user account.
//!
//! The mirror is seeded from an account provider, listens on a
//! subscription's topic, and folds every published update into its cache:
//! well-formed bytes at a fresh slot replace the snapshot, stale slots are
//! dropped, malformed bytes are surfaced per update without disturbing the
//! mirror or the subscription, and variants the mirror does not recognize
//! are silent no-ops.

use vstd::prelude::*;

use crate::cache::{DataAndSlot, SlotCache};
use crate::events::{events_view, Event, EventV};
use crate::keys::Pubkey;
use crate::subscription::AccountSubscriber;
use crate::types::{SdkError, SdkResult};

verus! {

/// Capability to fetch an account's current bytes and the slot they were
/// observed at: poll-on-demand or push-subscription, the mirror does not
/// care. `Ok(None)` means the account does not exist remotely, which is
/// distinct from any transport or decode failure.
pub trait AccountProvider {
    fn get_account(&mut self, account_key: &Pubkey) -> Result<
        Option<DataAndSlot<Vec<u8>>>,
        SdkError,
    >;
}

/// Checks raw account bytes against the fixed layout width the remote
/// program owns: empty bytes mean the account does not exist, a wrong
/// width is a decode failure, and only an exact-width snapshot passes.
pub fn decode_account(raw: Vec<u8>, expected_len: usize) -> (r: SdkResult<Vec<u8>>)
    ensures
        raw@.len() == 0 ==> r == Err::<Vec<u8>, SdkError>(SdkError::AccountNotFound),
        raw@.len() > 0 && raw@.len() != expected_len ==> r == Err::<Vec<u8>, SdkError>(
            SdkError::DecodeError,
        ),
        raw@.len() > 0 && raw@.len() == expected_len ==> r == Ok::<Vec<u8>, SdkError>(raw),
{
    if raw.len() == 0 {
        Err(SdkError::AccountNotFound)
    } else if raw.len() != expected_len {
        Err(SdkError::DecodeError)
    } else {
        Ok(raw)
    }
}

/// What one published event does to mirrored bytes and slot under layout
/// width `len`: a well-formed update is applied under the slot-monotonic
/// cache policy, everything else leaves the mirror alone.
pub open spec fn spec_apply_event(
    data: Seq<u8>,
    slot: u64,
    len: nat,
    event: EventV,
) -> (Seq<u8>, u64) {
    match event {
        EventV::AccountUpdate { data: fresh, slot: at } => {
            if fresh.len() > 0 && fresh.len() == len && at >= slot {
                (fresh, at)
            } else {
                (data, slot)
            }
        },
        _ => (data, slot),
    }
}

/// The mirror state after folding a sequence of published events, in
/// delivery order.
pub open spec fn spec_apply_events(
    data: Seq<u8>,
    slot: u64,
    len: nat,
    events: Seq<EventV>,
) -> (Seq<u8>, u64)
    decreases events.len(),
{
    if events.len() == 0 {
        (data, slot)
    } else {
        spec_apply_events(
            spec_apply_event(data, slot, len, events[0]).0,
            spec_apply_event(data, slot, len, events[0]).1,
            len,
            events.drop_first(),
        )
    }
}

/// Local mirror of one user account.
pub struct DriftUser {
    pub pubkey: Pubkey,
    pub sub_account: u16,
    account_len: usize,
    listener_id: Option<usize>,
    cache: SlotCache<Vec<u8>>,
}

impl DriftUser {
    /// The topic user-account updates are published on.
    pub const SUBSCRIPTION_ID: &'static str = "user";

    /// The mirrored account's key.
    pub closed spec fn spec_pubkey(self) -> Pubkey {
        self.pubkey
    }

    /// The sub-account the mirror stands for.
    pub closed spec fn spec_sub_account(self) -> u16 {
        self.sub_account
    }

    /// The mirrored account bytes.
    pub closed spec fn data(self) -> Seq<u8> {
        self.cache@.data@
    }

    /// The slot the mirrored bytes were observed at.
    pub closed spec fn slot(self) -> u64 {
        self.cache@.slot
    }

    /// The fixed width of the account's layout, learned from the seed
    /// snapshot.
    pub closed spec fn account_len(self) -> nat {
        self.account_len as nat
    }

    /// The number of the mirror's listener queue, once subscribed.
    pub closed spec fn listener(self) -> Option<usize> {
        self.listener_id
    }

    /// The mirror holds exactly one layout's worth of bytes.
    pub open spec fn wf(self) -> bool {
        self.data().len() == self.account_len()
    }

    /// Seeds a mirror with an account snapshot, at slot zero so that any
    /// published update refreshes it.
    pub fn from_initial(pubkey: Pubkey, sub_account: u16, data: Vec<u8>) -> (r: Self)
        ensures
            r.spec_pubkey() == pubkey,
            r.spec_sub_account() == sub_account,
            r.data() == data@,
            r.slot() == 0,
            r.account_len() == data@.len(),
            r.listener() is None,
            r.wf(),
    {
        let account_len = data.len();
        DriftUser {
            pubkey,
            sub_account,
            account_len,
            listener_id: None,
            cache: SlotCache::new(data, 0),
        }
    }

    /// Builds a mirror of `pubkey` from whatever the provider returns: a
    /// fetched snapshot seeds the mirror, an absent account is
    /// `AccountNotFound`, and a provider failure passes through.
    pub fn new<P: AccountProvider>(
        provider: &mut P,
        pubkey: Pubkey,
        sub_account: u16,
    ) -> (r: SdkResult<Self>)
        ensures
            match r {
                Ok(user) => user.wf() && user.spec_pubkey() == pubkey && user.spec_sub_account() == sub_account
                    && user.slot() == 0 && user.listener() is None,
                Err(_) => true,
            },
    {
        match provider.get_account(&pubkey) {
            Ok(Some(snapshot)) => Ok(Self::from_initial(pubkey, sub_account, snapshot.data)),
            Ok(None) => Err(SdkError::AccountNotFound),
            Err(e) => Err(e),
        }
    }

    /// Attaches the mirror to a subscription: registers a listener queue on
    /// the subscription's topic and asks it to establish its stream.
    pub fn subscribe(&mut self, subscription: &mut AccountSubscriber)
        ensures
            final(self).spec_pubkey() == old(self).spec_pubkey(),
            final(self).spec_sub_account() == old(self).spec_sub_account(),
            final(self).data() == old(self).data(),
            final(self).slot() == old(self).slot(),
            final(self).account_len() == old(self).account_len(),
            final(self).listener() == Some(
                old(subscription).queues_of(old(subscription).topic()).len() as usize,
            ),
            old(subscription).same_binding(*final(subscription)),
            final(subscription).state() == crate::subscription::SubscriptionState::Subscribing,
            final(subscription).queues_of(old(subscription).topic()) == old(
                subscription,
            ).queues_of(old(subscription).topic()).push(Seq::<EventV>::empty()),
            forall|name: Seq<char>|
                name != old(subscription).topic() ==> final(subscription).queues_of(name) == old(
                    subscription,
                ).queues_of(name),
    {
        let id = subscription.register_listener();
        self.listener_id = Some(id);
        subscription.begin_subscribe();
    }

    /// Folds one published event into the mirror. A well-formed update is
    /// applied under the slot-monotonic policy (a stale slot is a silent
    /// no-op); empty or wrong-width bytes are surfaced as the matching
    /// error without touching the mirror; an unrecognized variant is a
    /// silent no-op.
    pub fn handle_event(&mut self, event: Event) -> (r: SdkResult<()>)
        ensures
            final(self).spec_pubkey() == old(self).spec_pubkey(),
            final(self).spec_sub_account() == old(self).spec_sub_account(),
            final(self).account_len() == old(self).account_len(),
            final(self).listener() == old(self).listener(),
            ({
                let after = spec_apply_event(
                    old(self).data(),
                    old(self).slot(),
                    old(self).account_len(),
                    event@,
                );
                final(self).data() == after.0 && final(self).slot() == after.1
            }),
            (match event@ {
                EventV::AccountUpdate { data, slot } => {
                    if data.len() == 0 {
                        r == Err::<(), SdkError>(SdkError::AccountNotFound)
                    } else if data.len() != old(self).account_len() {
                        r == Err::<(), SdkError>(SdkError::DecodeError)
                    } else {
                        r == Ok::<(), SdkError>(())
                    }
                },
                _ => r == Ok::<(), SdkError>(()),
            }),
    {
        match event {
            Event::AccountUpdate { data, slot } => {
                match decode_account(data, self.account_len) {
                    Ok(fresh) => {
                        self.cache.update(fresh, slot);
                        Ok(())
                    },
                    Err(e) => Err(e),
                }
            },
            _ => Ok(()),
        }
    }

    /// The mirrored snapshot and its slot, read together.
    pub fn get_user_account_and_slot(&self) -> (r: &DataAndSlot<Vec<u8>>)
        ensures
            r.data@ == self.data(),
            r.slot == self.slot(),
    {
        self.cache.read()
    }

    /// The mirrored snapshot alone.
    pub fn get_user_account(&self) -> (r: &Vec<u8>)
        ensures
            r@ == self.data(),
    {
        &self.cache.read().data
    }
}

proof fn lemma_apply_events_push(data: Seq<u8>, slot: u64, len: nat, events: Seq<EventV>, event: EventV)
    ensures
        spec_apply_events(data, slot, len, events.push(event)) == spec_apply_event(
            spec_apply_events(data, slot, len, events).0,
            spec_apply_events(data, slot, len, events).1,
            len,
            event,
        ),
    decreases events.len(),
{
    if events.len() == 0 {
        let ae = spec_apply_event(data, slot, len, event);
        assert(events.push(event)[0] == event);
        assert(events.push(event).drop_first() =~= events);
        assert(spec_apply_events(data, slot, len, events) == (data, slot));
        assert(spec_apply_events(ae.0, ae.1, len, events) == ae);
        assert(spec_apply_events(data, slot, len, events.push(event)) == spec_apply_events(
            ae.0,
            ae.1,
            len,
            events,
        ));
    } else {
        let ae = spec_apply_event(data, slot, len, events[0]);
        assert(events.push(event)[0] == events[0]);
        assert(events.push(event).drop_first() =~= events.drop_first().push(event));
        assert(spec_apply_events(data, slot, len, events.push(event)) == spec_apply_events(
            ae.0,
            ae.1,
            len,
            events.drop_first().push(event),
        ));
        assert(spec_apply_events(data, slot, len, events) == spec_apply_events(
            ae.0,
            ae.1,
            len,
            events.drop_first(),
        ));
        lemma_apply_events_push(
            spec_apply_event(data, slot, len, events[0]).0,
            spec_apply_event(data, slot, len, events[0]).1,
            len,
            events.drop_first(),
            event,
        );
    }
}

impl DriftUser {
    /// Drains the mirror's listener queue on `subscription` and folds every
    /// drained event into the mirror, in delivery order; errors surfaced by
    /// individual updates are collected, and neither they nor anything else
    /// stops the pump or the subscription.
    pub fn process_events(&mut self, subscription: &mut AccountSubscriber) -> (errors: Vec<
        SdkError,
    >)
        requires
            old(self).listener() is Some,
            old(self).listener()->Some_0 < old(subscription).queues_of(
                old(subscription).topic(),
            ).len(),
        ensures
            final(self).spec_pubkey() == old(self).spec_pubkey(),
            final(self).spec_sub_account() == old(self).spec_sub_account(),
            final(self).account_len() == old(self).account_len(),
            final(self).listener() == old(self).listener(),
            ({
                let delivered = old(subscription).queues_of(old(subscription).topic())[
                    old(self).listener()->Some_0 as int];
                let after = spec_apply_events(
                    old(self).data(),
                    old(self).slot(),
                    old(self).account_len(),
                    delivered,
                );
                final(self).data() == after.0 && final(self).slot() == after.1
            }),
            old(subscription).same_binding(*final(subscription)),
            final(subscription).state() == old(subscription).state(),
            final(subscription).queues_of(old(subscription).topic()) == old(
                subscription,
            ).queues_of(old(subscription).topic()).update(
                old(self).listener()->Some_0 as int,
                Seq::<EventV>::empty(),
            ),
            forall|name: Seq<char>|
                name != old(subscription).topic() ==> final(subscription).queues_of(name) == old(
                    subscription,
                ).queues_of(name),
    {
        let id = match self.listener_id {
            Some(id) => id,
            None => {
                // ruled out by the precondition: the mirror is subscribed
                proof {
                    assert(false);
                }
                0
            },
        };
        let events = subscription.drain(id);
        let ghost delivered = events_view(events);
        let mut errors: Vec<SdkError> = Vec::new();
        let mut i: usize = 0;
        proof {
            assert(delivered.take(0) =~= Seq::<EventV>::empty());
        }
        while i < events.len()
            invariant
                i <= events@.len(),
                events_view(events) == delivered,
                self.spec_pubkey() == old(self).spec_pubkey(),
                self.spec_sub_account() == old(self).spec_sub_account(),
                self.account_len() == old(self).account_len(),
                self.listener() == old(self).listener(),
                ({
                    let after = spec_apply_events(
                        old(self).data(),
                        old(self).slot(),
                        old(self).account_len(),
                        delivered.take(i as int),
                    );
                    self.data() == after.0 && self.slot() == after.1
                }),
            decreases events@.len() - i,
        {
            let event = events[i].clone();
            proof {
                assert(event@ == delivered[i as int]);
            }
            let outcome = self.handle_event(event);
            match outcome {
                Ok(_) => {},
                Err(e) => {
                    errors.push(e);
                },
            }
            proof {
                assert(delivered.take(i + 1) =~= delivered.take(i as int).push(
                    delivered[i as int],
                ));
                lemma_apply_events_push(
                    old(self).data(),
                    old(self).slot(),
                    old(self).account_len(),
                    delivered.take(i as int),
                    delivered[i as int],
                );
            }
            i += 1;
        }
        proof {
            assert(delivered.take(events@.len() as int) =~= delivered);
        }
        errors
    }
}

} // verus!
