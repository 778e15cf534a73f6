use drift_sdk::cache::SlotCache;
use drift_sdk::events::{Event, EventEmitter};
use drift_sdk::keys::Pubkey;
use drift_sdk::subscription::{AccountSubscriber, CommitmentLevel, SubscriptionState};
use drift_sdk::types::SdkError;
use drift_sdk::user::{AccountProvider, DriftUser};
use drift_sdk::DataAndSlot;

#[test]
fn cache_keeps_the_freshest_slot() {
    let mut cache = SlotCache::new(vec![0_u8], 0);
    for (value, slot) in [(5_u8, 5_u64), (3, 3), (7, 7), (6, 6)] {
        cache.update(vec![value], slot);
    }
    assert_eq!(cache.read().slot, 7);
    assert_eq!(cache.read().data, vec![7_u8]);
    assert_eq!(cache.slot(), 7);
}

#[test]
fn cache_accepts_equal_slot_rewrites() {
    let mut cache = SlotCache::new(vec![1_u8], 4);
    cache.update(vec![2_u8], 4);
    assert_eq!(cache.read().data, vec![2_u8]);
    cache.update(vec![9_u8], 3);
    assert_eq!(cache.read().data, vec![2_u8]);
    assert_eq!(cache.read().slot, 4);
}

fn subscribed_pair() -> (AccountSubscriber, DriftUser) {
    let key = Pubkey::new_from_array([8_u8; 32]);
    let mut subscription = AccountSubscriber::new(
        DriftUser::SUBSCRIPTION_ID,
        String::from("wss://example.org"),
        key,
        CommitmentLevel::Confirmed,
        EventEmitter::new(),
    );
    let mut user = DriftUser::from_initial(key, 0, vec![0_u8; 4]);
    user.subscribe(&mut subscription);
    assert_eq!(subscription.current_state(), SubscriptionState::Subscribing);
    subscription.confirm_subscribed(true).unwrap();
    assert_eq!(subscription.current_state(), SubscriptionState::Active);
    (subscription, user)
}

#[test]
fn interleaved_updates_resolve_by_slot_not_arrival() {
    let (mut subscription, mut user) = subscribed_pair();
    for slot in [5_u64, 3, 7, 6] {
        assert!(subscription.on_notification(vec![slot as u8; 4], slot));
    }
    let errors = user.process_events(&mut subscription);
    assert!(errors.is_empty());
    let snapshot = user.get_user_account_and_slot();
    assert_eq!(snapshot.slot, 7);
    assert_eq!(snapshot.data, vec![7_u8; 4]);
}

#[test]
fn malformed_update_is_surfaced_and_isolated() {
    let (mut subscription, mut user) = subscribed_pair();
    subscription.on_notification(vec![1_u8; 3], 9); // wrong width
    subscription.on_notification(Vec::new(), 10); // absent account
    subscription.on_notification(vec![2_u8; 4], 11); // well-formed
    let errors = user.process_events(&mut subscription);
    assert_eq!(errors, vec![SdkError::DecodeError, SdkError::AccountNotFound]);
    // the subscription survived and the good update landed
    assert_eq!(subscription.current_state(), SubscriptionState::Active);
    assert_eq!(user.get_user_account_and_slot().slot, 11);
    assert_eq!(user.get_user_account(), &vec![2_u8; 4]);
}

#[test]
fn nothing_is_published_after_unsubscribe() {
    let (mut subscription, mut user) = subscribed_pair();
    subscription.on_notification(vec![1_u8; 4], 5);
    subscription.unsubscribe();
    assert!(!subscription.on_notification(vec![2_u8; 4], 6));
    subscription.unsubscribe(); // idempotent
    assert_eq!(subscription.current_state(), SubscriptionState::Unsubscribed);
    let errors = user.process_events(&mut subscription);
    assert!(errors.is_empty());
    assert_eq!(user.get_user_account_and_slot().slot, 5);
}

#[test]
fn stream_errors_reconnect_without_disturbing_the_mirror() {
    let (mut subscription, mut user) = subscribed_pair();
    subscription.on_notification(vec![1_u8; 4], 5);
    subscription.on_stream_error();
    assert_eq!(subscription.current_state(), SubscriptionState::Reconnecting);
    // the interruption event is an unrecognized variant for the mirror: a
    // silent no-op
    let errors = user.process_events(&mut subscription);
    assert!(errors.is_empty());
    assert_eq!(user.get_user_account_and_slot().slot, 5);
    // the transport re-establishes the stream
    subscription.begin_subscribe();
    subscription.confirm_subscribed(true).unwrap();
    assert_eq!(subscription.current_state(), SubscriptionState::Active);
}

#[test]
fn rejected_handshake_is_a_connection_error() {
    let key = Pubkey::new_from_array([8_u8; 32]);
    let mut subscription = AccountSubscriber::new(
        "user",
        String::from("wss://example.org"),
        key,
        CommitmentLevel::Processed,
        EventEmitter::new(),
    );
    subscription.begin_subscribe();
    assert_eq!(
        subscription.confirm_subscribed(false),
        Err(SdkError::ConnectionError)
    );
    assert_eq!(subscription.current_state(), SubscriptionState::Unsubscribed);
}

#[test]
fn listeners_share_a_topic_in_registration_order() {
    let mut emitter = EventEmitter::new();
    let first = emitter.subscribe("user");
    let second = emitter.subscribe("user");
    let other = emitter.subscribe("markets");
    assert_eq!(first, 0);
    assert_eq!(second, 1);
    assert_eq!(other, 0);

    emitter.emit("user", Event::AccountUpdate { data: vec![1], slot: 1 });
    emitter.emit("markets", Event::StreamInterrupted);

    let first_events = emitter.drain("user", first);
    let second_events = emitter.drain("user", second);
    assert_eq!(first_events.len(), 1);
    assert_eq!(second_events.len(), 1);
    assert!(matches!(
        first_events[0],
        Event::AccountUpdate { ref data, slot: 1 } if *data == vec![1_u8]
    ));
    // a drained queue stays empty until the next emit
    assert!(emitter.drain("user", first).is_empty());

    let other_events = emitter.drain("markets", other);
    assert!(matches!(other_events[0], Event::StreamInterrupted));
}

struct FixedProvider {
    reply: Result<Option<DataAndSlot<Vec<u8>>>, SdkError>,
}

impl AccountProvider for FixedProvider {
    fn get_account(
        &mut self,
        _account_key: &Pubkey,
    ) -> Result<Option<DataAndSlot<Vec<u8>>>, SdkError> {
        match &self.reply {
            Ok(Some(snapshot)) => Ok(Some(DataAndSlot {
                data: snapshot.data.clone(),
                slot: snapshot.slot,
            })),
            Ok(None) => Ok(None),
            Err(e) => Err(*e),
        }
    }
}

#[test]
fn mirror_is_seeded_from_the_provider_at_slot_zero() {
    let key = Pubkey::new_from_array([3_u8; 32]);
    let mut provider = FixedProvider {
        reply: Ok(Some(DataAndSlot { data: vec![9_u8; 8], slot: 42 })),
    };
    let user = DriftUser::new(&mut provider, key, 1).unwrap();
    assert_eq!(user.pubkey, key);
    assert_eq!(user.sub_account, 1);
    let snapshot = user.get_user_account_and_slot();
    // seeded at slot zero so the first published update always refreshes
    assert_eq!(snapshot.slot, 0);
    assert_eq!(snapshot.data, vec![9_u8; 8]);
}

#[test]
fn absent_account_is_account_not_found() {
    let key = Pubkey::new_from_array([3_u8; 32]);
    let mut provider = FixedProvider { reply: Ok(None) };
    let outcome = DriftUser::new(&mut provider, key, 0);
    assert!(matches!(outcome, Err(SdkError::AccountNotFound)));

    let mut failing = FixedProvider { reply: Err(SdkError::ConnectionError) };
    let outcome = DriftUser::new(&mut failing, key, 0);
    assert!(matches!(outcome, Err(SdkError::ConnectionError)));
}
