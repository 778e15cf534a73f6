//! Client-side state synchronization and instruction construction for a
//! remote on-chain trading program.
//!
//! The crate keeps a slot-consistent local mirror of remotely owned account
//! state and assembles deterministic, program-compatible payloads from
//! high-level trading intents: a versioned [`cache`], a named-topic
//! [`events`] bus, an account [`subscription`] state machine and the
//! [`user`] mirror it feeds, the canonical account ordering in [`accounts`]
//! over the byte-ordered keys of [`keys`], the market registry and symbol
//! lookup in [`types`] and [`constants`], and the fixed-width name codec in
//! [`user_name`]. Transport — the stream and fetch client the subscription
//! is driven by — stays outside, behind the [`user::AccountProvider`]
//! capability and the subscriber's transition methods.

pub mod accounts;
pub mod cache;
pub mod constants;
pub mod events;
pub mod keys;
pub mod subscription;
pub mod text;
pub mod types;
pub mod user;
pub mod user_name;

pub use accounts::{AccountMeta, AccountType};
pub use cache::{DataAndSlot, SlotCache};
pub use events::{Event, EventEmitter};
pub use keys::Pubkey;
pub use subscription::{AccountSubscriber, CommitmentLevel, SubscriptionState};
pub use types::{Context, MarketId, NewOrder, OrderParams, SdkError, SdkResult};
pub use user::{AccountProvider, DriftUser};
pub use user_name::{decode_name, encode_name, MAX_NAME_LENGTH};
