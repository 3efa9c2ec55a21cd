//! # Vesting
//!
//! A means of placing a linear curve on an account's locked balance. The pallet ensures that there
//! is a lock in place preventing the balance to drop below the *unvested* amount for any reason
//! other than transaction fee payment.
//!
//! As the amount vested increases over time, the amount unvested reduces. However, locks remain in
//! place and explicit action is needed on behalf of the user to ensure that the amount locked is
//! equivalent to the amount remaining to be vested. This is done through a call, either `vest` (in
//! typical case where the sender is calling on their own behalf) or `vest_other` in case the sender
//! is calling on another account's behalf.
//!
//! [`Pallet`] holds the storage and decides what a call makes of it. What a call asks of the
//! currency comes back as a list of [`Effect`]s for the caller to carry out; the one thing that the
//! currency itself decides, a transfer, is handed in as a function.

pub mod bounded;
pub mod config;
pub mod genesis;
pub mod laws;
pub mod origin;
pub mod pallet;
pub mod schedules;
pub mod storage;
pub mod types;
pub mod vesting_info;

pub use config::{Config, ConstConfig};
pub use genesis::{GenesisConfig, GenesisError};
pub use origin::Origin;
pub use pallet::Pallet;
pub use schedules::VestingAction;
pub use storage::{PendingTransfer, UpgradeAction};
pub use types::{
    AccountId, Balance, BlockNumber, CallError, Effect, Error, Event, ExistenceRequirement,
    LockIdentifier, Releases, WithdrawReasons, VESTING_ID,
};
pub use vesting_info::VestingInfo;
