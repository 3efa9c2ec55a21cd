//! The plain values that the pallet works on and hands out.

use vstd::prelude::*;

verus! {

/// Identifies an account.
pub type AccountId = u64;

/// An amount of funds.
pub type Balance = u128;

/// The number of a block.
pub type BlockNumber = u32;

/// Names a balance lock.
pub type LockIdentifier = [u8; 8];

/// The identifier of the lock that this pallet keeps on an account: `"vesting "`.
pub const VESTING_ID: LockIdentifier = [118u8, 101u8, 115u8, 116u8, 105u8, 110u8, 103u8, 32u8];

/// The version of the pallet's storage, which tells whether the storage has been migrated.
#[derive(Clone, Copy, PartialEq, Eq, Structural, Debug)]
pub enum Releases {
    V0,
    V1,
}

impl Default for Releases {
    fn default() -> (release: Self)
        ensures
            release == Releases::V0,
    {
        Releases::V0
    }
}

/// Error for the vesting pallet.
#[derive(Clone, Copy, PartialEq, Eq, Structural, Debug)]
pub enum Error {
    /// The account given is not vesting.
    NotVesting,
    /// The account already has the maximum number of schedules and thus cannot add another one.
    /// Consider merging existing schedules in order to add another.
    AtMaxVestingSchedules,
    /// Amount being transferred is too low to create a vesting schedule.
    AmountLow,
    /// At least one of the indexes is out of bounds of the vesting schedules.
    ScheduleIndexOutOfBounds,
    /// Failed to create a new schedule because some parameters were invalid: `locked` was 0.
    InvalidScheduleParams,
    /// A schedule contained a `per_block` of 0, or `locked / per_block` exceeds the highest block
    /// number, thus rendering it unable to ever fully unlock funds.
    InfiniteSchedule,
}

/// The error of the currency, `sp_runtime::DispatchError`, which is only passed on.
#[verifier::external_type_specification]
#[verifier::external_body]
pub struct ExCurrencyError(sp_runtime::DispatchError);

/// Why a call was refused.
#[derive(Clone, Copy, PartialEq, Eq, Debug)]
pub enum CallError {
    /// The origin is not the one that the call is for.
    BadOrigin,
    /// An address does not lead to an account.
    CannotLookup,
    /// An error of this pallet.
    Module(Error),
    /// The currency refused a transfer.
    Currency(sp_runtime::DispatchError),
}

/// What the pallet reports to the outside.
#[derive(Clone, Copy, PartialEq, Eq, Structural, Debug)]
pub enum Event {
    /// The amount vested has been updated. This could indicate more funds are available. The
    /// balance given is the amount which is left unvested (and thus locked).
    /// \[account, unvested\]
    VestingUpdated(AccountId, Balance),
    /// An \[account\] has become fully vested. No further vesting can happen.
    VestingCompleted(AccountId),
    /// Two vesting schedules were successfully merged together and the merged schedule was added.
    /// \[locked, per_block, starting_block\]
    MergedScheduleAdded(Balance, Balance, BlockNumber),
    /// A vested transfer has left a vesting schedule with an \[account\].
    VestingCreated(AccountId),
}

/// The kinds of withdrawal that a lock holds back.
#[derive(Clone, Copy, PartialEq, Eq, Structural, Debug)]
pub struct WithdrawReasons {
    /// Paying for a transaction.
    pub transaction_payment: bool,
    /// A transfer.
    pub transfer: bool,
    /// A reservation.
    pub reserve: bool,
    /// Some other fee.
    pub fee: bool,
    /// A tip.
    pub tip: bool,
}

/// Whether a transfer may empty the account that it draws on.
#[derive(Clone, Copy, PartialEq, Eq, Structural, Debug)]
pub enum ExistenceRequirement {
    /// The account must survive the transfer.
    KeepAlive,
    /// The account may cease to exist.
    AllowDeath,
}

/// What the caller has to carry out, in order, after a call has been accepted.
#[derive(Clone, Copy, PartialEq, Eq, Debug)]
pub enum Effect {
    /// Put the lock `id` on `who`, or replace it.
    SetLock { id: LockIdentifier, who: AccountId, amount: Balance, reasons: WithdrawReasons },
    /// Take the lock `id` off `who`.
    RemoveLock { id: LockIdentifier, who: AccountId },
    /// Deposit an event.
    Deposit(Event),
}

} // verus!
