//! The vesting that is in place from the first block on.

use crate::bounded;
use crate::config::Config;
use crate::pallet::Pallet;
use crate::schedules::{lemma_amounts_are_not_negative, sum_amounts};
use crate::storage::{vesting_lock, Storage};
use crate::types::{AccountId, Balance, BlockNumber, Effect, Error, Releases, VESTING_ID};
use crate::vesting_info::{clamp, VestingInfo};
use vstd::prelude::*;

verus! {

/// The initial vesting of an account:
/// * who - Account which we are generating vesting configuration for
/// * begin - Block when the account will start to vest
/// * length - Number of blocks from `begin` until fully vested; what does not divide evenly over
///   them vests after that
/// * liquid - Number of units which can be spent before vesting begins
pub type GenesisEntry = (AccountId, BlockNumber, BlockNumber, Balance);

/// Why a genesis configuration cannot be built.
#[derive(Clone, Copy, PartialEq, Eq, Structural, Debug)]
pub enum GenesisError {
    /// An account has no funds: currencies must be initialised before vesting.
    CurrencyNotInitialised,
    /// The parameters of a schedule are invalid.
    InvalidParams(Error),
    /// An account has too many vesting schedules.
    TooManySchedules,
}

/// The initial vesting of all accounts.
pub struct GenesisConfig {
    pub vesting: Vec<GenesisEntry>,
}

impl Default for GenesisConfig {
    fn default() -> (config: Self)
        ensures
            config.vesting@.len() == 0,
    {
        GenesisConfig { vesting: Vec::new() }
    }
}

/// The schedule of an entry for an account that owns `balance`: all but the liquid funds are
/// locked and spread evenly over the length, which counts as at least one block.
pub open spec fn genesis_info<T: Config>(entry: GenesisEntry, balance: Balance) -> VestingInfo {
    let locked = if balance > entry.3 {
        (balance - entry.3) as Balance
    } else {
        0
    };
    let length = T::block_number_to_balance_spec(entry.2);
    VestingInfo {
        locked,
        per_block: if length == 0 {
            locked
        } else {
            locked / length
        },
        starting_block: entry.1,
    }
}

/// The storage and the locks once the entries have been built in their order, each for an account
/// that owns the balance of the same index; or the error of the first entry that cannot be built.
/// An entry brings the lock of its account to all that the account's schedules lock so far.
pub open spec fn genesis<T: Config>(entries: Seq<GenesisEntry>, balances: Seq<Balance>) -> Result<
    (Storage, Seq<Effect>),
    GenesisError,
>
    decreases entries.len(),
{
    if entries.len() == 0 {
        Ok(
            (
                Storage { vesting: Map::empty(), storage_version: Releases::V1 },
                Seq::empty(),
            ),
        )
    } else {
        match genesis::<T>(entries.drop_last(), balances) {
            Err(error) => Err(error),
            Ok((storage, effects)) => {
                let who = entries.last().0;
                let balance = balances[entries.len() - 1];
                let info = genesis_info::<T>(entries.last(), balance);
                if balance == 0 {
                    Err(GenesisError::CurrencyNotInitialised)
                } else if info.validity::<T>() is Err {
                    Err(GenesisError::InvalidParams(info.validity::<T>()->Err_0))
                } else if !storage.has_room::<T>(who) {
                    Err(GenesisError::TooManySchedules)
                } else {
                    let schedules = storage.schedules(who).push(info);
                    Ok(
                        (
                            storage.with_schedules(who, schedules),
                            effects.push(vesting_lock(who, clamp(sum_amounts(schedules)))),
                        ),
                    )
                }
            },
        }
    }
}

/// An error stays, whatever entries follow.
proof fn lemma_first_error_stays<T: Config>(
    entries: Seq<GenesisEntry>,
    balances: Seq<Balance>,
    built: int,
)
    requires
        0 <= built <= entries.len(),
        genesis::<T>(entries.take(built), balances) is Err,
    ensures
        genesis::<T>(entries, balances) == genesis::<T>(entries.take(built), balances),
    decreases entries.len() - built,
{
    if built == entries.len() {
        assert(entries.take(built) =~= entries);
    } else {
        assert(entries.take(built + 1).drop_last() =~= entries.take(built));
        lemma_first_error_stays::<T>(entries, balances, built + 1);
    }
}

/// What the schedules lock before any of it has vested, as far as a balance can hold it.
fn total_amount(schedules: &Vec<VestingInfo>) -> (total: Balance)
    ensures
        total == clamp(sum_amounts(schedules@)),
{
    let mut total: Balance = 0;
    let mut index: usize = 0;
    assert(schedules@.take(0) =~= Seq::<VestingInfo>::empty());
    while index < schedules.len()
        invariant
            index <= schedules@.len(),
            total == clamp(sum_amounts(schedules@.take(index as int))),
        decreases schedules@.len() - index,
    {
        proof {
            lemma_amounts_are_not_negative(schedules@.take(index as int));
            assert(schedules@.take(index + 1).drop_last() =~= schedules@.take(index as int));
        }
        total = total.saturating_add(schedules[index].locked());
        index += 1;
    }
    assert(schedules@.take(index as int) =~= schedules@);
    total
}

impl GenesisConfig {
    /// Generate the initial vesting configuration. `free_balances` holds, for each entry, what its
    /// account owns.
    pub fn build<T: Config>(&self, free_balances: &Vec<Balance>) -> (result: Result<
        (Pallet<T>, Vec<Effect>),
        GenesisError,
    >)
        requires
            free_balances@.len() == self.vesting@.len(),
        ensures
            match genesis::<T>(self.vesting@, free_balances@) {
                Err(error) => result == Err::<(Pallet<T>, Vec<Effect>), GenesisError>(error),
                Ok((storage, effects)) => {
                    &&& result matches Ok((pallet, carried_out))
                    &&& pallet.wf()
                    &&& pallet@ == storage
                    &&& carried_out@ == effects
                },
            },
    {
        let mut pallet: Pallet<T> = Pallet::new(Releases::V1);
        let mut effects: Vec<Effect> = Vec::new();
        let mut index: usize = 0;
        assert(self.vesting@.take(0) =~= Seq::<GenesisEntry>::empty());
        while index < self.vesting.len()
            invariant
                index <= self.vesting@.len(),
                free_balances@.len() == self.vesting@.len(),
                pallet.wf(),
                genesis::<T>(self.vesting@.take(index as int), free_balances@) == Ok::<
                    (Storage, Seq<Effect>),
                    GenesisError,
                >((pallet@, effects@)),
            decreases self.vesting@.len() - index,
        {
            let (who, begin, length, liquid) = self.vesting[index];
            let balance: Balance = free_balances[index];
            let ghost next = self.vesting@.take(index + 1);
            proof {
                assert(next.drop_last() =~= self.vesting@.take(index as int));
                if genesis::<T>(next, free_balances@) is Err {
                    lemma_first_error_stays::<T>(self.vesting@, free_balances@, index + 1);
                }
            }
            if balance == 0 {
                return Err(GenesisError::CurrencyNotInitialised);
            }
            // The total balance minus `liquid` equals the funds locked for vesting.
            let locked: Balance = balance.saturating_sub(liquid);
            let length_as_balance: Balance = T::block_number_to_balance(length);
            let per_block: Balance = if length_as_balance == 0 {
                locked
            } else {
                locked / length_as_balance
            };
            let vesting_info: VestingInfo = VestingInfo::new(locked, per_block, begin);
            match vesting_info.validate::<T>() {
                Ok(_) => {},
                Err(error) => return Err(GenesisError::InvalidParams(error)),
            }
            let schedules: Vec<VestingInfo> = match pallet.vesting(&who) {
                Some(schedules) => schedules,
                None => Vec::new(),
            };
            let schedules: Vec<VestingInfo> = match bounded::try_push::<T>(
                schedules,
                vesting_info,
            ) {
                Ok(schedules) => schedules,
                Err(_) => return Err(GenesisError::TooManySchedules),
            };
            // The lock covers every schedule of the account, not only the new one.
            let total: Balance = total_amount(&schedules);
            match pallet.write_vesting(&who, schedules) {
                Ok(_) => {},
                Err(_) => return Err(GenesisError::TooManySchedules),
            }
            effects.push(
                Effect::SetLock {
                    id: VESTING_ID,
                    who,
                    amount: total,
                    reasons: Pallet::<T>::lock_reasons(),
                },
            );
            index += 1;
        }
        assert(self.vesting@.take(index as int) =~= self.vesting@);
        Ok((pallet, effects))
    }
}

} // verus!
