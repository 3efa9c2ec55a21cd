//! The storage of the pallet as a mathematical value, and what each call makes of it.

use crate::config::Config;
use crate::origin::Origin;
use crate::schedules::{merged, remaining, total_locked, VestingAction};
use crate::types::{
    AccountId, Balance, BlockNumber, CallError, Effect, Error, Event, ExistenceRequirement,
    Releases, WithdrawReasons, VESTING_ID,
};
use crate::vesting_info::VestingInfo;
use vstd::prelude::*;

verus! {

/// What the pallet stores.
#[verifier::ext_equal]
pub struct Storage {
    /// The schedules of each account that is vesting.
    pub vesting: Map<AccountId, Seq<VestingInfo>>,
    /// The version of the storage.
    pub storage_version: Releases,
}

/// What a call comes to: the new storage and what is to be carried out, or an error.
pub type Outcome = Result<(Storage, Seq<Effect>), CallError>;

/// A call that found `before` left `after` behind and answered `result`, as `outcome` says. A
/// refused call changes nothing.
pub open spec fn realizes(
    before: Storage,
    after: Storage,
    result: Result<Vec<Effect>, CallError>,
    outcome: Outcome,
) -> bool {
    match outcome {
        Ok((storage, effects)) => {
            &&& result matches Ok(carried_out) && carried_out@ == effects
            &&& after == storage
        },
        Err(error) => {
            &&& result == Err::<Vec<Effect>, CallError>(error)
            &&& after == before
        },
    }
}

impl Storage {
    /// Every account that is vesting has at least one schedule and no more than the limit.
    pub open spec fn wf<T: Config>(self) -> bool {
        forall|who: AccountId| #[trigger]
            self.vesting.contains_key(who) ==> 0 < self.vesting[who].len()
                <= T::max_vesting_schedules_spec()
    }

    /// The schedules of `who`, none when it is not vesting.
    pub open spec fn schedules(self, who: AccountId) -> Seq<VestingInfo> {
        if self.vesting.contains_key(who) {
            self.vesting[who]
        } else {
            Seq::empty()
        }
    }

    /// Whether `who` may get another schedule.
    pub open spec fn has_room<T: Config>(self, who: AccountId) -> bool {
        self.schedules(who).len() < T::max_vesting_schedules_spec()
    }

    /// The storage with `schedules` for `who`, which is not vesting if there are none.
    pub open spec fn with_schedules(self, who: AccountId, schedules: Seq<VestingInfo>) -> Self {
        Storage {
            vesting: if schedules.len() == 0 {
                self.vesting.remove(who)
            } else {
                self.vesting.insert(who, schedules)
            },
            ..self
        }
    }
}

/// The withdrawals that a vesting lock holds back: transfers and reservations, not fees.
pub open spec fn vesting_reasons() -> WithdrawReasons {
    WithdrawReasons {
        transaction_payment: false,
        transfer: true,
        reserve: true,
        fee: false,
        tip: false,
    }
}

/// The vesting lock of `amount` on `who`.
pub open spec fn vesting_lock(who: AccountId, amount: Balance) -> Effect {
    Effect::SetLock { id: VESTING_ID, who, amount, reasons: vesting_reasons() }
}

/// How the lock on `who` is brought to `locked`, and reported.
pub open spec fn lock_effects(who: AccountId, locked: Balance) -> Seq<Effect> {
    if locked == 0 {
        seq![
            Effect::RemoveLock { id: VESTING_ID, who },
            Effect::Deposit(Event::VestingCompleted(who)),
        ]
    } else {
        seq![vesting_lock(who, locked), Effect::Deposit(Event::VestingUpdated(who, locked))]
    }
}

/// `who` is left with `schedules`, and its lock follows.
pub open spec fn updated<T: Config>(
    storage: Storage,
    who: AccountId,
    schedules: Seq<VestingInfo>,
    now: BlockNumber,
) -> (Storage, Seq<Effect>) {
    (
        storage.with_schedules(who, schedules),
        lock_effects(who, total_locked::<T>(schedules, now)),
    )
}

/// `do_vest`: what has vested is unlocked.
pub open spec fn vested<T: Config>(storage: Storage, who: AccountId, now: BlockNumber) -> Outcome {
    if !storage.vesting.contains_key(who) {
        Err(CallError::Module(Error::NotVesting))
    } else {
        Ok(
            updated::<T>(
                storage,
                who,
                remaining::<T>(storage.vesting[who], VestingAction::Passive, now),
                now,
            ),
        )
    }
}

/// `add_vesting_schedule`: one more schedule, and what has vested is unlocked.
pub open spec fn added<T: Config>(
    storage: Storage,
    who: AccountId,
    schedule: VestingInfo,
    now: BlockNumber,
) -> Outcome {
    if schedule.locked == 0 {
        Ok((storage, Seq::empty()))
    } else if !storage.has_room::<T>(who) {
        Err(CallError::Module(Error::AtMaxVestingSchedules))
    } else {
        Ok(
            updated::<T>(
                storage,
                who,
                remaining::<T>(
                    storage.schedules(who).push(schedule),
                    VestingAction::Passive,
                    now,
                ),
                now,
            ),
        )
    }
}

/// `remove_vesting_schedule`: one schedule less, and what has vested is unlocked.
pub open spec fn removed<T: Config>(
    storage: Storage,
    who: AccountId,
    schedule_index: u32,
    now: BlockNumber,
) -> Outcome {
    if !storage.vesting.contains_key(who) {
        Err(CallError::Module(Error::NotVesting))
    } else {
        Ok(
            updated::<T>(
                storage,
                who,
                remaining::<T>(
                    storage.vesting[who],
                    VestingAction::Remove(schedule_index as usize),
                    now,
                ),
                now,
            ),
        )
    }
}

/// The schedules after two of them have been replaced by `new_schedule`.
pub open spec fn schedules_after_merge<T: Config>(
    schedules: Seq<VestingInfo>,
    index1: u32,
    index2: u32,
    new_schedule: Option<VestingInfo>,
    now: BlockNumber,
) -> Seq<VestingInfo> {
    let rest = remaining::<T>(
        schedules,
        VestingAction::Merge(index1 as usize, index2 as usize),
        now,
    );
    match new_schedule {
        Some(schedule) => rest.push(schedule),
        None => rest,
    }
}

/// The report of a merger.
pub open spec fn merge_report(new_schedule: Option<VestingInfo>) -> Seq<Effect> {
    match new_schedule {
        Some(schedule) => seq![
            Effect::Deposit(
                Event::MergedScheduleAdded(
                    schedule.locked,
                    schedule.per_block,
                    schedule.starting_block,
                ),
            ),
        ],
        None => Seq::empty(),
    }
}

/// `merge_schedules` by the account `who`.
pub open spec fn schedules_merged<T: Config>(
    storage: Storage,
    who: AccountId,
    index1: u32,
    index2: u32,
    now: BlockNumber,
) -> Outcome {
    if index1 == index2 {
        Ok((storage, Seq::empty()))
    } else if !storage.vesting.contains_key(who) {
        Err(CallError::Module(Error::NotVesting))
    } else {
        let schedules = storage.vesting[who];
        if index1 >= schedules.len() || index2 >= schedules.len() {
            Err(CallError::Module(Error::ScheduleIndexOutOfBounds))
        } else {
            match merged::<T>(now, schedules[index1 as int], schedules[index2 as int]) {
                Err(error) => Err(error),
                Ok(new_schedule) => {
                    let (storage_after, effects) = updated::<T>(
                        storage,
                        who,
                        schedules_after_merge::<T>(schedules, index1, index2, new_schedule, now),
                        now,
                    );
                    Ok((storage_after, merge_report(new_schedule) + effects))
                },
            }
        }
    }
}

/// A vested transfer that has passed every check and waits for the currency.
#[derive(Clone, Copy, PartialEq, Eq, Structural, Debug)]
pub struct PendingTransfer {
    /// The account whose funds are transferred.
    pub source: AccountId,
    /// The account receiving the vested funds.
    pub target: AccountId,
    /// The vesting schedule attached to the transfer; its locked amount is what is transferred.
    pub schedule: VestingInfo,
}

impl PendingTransfer {
    /// What the currency is asked to transfer.
    pub open spec fn request(self) -> (AccountId, AccountId, Balance, ExistenceRequirement) {
        (self.source, self.target, self.schedule.locked, ExistenceRequirement::AllowDeath)
    }
}

/// The checks of a vested transfer before the currency is asked. `source` and `target` are the
/// accounts that the addresses lead to.
pub open spec fn planned_transfer<T: Config>(
    storage: Storage,
    source: Option<AccountId>,
    target: Option<AccountId>,
    schedule: VestingInfo,
) -> Result<PendingTransfer, CallError> {
    if schedule.locked < T::min_vested_transfer_spec() {
        Err(CallError::Module(Error::AmountLow))
    } else {
        match (schedule.validity::<T>(), target, source) {
            (Err(error), _, _) => Err(CallError::Module(error)),
            (Ok(_), Some(target), Some(source)) => {
                if !storage.has_room::<T>(target) {
                    Err(CallError::Module(Error::AtMaxVestingSchedules))
                } else {
                    Ok(PendingTransfer { source, target, schedule: schedule.corrected() })
                }
            },
            _ => Err(CallError::CannotLookup),
        }
    }
}

/// A vested transfer after the currency has answered `paid`. Once the funds have moved, the
/// schedule is added and its creation is reported.
pub open spec fn settled<T: Config>(
    storage: Storage,
    pending: PendingTransfer,
    paid: Result<(), sp_runtime::DispatchError>,
    now: BlockNumber,
) -> Outcome {
    match paid {
        Err(error) => Err(CallError::Currency(error)),
        Ok(_) => match added::<T>(storage, pending.target, pending.schedule, now) {
            Err(error) => Err(error),
            Ok((storage_after, effects)) => Ok(
                (
                    storage_after,
                    effects.push(Effect::Deposit(Event::VestingCreated(pending.target))),
                ),
            ),
        },
    }
}

/// A vested transfer that was planned as `plan` says. If the plan stands, the currency was asked
/// for it, and what it answered settles the transfer.
pub open spec fn transferred<
    T: Config,
    F: FnOnce(AccountId, AccountId, Balance, ExistenceRequirement) -> Result<
        (),
        sp_runtime::DispatchError,
    >,
>(
    before: Storage,
    after: Storage,
    result: Result<Vec<Effect>, CallError>,
    plan: Result<PendingTransfer, CallError>,
    now: BlockNumber,
    transfer: F,
) -> bool {
    match plan {
        Err(error) => realizes(before, after, result, Err(error)),
        Ok(pending) => exists|paid: Result<(), sp_runtime::DispatchError>| #[trigger]
            transfer.ensures(pending.request(), paid) && realizes(
                before,
                after,
                result,
                settled::<T>(before, pending, paid, now),
            ),
    }
}

/// The account that signed a call, if one did.
pub open spec fn signer(origin: Origin) -> Option<AccountId> {
    match origin {
        Origin::Signed(who) => Some(who),
        _ => None,
    }
}

/// What to do when the runtime has been upgraded.
#[derive(Clone, Copy, PartialEq, Eq, Structural, Debug)]
pub enum UpgradeAction {
    /// The storage is of an old version: migrate it.
    Migrate,
    /// The storage is up to date: nothing but its version was read.
    ReadVersion,
}

/// `on_runtime_upgrade`: the storage is of the latest version, and an older one is to be migrated.
pub open spec fn upgraded(storage: Storage) -> (UpgradeAction, Storage) {
    (
        if storage.storage_version == Releases::V0 {
            UpgradeAction::Migrate
        } else {
            UpgradeAction::ReadVersion
        },
        Storage { storage_version: Releases::V1, ..storage },
    )
}

} // verus!
