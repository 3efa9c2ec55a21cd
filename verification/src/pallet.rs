//! The pallet: its storage and its calls.

use crate::bounded;
use crate::config::Config;
use crate::origin::{ensure_root, ensure_signed, Origin};
use crate::schedules::{
    lemma_remaining_is_not_longer, lemma_remaining_without_two, lemma_sum_of_push, total_locked,
    VestingAction,
};
use crate::storage::{
    added, lock_effects, merge_report, planned_transfer, realizes, removed, schedules_merged,
    settled, signer, transferred, upgraded, vested, vesting_reasons, PendingTransfer, Storage,
    UpgradeAction,
};
use crate::types::{
    AccountId, Balance, BlockNumber, CallError, Effect, Error, Event, ExistenceRequirement,
    Releases, WithdrawReasons, VESTING_ID,
};
use crate::vesting_info::VestingInfo;
use std::collections::HashMap;
use std::marker::PhantomData;
use vstd::prelude::*;

verus! {

/// The vesting pallet with its storage.
///
/// A call takes the current block as `now`. When it is accepted it returns what the caller has to
/// carry out on the currency and to report; when it is refused the storage stays as it was.
pub struct Pallet<T: Config> {
    /// Information regarding the vesting of a given account.
    vesting: HashMap<AccountId, Vec<VestingInfo>>,
    /// The version of the storage.
    storage_version: Releases,
    config: PhantomData<T>,
}

impl<T: Config> View for Pallet<T> {
    type V = Storage;

    closed spec fn view(&self) -> Storage {
        Storage {
            vesting: self.vesting@.map_values(|schedules: Vec<VestingInfo>| schedules@),
            storage_version: self.storage_version,
        }
    }
}

impl<T: Config> Pallet<T> {
    /// The invariant of the storage.
    pub open spec fn wf(&self) -> bool {
        self@.wf::<T>()
    }

    /// A storage of the given version in which no account is vesting.
    pub fn new(storage_version: Releases) -> (pallet: Self)
        ensures
            pallet.wf(),
            pallet@ == (Storage { vesting: Map::empty(), storage_version }),
    {
        let pallet = Pallet { vesting: HashMap::new(), storage_version, config: PhantomData };
        assert(pallet@.vesting =~= Map::<AccountId, Seq<VestingInfo>>::empty());
        pallet
    }

    /// The schedules of an account, if it is vesting.
    pub fn vesting(&self, who: &AccountId) -> (schedules: Option<Vec<VestingInfo>>)
        ensures
            schedules is Some <==> self@.vesting.contains_key(*who),
            schedules matches Some(schedules) ==> schedules@ == self@.vesting[*who],
    {
        match self.vesting.get(who) {
            Some(schedules) => Some(schedules.clone()),
            None => None,
        }
    }

    /// The version of the storage.
    pub fn storage_version(&self) -> (version: Releases)
        ensures
            version == self@.storage_version,
    {
        self.storage_version
    }

    /// Write an account's updated vesting schedules to storage.
    pub fn write_vesting(&mut self, who: &AccountId, schedules: Vec<VestingInfo>) -> (result:
        Result<(), CallError>)
        ensures
            old(self).wf() ==> final(self).wf(),
            result == (if schedules@.len() <= T::max_vesting_schedules_spec() {
                Ok(())
            } else {
                Err(CallError::Module(Error::AtMaxVestingSchedules))
            }),
            final(self)@ == (if schedules@.len() <= T::max_vesting_schedules_spec() {
                old(self)@.with_schedules(*who, schedules@)
            } else {
                old(self)@
            }),
    {
        match bounded::try_from::<T>(schedules) {
            Err(_) => Err(CallError::Module(Error::AtMaxVestingSchedules)),
            Ok(schedules) => {
                if schedules.len() == 0 {
                    self.vesting.remove(who);
                } else {
                    self.vesting.insert(*who, schedules);
                }
                assert(self@ =~= old(self)@.with_schedules(*who, schedules@));
                Ok(())
            },
        }
    }

    /// The withdrawals that a vesting lock holds back.
    pub(crate) fn lock_reasons() -> (reasons: WithdrawReasons)
        ensures
            reasons == vesting_reasons(),
    {
        WithdrawReasons {
            transaction_payment: false,
            transfer: true,
            reserve: true,
            fee: false,
            tip: false,
        }
    }

    /// Bring the vesting lock of an account to `total_locked_now`, and report it.
    pub fn write_lock(who: &AccountId, total_locked_now: Balance) -> (effects: Vec<Effect>)
        ensures
            effects@ == lock_effects(*who, total_locked_now),
    {
        let mut effects: Vec<Effect> = Vec::new();
        if total_locked_now == 0 {
            effects.push(Effect::RemoveLock { id: VESTING_ID, who: *who });
            effects.push(Effect::Deposit(Event::VestingCompleted(*who)));
        } else {
            effects.push(
                Effect::SetLock {
                    id: VESTING_ID,
                    who: *who,
                    amount: total_locked_now,
                    reasons: Self::lock_reasons(),
                },
            );
            effects.push(Effect::Deposit(Event::VestingUpdated(*who, total_locked_now)));
        }
        assert(effects@ =~= lock_effects(*who, total_locked_now));
        effects
    }

    /// Unlock any vested funds of `who`.
    pub fn do_vest(&mut self, who: AccountId, now: BlockNumber) -> (result: Result<
        Vec<Effect>,
        CallError,
    >)
        requires
            old(self).wf(),
        ensures
            final(self).wf(),
            realizes(old(self)@, final(self)@, result, vested::<T>(old(self)@, who, now)),
    {
        let schedules: Vec<VestingInfo> = match self.vesting(&who) {
            Some(schedules) => schedules,
            None => return Err(CallError::Module(Error::NotVesting)),
        };
        proof {
            lemma_remaining_is_not_longer::<T>(schedules@, VestingAction::Passive, now);
        }
        let (schedules, locked_now) = Self::report_schedule_updates(
            schedules,
            VestingAction::Passive,
            now,
        );
        match self.write_vesting(&who, schedules) {
            Ok(_) => Ok(Self::write_lock(&who, locked_now)),
            Err(error) => Err(error),
        }
    }

    /// Get the amount that is currently being vested and cannot be transferred out of this
    /// account, which has `free_balance`.
    pub fn vesting_balance(
        &self,
        who: &AccountId,
        free_balance: Balance,
        now: BlockNumber,
    ) -> (balance: Option<Balance>)
        ensures
            balance == (if !self@.vesting.contains_key(*who) {
                None
            } else {
                let locked = total_locked::<T>(self@.vesting[*who], now);
                Some(
                    if free_balance < locked {
                        free_balance
                    } else {
                        locked
                    },
                )
            }),
    {
        let schedules: Vec<VestingInfo> = match self.vesting(who) {
            Some(schedules) => schedules,
            None => return None,
        };
        let mut total_locked_now: Balance = 0;
        let mut index: usize = 0;
        assert(schedules@.take(0) =~= Seq::<VestingInfo>::empty());
        while index < schedules.len()
            invariant
                index <= schedules@.len(),
                total_locked_now == total_locked::<T>(schedules@.take(index as int), now),
            decreases schedules@.len() - index,
        {
            proof {
                let seen = schedules@.take(index as int);
                lemma_sum_of_push::<T>(seen, schedules@[index as int], now);
                assert(schedules@.take(index + 1) =~= seen.push(schedules@[index as int]));
            }
            total_locked_now =
            schedules[index].locked_at::<T>(now).saturating_add(total_locked_now);
            index += 1;
        }
        assert(schedules@.take(index as int) =~= schedules@);
        Some(
            if free_balance < total_locked_now {
                free_balance
            } else {
                total_locked_now
            },
        )
    }

    /// Adds a vesting schedule to a given account.
    ///
    /// If the account has the maximum number of schedules, an error is returned and nothing is
    /// updated.
    ///
    /// On success, a linearly reducing amount of funds will be locked. In order to realise any
    /// reduction of the lock over time as it diminishes, the account owner must use `vest` or
    /// `vest_other`.
    ///
    /// Is a no-op if the amount to be vested is zero. The parameters of the schedule are not
    /// validated here.
    pub fn add_vesting_schedule(
        &mut self,
        who: &AccountId,
        locked: Balance,
        per_block: Balance,
        starting_block: BlockNumber,
        now: BlockNumber,
    ) -> (result: Result<Vec<Effect>, CallError>)
        requires
            old(self).wf(),
        ensures
            final(self).wf(),
            realizes(
                old(self)@,
                final(self)@,
                result,
                added::<T>(
                    old(self)@,
                    *who,
                    (VestingInfo { locked, per_block, starting_block }),
                    now,
                ),
            ),
    {
        if locked == 0 {
            return Ok(Vec::new());
        }
        let vesting_schedule: VestingInfo = VestingInfo::new(locked, per_block, starting_block);
        let schedules: Vec<VestingInfo> = match self.vesting(who) {
            Some(schedules) => schedules,
            None => Vec::new(),
        };
        // The new schedule counts toward the new locked amount.
        let schedules: Vec<VestingInfo> = match bounded::try_push::<T>(
            schedules,
            vesting_schedule,
        ) {
            Ok(schedules) => schedules,
            Err(_) => return Err(CallError::Module(Error::AtMaxVestingSchedules)),
        };
        proof {
            lemma_remaining_is_not_longer::<T>(schedules@, VestingAction::Passive, now);
        }
        let (schedules, locked_now) = Self::report_schedule_updates(
            schedules,
            VestingAction::Passive,
            now,
        );
        match self.write_vesting(who, schedules) {
            Ok(_) => Ok(Self::write_lock(who, locked_now)),
            Err(error) => Err(error),
        }
    }

    /// Ensure we can call `add_vesting_schedule` without error. The parameters of the schedule do
    /// not matter.
    pub fn can_add_vesting_schedule(
        &self,
        who: &AccountId,
        _locked: Balance,
        _per_block: Balance,
        _starting_block: BlockNumber,
    ) -> (result: Result<(), CallError>)
        ensures
            result == (if self@.has_room::<T>(*who) {
                Ok(())
            } else {
                Err(CallError::Module(Error::AtMaxVestingSchedules))
            }),
    {
        let count: usize = match self.vesting.get(who) {
            Some(schedules) => schedules.len(),
            None => 0,
        };
        if count < T::max_vesting_schedules() as usize {
            Ok(())
        } else {
            Err(CallError::Module(Error::AtMaxVestingSchedules))
        }
    }

    /// Remove a vesting schedule for a given account. An index at which there is no schedule
    /// removes none.
    pub fn remove_vesting_schedule(
        &mut self,
        who: &AccountId,
        schedule_index: u32,
        now: BlockNumber,
    ) -> (result: Result<Vec<Effect>, CallError>)
        requires
            old(self).wf(),
        ensures
            final(self).wf(),
            realizes(
                old(self)@,
                final(self)@,
                result,
                removed::<T>(old(self)@, *who, schedule_index, now),
            ),
    {
        let remove_action: VestingAction = VestingAction::Remove(schedule_index as usize);
        let schedules: Vec<VestingInfo> = match self.vesting(who) {
            Some(schedules) => schedules,
            None => return Err(CallError::Module(Error::NotVesting)),
        };
        proof {
            lemma_remaining_is_not_longer::<T>(schedules@, remove_action, now);
        }
        let (schedules, locked_now) = Self::report_schedule_updates(schedules, remove_action, now);
        match self.write_vesting(who, schedules) {
            Ok(_) => Ok(Self::write_lock(who, locked_now)),
            Err(error) => Err(error),
        }
    }

    /// Unlock any vested funds of the sender account.
    ///
    /// The origin for this call must be _Signed_ and the sender must have funds still locked under
    /// this pallet.
    ///
    /// Emits either `VestingCompleted` or `VestingUpdated`.
    pub fn vest(&mut self, origin: Origin, now: BlockNumber) -> (result: Result<
        Vec<Effect>,
        CallError,
    >)
        requires
            old(self).wf(),
        ensures
            final(self).wf(),
            realizes(
                old(self)@,
                final(self)@,
                result,
                match signer(origin) {
                    Some(who) => vested::<T>(old(self)@, who, now),
                    None => Err(CallError::BadOrigin),
                },
            ),
    {
        match ensure_signed(origin) {
            Ok(who) => self.do_vest(who, now),
            Err(_) => Err(CallError::BadOrigin),
        }
    }

    /// Unlock any vested funds of a `target` account.
    ///
    /// The origin for this call must be _Signed_.
    ///
    /// - `target`: The account whose vested funds should be unlocked, if its address leads to one.
    ///   Must have funds still locked under this pallet.
    ///
    /// Emits either `VestingCompleted` or `VestingUpdated`.
    pub fn vest_other(
        &mut self,
        origin: Origin,
        target: Option<AccountId>,
        now: BlockNumber,
    ) -> (result: Result<Vec<Effect>, CallError>)
        requires
            old(self).wf(),
        ensures
            final(self).wf(),
            realizes(
                old(self)@,
                final(self)@,
                result,
                match (signer(origin), target) {
                    (None, _) => Err(CallError::BadOrigin),
                    (Some(_), None) => Err(CallError::CannotLookup),
                    (Some(_), Some(who)) => vested::<T>(old(self)@, who, now),
                },
            ),
    {
        match ensure_signed(origin) {
            Ok(_) => {},
            Err(_) => return Err(CallError::BadOrigin),
        }
        match target {
            Some(who) => self.do_vest(who, now),
            None => Err(CallError::CannotLookup),
        }
    }

    /// Merge two vesting schedules together, creating a new vesting schedule that unlocks over
    /// highest possible start and end blocks. If both schedules have already started the current
    /// block will be used as the schedule start; with the caveat that if one schedule is finished
    /// by the current block, the other will be treated as the new merged schedule, unmodified.
    ///
    /// NOTE: If `schedule1_index == schedule2_index` this is a no-op.
    /// NOTE: This will unlock all schedules through the current block prior to merging.
    /// NOTE: If both schedules have ended by the current block, no new schedule will be created
    /// and both will be removed.
    ///
    /// The origin for this call must be _Signed_.
    ///
    /// - `schedule1_index`: index of the first schedule to merge.
    /// - `schedule2_index`: index of the second schedule to merge.
    pub fn merge_schedules(
        &mut self,
        origin: Origin,
        schedule1_index: u32,
        schedule2_index: u32,
        now: BlockNumber,
    ) -> (result: Result<Vec<Effect>, CallError>)
        requires
            old(self).wf(),
        ensures
            final(self).wf(),
            realizes(
                old(self)@,
                final(self)@,
                result,
                match signer(origin) {
                    Some(who) => schedules_merged::<T>(
                        old(self)@,
                        who,
                        schedule1_index,
                        schedule2_index,
                        now,
                    ),
                    None => Err(CallError::BadOrigin),
                },
            ),
    {
        let who: AccountId = match ensure_signed(origin) {
            Ok(who) => who,
            Err(_) => return Err(CallError::BadOrigin),
        };
        if schedule1_index == schedule2_index {
            return Ok(Vec::new());
        }
        let index1: usize = schedule1_index as usize;
        let index2: usize = schedule2_index as usize;
        let schedules: Vec<VestingInfo> = match self.vesting(&who) {
            Some(schedules) => schedules,
            None => return Err(CallError::Module(Error::NotVesting)),
        };

        // The indexes count the schedules before any that end at this block are filtered out.
        if index1 >= schedules.len() || index2 >= schedules.len() {
            return Err(CallError::Module(Error::ScheduleIndexOutOfBounds));
        }
        let schedule1: VestingInfo = schedules[index1];
        let schedule2: VestingInfo = schedules[index2];
        let merge_action: VestingAction = VestingAction::Merge(index1, index2);

        // Two schedules are filtered out here, so that there is room for the merged one.
        proof {
            lemma_remaining_without_two::<T>(schedules@, index1, index2, now);
        }
        let (mut schedules, mut locked_now) = Self::report_schedule_updates(
            schedules,
            merge_action,
            now,
        );
        let mut effects: Vec<Effect> = Vec::new();
        match Self::merge_vesting_info(now, schedule1, schedule2) {
            Err(error) => return Err(error),
            Ok(Some(new_schedule)) => {
                proof {
                    lemma_sum_of_push::<T>(schedules@, new_schedule, now);
                }
                // Merging created a new schedule, which joins the schedules of the account and
                // counts toward the locked amount with what is left of it.
                schedules.push(new_schedule);
                let new_schedule_locked: Balance = new_schedule.locked_at::<T>(now);
                locked_now = locked_now.saturating_add(new_schedule_locked);
                effects.push(
                    Effect::Deposit(
                        Event::MergedScheduleAdded(
                            new_schedule.locked(),
                            new_schedule.per_block(),
                            new_schedule.starting_block(),
                        ),
                    ),
                );
                assert(effects@ =~= merge_report(Some(new_schedule)));
            },
            // There is no new schedule to account for.
            Ok(None) => {},
        }
        match self.write_vesting(&who, schedules) {
            Ok(_) => {},
            Err(error) => return Err(error),
        }
        let mut lock: Vec<Effect> = Self::write_lock(&who, locked_now);
        effects.append(&mut lock);
        Ok(effects)
    }

    /// The first half of a vested transfer: validate what is asked for and say what the currency
    /// has to transfer. `source` and `target` are the accounts that the addresses lead to.
    pub fn begin_vested_transfer(
        &self,
        source: Option<AccountId>,
        target: Option<AccountId>,
        schedule: VestingInfo,
    ) -> (result: Result<PendingTransfer, CallError>)
        ensures
            result == planned_transfer::<T>(self@, source, target, schedule),
    {
        if schedule.locked() < T::min_vested_transfer() {
            return Err(CallError::Module(Error::AmountLow));
        }
        match schedule.validate::<T>() {
            Ok(_) => {},
            Err(error) => return Err(CallError::Module(error)),
        }
        // Potentially correct `per_block` if it is greater than `locked`.
        let schedule: VestingInfo = schedule.correct();
        let target: AccountId = match target {
            Some(target) => target,
            None => return Err(CallError::CannotLookup),
        };
        let source: AccountId = match source {
            Some(source) => source,
            None => return Err(CallError::CannotLookup),
        };
        // Whether a schedule can be added must be known before any funds move. Its parameters are
        // ignored, so they are 0.
        match self.can_add_vesting_schedule(&target, 0, 0, 0) {
            Ok(_) => Ok(PendingTransfer { source, target, schedule }),
            Err(error) => Err(error),
        }
    }

    /// The second half of a vested transfer: attach the schedule once the currency has answered
    /// the transfer with `paid`.
    ///
    /// Emits `VestingCreated` after what `add_vesting_schedule` emits.
    pub fn finish_vested_transfer(
        &mut self,
        pending: PendingTransfer,
        paid: Result<(), sp_runtime::DispatchError>,
        now: BlockNumber,
    ) -> (result: Result<Vec<Effect>, CallError>)
        requires
            old(self).wf(),
            old(self)@.has_room::<T>(pending.target),
        ensures
            final(self).wf(),
            realizes(
                old(self)@,
                final(self)@,
                result,
                settled::<T>(old(self)@, pending, paid, now),
            ),
            result is Ok <==> paid is Ok,
    {
        match paid {
            Err(error) => return Err(CallError::Currency(error)),
            Ok(_) => {},
        }
        match self.add_vesting_schedule(
            &pending.target,
            pending.schedule.locked(),
            pending.schedule.per_block(),
            pending.schedule.starting_block(),
            now,
        ) {
            Ok(effects) => {
                let mut effects: Vec<Effect> = effects;
                effects.push(Effect::Deposit(Event::VestingCreated(pending.target)));
                Ok(effects)
            },
            Err(error) => Err(error),
        }
    }

    /// Execute a vested transfer from `source` to `target` with the given `schedule`. The funds
    /// are moved by `transfer`, which is called at most once, after every check has passed.
    ///
    /// Emits `VestingCreated` after what `add_vesting_schedule` emits.
    pub fn do_vested_transfer<
        F: FnOnce(AccountId, AccountId, Balance, ExistenceRequirement) -> Result<
            (),
            sp_runtime::DispatchError,
        >,
    >(
        &mut self,
        source: Option<AccountId>,
        target: Option<AccountId>,
        schedule: VestingInfo,
        now: BlockNumber,
        transfer: F,
    ) -> (result: Result<Vec<Effect>, CallError>)
        requires
            old(self).wf(),
            planned_transfer::<T>(old(self)@, source, target, schedule) matches Ok(pending)
                ==> transfer.requires(pending.request()),
        ensures
            final(self).wf(),
            transferred::<T, F>(
                old(self)@,
                final(self)@,
                result,
                planned_transfer::<T>(old(self)@, source, target, schedule),
                now,
                transfer,
            ),
    {
        let pending: PendingTransfer = match self.begin_vested_transfer(source, target, schedule) {
            Ok(pending) => pending,
            Err(error) => return Err(error),
        };
        let paid = transfer(
            pending.source,
            pending.target,
            pending.schedule.locked(),
            ExistenceRequirement::AllowDeath,
        );
        assert(transfer.ensures(pending.request(), paid));
        self.finish_vested_transfer(pending, paid, now)
    }

    /// Create a vested transfer.
    ///
    /// The origin for this call must be _Signed_; the funds are those of the account that the
    /// signer's own address leads to.
    ///
    /// - `target`: The account receiving the vested funds, if its address leads to one.
    /// - `schedule`: The vesting schedule attached to the transfer.
    /// - `lookup`: Turns the signer into its address and gives the account that this leads to.
    ///
    /// Emits `VestingCreated`.
    pub fn vested_transfer<
        L: FnOnce(AccountId) -> Option<AccountId>,
        F: FnOnce(AccountId, AccountId, Balance, ExistenceRequirement) -> Result<
            (),
            sp_runtime::DispatchError,
        >,
    >(
        &mut self,
        origin: Origin,
        target: Option<AccountId>,
        schedule: VestingInfo,
        now: BlockNumber,
        lookup: L,
        transfer: F,
    ) -> (result: Result<Vec<Effect>, CallError>)
        requires
            old(self).wf(),
            signer(origin) matches Some(transactor) ==> {
                &&& lookup.requires((transactor,))
                &&& forall|source: Option<AccountId>| #[trigger]
                    lookup.ensures((transactor,), source) ==> (planned_transfer::<T>(
                        old(self)@,
                        source,
                        target,
                        schedule,
                    ) matches Ok(pending) ==> transfer.requires(pending.request()))
            },
        ensures
            final(self).wf(),
            match signer(origin) {
                None => realizes(old(self)@, final(self)@, result, Err(CallError::BadOrigin)),
                Some(transactor) => exists|source: Option<AccountId>| #[trigger]
                    lookup.ensures((transactor,), source) && transferred::<T, F>(
                        old(self)@,
                        final(self)@,
                        result,
                        planned_transfer::<T>(old(self)@, source, target, schedule),
                        now,
                        transfer,
                    ),
            },
    {
        match ensure_signed(origin) {
            Ok(transactor) => {
                let source: Option<AccountId> = lookup(transactor);
                self.do_vested_transfer(source, target, schedule, now, transfer)
            },
            Err(_) => Err(CallError::BadOrigin),
        }
    }

    /// Force a vested transfer.
    ///
    /// The origin for this call must be _Root_.
    ///
    /// - `source`: The account whose funds should be transferred, if its address leads to one.
    /// - `target`: The account that should be transferred the vested funds, if its address leads
    ///   to one.
    /// - `schedule`: The vesting schedule attached to the transfer.
    ///
    /// Emits `VestingCreated`.
    pub fn force_vested_transfer<
        F: FnOnce(AccountId, AccountId, Balance, ExistenceRequirement) -> Result<
            (),
            sp_runtime::DispatchError,
        >,
    >(
        &mut self,
        origin: Origin,
        source: Option<AccountId>,
        target: Option<AccountId>,
        schedule: VestingInfo,
        now: BlockNumber,
        transfer: F,
    ) -> (result: Result<Vec<Effect>, CallError>)
        requires
            old(self).wf(),
            origin is Root ==> (planned_transfer::<T>(
                old(self)@,
                source,
                target,
                schedule,
            ) matches Ok(pending) ==> transfer.requires(pending.request())),
        ensures
            final(self).wf(),
            transferred::<T, F>(
                old(self)@,
                final(self)@,
                result,
                if origin is Root {
                    planned_transfer::<T>(old(self)@, source, target, schedule)
                } else {
                    Err(CallError::BadOrigin)
                },
                now,
                transfer,
            ),
    {
        match ensure_root(origin) {
            Ok(_) => self.do_vested_transfer(source, target, schedule, now, transfer),
            Err(_) => Err(CallError::BadOrigin),
        }
    }

    /// Bring the storage version up to date and say whether the storage has to be migrated.
    pub fn on_runtime_upgrade(&mut self) -> (action: UpgradeAction)
        ensures
            (action, final(self)@) == upgraded(old(self)@),
            old(self).wf() ==> final(self).wf(),
    {
        if self.storage_version == Releases::V0 {
            self.storage_version = Releases::V1;
            assert(self@.vesting =~= old(self)@.vesting);
            UpgradeAction::Migrate
        } else {
            UpgradeAction::ReadVersion
        }
    }

    /// Whether the parameters go together with a currency whose accounts hold at least
    /// `minimum_balance`: a vested transfer moves no less, and an account may have a schedule.
    pub fn integrity_test(minimum_balance: Balance) -> (sound: bool)
        ensures
            sound == (T::min_vested_transfer_spec() >= minimum_balance
                && T::max_vesting_schedules_spec() > 0),
    {
        T::min_vested_transfer() >= minimum_balance && T::max_vesting_schedules() > 0
    }
}

} // verus!
