//! Laws of what each call does to the schedules of an account, to its lock and to the reports.

use crate::config::Config;
use crate::laws::curve::{
    law_correction_keeps_the_curve, law_locked_and_unlocked_make_the_whole,
    law_schedules_that_end, law_valid_schedules_end,
};
use crate::laws::lists::{
    law_filtered_schedules_do_not_count, law_remaining_schedules_are_picked, stands_at,
};
use crate::origin::Origin;
use crate::schedules::{
    lemma_sum_is_not_negative, lemma_sum_of_push, merged, remaining, sum_locked, total_locked,
    VestingAction,
};
use crate::storage::{
    added, lock_effects, merge_report, planned_transfer, realizes, removed, schedules_after_merge,
    schedules_merged, settled, signer, transferred, vested, Outcome, PendingTransfer, Storage,
};
use crate::types::{
    AccountId, Balance, BlockNumber, CallError, Effect, Error, Event, ExistenceRequirement,
    WithdrawReasons, VESTING_ID,
};
use crate::vesting_info::VestingInfo;
use vstd::prelude::*;

verus! {

/// The schedules that are stored for `who`.
pub open spec fn list_of(storage: Storage, who: AccountId) -> Seq<VestingInfo> {
    if storage.vesting.contains_key(who) {
        storage.vesting[who]
    } else {
        Seq::empty()
    }
}

/// `after` is `before` with `list` stored for `who`, or nothing stored if the list is empty.
pub open spec fn leaves(
    before: Storage,
    after: Storage,
    who: AccountId,
    list: Seq<VestingInfo>,
) -> bool {
    &&& after.storage_version == before.storage_version
    &&& after.vesting.remove(who) == before.vesting.remove(who)
    &&& after.vesting.contains_key(who) <==> list.len() > 0
    &&& list.len() > 0 ==> after.vesting[who] == list
}

/// The effects take the lock off `who` and report that it is fully vested if nothing is locked;
/// otherwise they set the lock to `locked`, as far as a balance can hold it, against transfers and
/// reservations and not against fees, and report that amount.
pub open spec fn lock_becomes(effects: Seq<Effect>, who: AccountId, locked: int) -> bool {
    &&& effects.len() == 2
    &&& locked == 0 ==> effects[0] == (Effect::RemoveLock { id: VESTING_ID, who }) && effects[1]
        == Effect::Deposit(Event::VestingCompleted(who))
    &&& locked != 0 ==> {
        let amount = if locked <= Balance::MAX {
            locked as Balance
        } else {
            Balance::MAX
        };
        let reasons = WithdrawReasons {
            transaction_payment: false,
            transfer: true,
            reserve: true,
            fee: false,
            tip: false,
        };
        &&& effects[0] == Effect::SetLock { id: VESTING_ID, who, amount, reasons }
        &&& effects[1] == Effect::Deposit(Event::VestingUpdated(who, amount))
    }
}

/// The lock follows what the schedules lock together.
proof fn lemma_lock_becomes<T: Config>(
    who: AccountId,
    schedules: Seq<VestingInfo>,
    now: BlockNumber,
)
    ensures
        lock_becomes(
            lock_effects(who, total_locked::<T>(schedules, now)),
            who,
            sum_locked::<T>(schedules, now),
        ),
{
    lemma_sum_is_not_negative::<T>(schedules, now);
}

/// A passive action removes no schedule, and the others those at the indexes that they name.
pub proof fn law_actions(index1: usize, index2: usize, index: int)
    ensures
        !VestingAction::Passive.removes(index),
        VestingAction::Remove(index1).removes(index) <==> index == index1,
        VestingAction::Merge(index1, index2).removes(index) <==> index == index1 || index == index2,
{
}

/// Storing a list leaves it behind.
pub proof fn law_storing_leaves_the_list(
    storage: Storage,
    who: AccountId,
    list: Seq<VestingInfo>,
)
    ensures
        leaves(storage, storage.with_schedules(who, list), who, list),
        list_of(storage.with_schedules(who, list), who) == list,
        storage.schedules(who) == list_of(storage, who),
{
    let after = storage.with_schedules(who, list);
    assert(after.vesting.remove(who) =~= storage.vesting.remove(who));
    if list.len() == 0 {
        assert(list =~= Seq::empty());
    }
}

/// An account may get another schedule if and only if it has fewer than the limit; and a storage
/// is well-formed if and only if no account has more, or an empty list.
pub proof fn law_limit_on_schedules<T: Config>(storage: Storage, who: AccountId)
    ensures
        storage.has_room::<T>(who) <==> list_of(storage, who).len()
            < T::max_vesting_schedules_spec(),
        storage.wf::<T>() <==> forall|other: AccountId| #[trigger]
            storage.vesting.contains_key(other) ==> 1 <= storage.vesting[other].len()
                <= T::max_vesting_schedules_spec(),
{
}

/// Vesting leaves the account with its unfinished schedules, each as it was and in their order, and
/// brings its lock to what all of them locked before. It is refused if and only if the account is
/// not vesting. Returns where the schedules that are left stood.
pub proof fn law_vest<T: Config>(storage: Storage, who: AccountId, now: BlockNumber) -> (positions:
    Seq<int>)
    ensures
        match vested::<T>(storage, who, now) {
            Err(error) => !storage.vesting.contains_key(who) && error == CallError::Module(
                Error::NotVesting,
            ),
            Ok((after, effects)) => {
                let before = storage.vesting[who];
                let list = list_of(after, who);
                &&& storage.vesting.contains_key(who)
                &&& leaves(storage, after, who, list)
                &&& stands_at(list, before, positions)
                &&& forall|i: int|
                    0 <= i < before.len() ==> (#[trigger] positions.contains(i)
                        <==> before[i].locked_at_spec::<T>(now) > 0)
                &&& lock_becomes(effects, who, sum_locked::<T>(before, now))
            },
        },
{
    let before = list_of(storage, who);
    let kept = remaining::<T>(before, VestingAction::Passive, now);
    law_storing_leaves_the_list(storage, who, kept);
    lemma_lock_becomes::<T>(who, kept, now);
    law_filtered_schedules_do_not_count::<T>(before, VestingAction::Passive, now);
    law_remaining_schedules_are_picked::<T>(before, VestingAction::Passive, now)
}

/// Adding a schedule leaves the account with its unfinished schedules, each as it was, as often as
/// it occurred and in their order, followed by the new one if that still locks something. Its lock
/// is brought to what its schedules locked before and what the new one locks. It is refused if and
/// only if the account has as many schedules as it may have, and a no-op if there is nothing to
/// lock. Returns where the schedules that are left stood.
pub proof fn law_add<T: Config>(
    storage: Storage,
    who: AccountId,
    schedule: VestingInfo,
    now: BlockNumber,
) -> (positions: Seq<int>)
    ensures
        ({
            let before = list_of(storage, who);
            match added::<T>(storage, who, schedule, now) {
                Err(error) => {
                    &&& schedule.locked > 0
                    &&& before.len() >= T::max_vesting_schedules_spec()
                    &&& error == CallError::Module(Error::AtMaxVestingSchedules)
                },
                Ok((after, effects)) => if schedule.locked == 0 {
                    after == storage && effects.len() == 0
                } else {
                    let list = list_of(after, who);
                    let locked = schedule.locked_at_spec::<T>(now);
                    let old = if locked > 0 {
                        list.drop_last()
                    } else {
                        list
                    };
                    &&& before.len() < T::max_vesting_schedules_spec()
                    &&& leaves(storage, after, who, list)
                    &&& locked > 0 ==> list.len() > 0 && list.last() == schedule
                    &&& stands_at(old, before, positions)
                    &&& forall|i: int|
                        0 <= i < before.len() ==> (#[trigger] positions.contains(i)
                            <==> before[i].locked_at_spec::<T>(now) > 0)
                    &&& lock_becomes(effects, who, sum_locked::<T>(before, now) + locked)
                },
            }
        }),
{
    let before = list_of(storage, who);
    let all = before.push(schedule);
    let kept = remaining::<T>(all, VestingAction::Passive, now);
    let kept_before = remaining::<T>(before, VestingAction::Passive, now);
    assert(all.drop_last() =~= before);
    if schedule.locked_at_spec::<T>(now) > 0 {
        assert(kept.drop_last() =~= kept_before);
    }
    law_storing_leaves_the_list(storage, who, kept);
    lemma_lock_becomes::<T>(who, kept, now);
    law_filtered_schedules_do_not_count::<T>(all, VestingAction::Passive, now);
    lemma_sum_of_push::<T>(before, schedule, now);
    law_remaining_schedules_are_picked::<T>(before, VestingAction::Passive, now)
}

/// Removing a schedule leaves the account with its other unfinished schedules, each as it was and in
/// their order, and brings its lock to what all of them locked before less what the removed one
/// did. An index at which there is no schedule removes none. It is refused if and only if the
/// account is not vesting. Returns where the schedules that are left stood.
pub proof fn law_remove<T: Config>(
    storage: Storage,
    who: AccountId,
    schedule_index: u32,
    now: BlockNumber,
) -> (positions: Seq<int>)
    ensures
        match removed::<T>(storage, who, schedule_index, now) {
            Err(error) => !storage.vesting.contains_key(who) && error == CallError::Module(
                Error::NotVesting,
            ),
            Ok((after, effects)) => {
                let before = storage.vesting[who];
                let list = list_of(after, who);
                let dropped = if schedule_index < before.len() {
                    before[schedule_index as int].locked_at_spec::<T>(now)
                } else {
                    0
                };
                &&& storage.vesting.contains_key(who)
                &&& leaves(storage, after, who, list)
                &&& stands_at(list, before, positions)
                &&& forall|i: int|
                    0 <= i < before.len() ==> (#[trigger] positions.contains(i)
                        <==> before[i].locked_at_spec::<T>(now) > 0 && i != schedule_index)
                &&& lock_becomes(effects, who, sum_locked::<T>(before, now) - dropped)
            },
        },
{
    let before = list_of(storage, who);
    let action = VestingAction::Remove(schedule_index as usize);
    let kept = remaining::<T>(before, action, now);
    law_storing_leaves_the_list(storage, who, kept);
    lemma_lock_becomes::<T>(who, kept, now);
    law_filtered_schedules_do_not_count::<T>(before, action, now);
    law_remaining_schedules_are_picked::<T>(before, action, now)
}

/// Merging two schedules leaves the account with its other unfinished schedules, each as it was and
/// in their order, followed by the merged one if there is one, which is reported first. Its lock is
/// brought to what the others lock and what the merged one does. With one and the same index it is a
/// no-op; it is refused, in this order, if the account is not vesting, if there is no schedule at
/// one of the indexes, and if the two do not merge. Returns where the schedules that are left
/// stood.
pub proof fn law_merge<T: Config>(
    storage: Storage,
    who: AccountId,
    index1: u32,
    index2: u32,
    now: BlockNumber,
) -> (positions: Seq<int>)
    ensures
        ({
            let before = list_of(storage, who);
            let outcome = schedules_merged::<T>(storage, who, index1, index2, now);
            if index1 == index2 {
                outcome matches Ok((after, effects)) && after == storage && effects.len() == 0
            } else if !storage.vesting.contains_key(who) {
                outcome == Outcome::Err(CallError::Module(Error::NotVesting))
            } else if index1 >= before.len() || index2 >= before.len() {
                outcome == Outcome::Err(CallError::Module(Error::ScheduleIndexOutOfBounds))
            } else {
                let schedule1 = before[index1 as int];
                let schedule2 = before[index2 as int];
                match merged::<T>(now, schedule1, schedule2) {
                    Err(error) => outcome == Outcome::Err(error),
                    Ok(new_schedule) => {
                        let (after, effects) = outcome->Ok_0;
                        let list = list_of(after, who);
                        let others = sum_locked::<T>(before, now) - schedule1.locked_at_spec::<T>(
                            now,
                        ) - schedule2.locked_at_spec::<T>(now);
                        &&& outcome is Ok
                        &&& leaves(storage, after, who, list)
                        &&& forall|i: int|
                            0 <= i < before.len() ==> (#[trigger] positions.contains(i)
                                <==> before[i].locked_at_spec::<T>(now) > 0 && i != index1 && i
                                != index2)
                        &&& match new_schedule {
                            None => {
                                &&& stands_at(list, before, positions)
                                &&& lock_becomes(effects, who, others)
                            },
                            Some(info) => {
                                &&& list.len() > 0 && list.last() == info
                                &&& stands_at(list.drop_last(), before, positions)
                                &&& effects.len() == 3
                                &&& effects[0] == Effect::Deposit(
                                    Event::MergedScheduleAdded(
                                        info.locked,
                                        info.per_block,
                                        info.starting_block,
                                    ),
                                )
                                &&& lock_becomes(
                                    effects.drop_first(),
                                    who,
                                    others + info.locked_at_spec::<T>(now),
                                )
                            },
                        }
                    },
                }
            }
        }),
{
    let before = list_of(storage, who);
    let action = VestingAction::Merge(index1 as usize, index2 as usize);
    let rest = remaining::<T>(before, action, now);
    law_filtered_schedules_do_not_count::<T>(before, action, now);
    if index1 < before.len() && index2 < before.len() {
        if let Ok(new_schedule) = merged::<T>(now, before[index1 as int], before[index2 as int]) {
            let list = schedules_after_merge::<T>(before, index1, index2, new_schedule, now);
            let lock = lock_effects(who, total_locked::<T>(list, now));
            law_storing_leaves_the_list(storage, who, list);
            lemma_lock_becomes::<T>(who, list, now);
            match new_schedule {
                Some(info) => {
                    lemma_sum_of_push::<T>(rest, info, now);
                    assert(list.drop_last() =~= rest);
                    assert((merge_report(new_schedule) + lock).drop_first() =~= lock);
                },
                None => {
                    assert(merge_report(new_schedule) + lock =~= lock);
                },
            }
        }
    }
    law_remaining_schedules_are_picked::<T>(before, action, now)
}

/// When a vested transfer passes its checks, and what it will be. It is refused, in this order, if
/// it moves less than the minimum, if there is nothing to lock, if the schedule would never end, if
/// an address leads nowhere, and if the target has as many schedules as it may have. Otherwise the
/// currency is asked to move the locked amount from the source to the target, which may empty the
/// source; and the schedule to be attached has the locked amount and the starting block that were
/// asked for, and the rate that was asked for up to the locked amount, so that it locks at every
/// block what the schedule asked for does.
pub proof fn law_plan<T: Config>(
    storage: Storage,
    source: Option<AccountId>,
    target: Option<AccountId>,
    schedule: VestingInfo,
    n: BlockNumber,
)
    ensures
        ({
            let plan = planned_transfer::<T>(storage, source, target, schedule);
            let last = T::block_number_to_balance_spec(BlockNumber::MAX);
            if schedule.locked < T::min_vested_transfer_spec() {
                plan == Err::<PendingTransfer, CallError>(CallError::Module(Error::AmountLow))
            } else if schedule.locked == 0 {
                plan == Err::<PendingTransfer, CallError>(
                    CallError::Module(Error::InvalidScheduleParams),
                )
            } else if schedule.locked >= (last + 1) * schedule.per_block {
                plan == Err::<PendingTransfer, CallError>(
                    CallError::Module(Error::InfiniteSchedule),
                )
            } else if source is None || target is None {
                plan == Err::<PendingTransfer, CallError>(CallError::CannotLookup)
            } else if list_of(storage, target->0).len() >= T::max_vesting_schedules_spec() {
                plan == Err::<PendingTransfer, CallError>(
                    CallError::Module(Error::AtMaxVestingSchedules),
                )
            } else {
                plan matches Ok(pending) && {
                    &&& pending.source == source->0
                    &&& pending.target == target->0
                    &&& pending.schedule.locked == schedule.locked
                    &&& pending.schedule.starting_block == schedule.starting_block
                    &&& schedule.per_block <= schedule.locked ==> pending.schedule.per_block
                        == schedule.per_block
                    &&& schedule.per_block >= schedule.locked ==> pending.schedule.per_block
                        == schedule.locked
                    &&& pending.schedule.locked_at_spec::<T>(n) == schedule.locked_at_spec::<T>(n)
                    &&& T::block_number_to_balance_spec(0) == 0 && n <= schedule.starting_block
                        ==> pending.schedule.locked_at_spec::<T>(n) == schedule.locked
                    &&& pending.request() == (
                        source->0,
                        target->0,
                        schedule.locked,
                        ExistenceRequirement::AllowDeath,
                    )
                }
            }
        }),
{
    law_valid_schedules_end::<T>(schedule);
    law_schedules_that_end::<T>(schedule);
    law_correction_keeps_the_curve::<T>(schedule, n);
    law_limit_on_schedules::<T>(storage, if target is Some { target->0 } else { 0 });
    if n <= schedule.starting_block {
        law_locked_and_unlocked_make_the_whole::<T>(schedule, n, 0);
        assert(0 * schedule.per_block == 0) by (nonlinear_arith);
    }
}

/// A vested transfer that the currency carries out leaves the target with its unfinished schedules,
/// each as it was and in their order, followed by the schedule asked for, with its rate up to its
/// locked amount, if that still locks something. The lock of the target is brought to what its
/// schedules locked before and what the schedule asked for locks, and then the creation of the
/// schedule is reported. One that the currency refuses is refused with its error. Returns where the
/// schedules that are left stood.
pub proof fn law_transfer<T: Config>(
    storage: Storage,
    source: Option<AccountId>,
    target: Option<AccountId>,
    schedule: VestingInfo,
    paid: Result<(), sp_runtime::DispatchError>,
    now: BlockNumber,
) -> (positions: Seq<int>)
    requires
        planned_transfer::<T>(storage, source, target, schedule) is Ok,
    ensures
        ({
            let pending = planned_transfer::<T>(storage, source, target, schedule)->Ok_0;
            let outcome = settled::<T>(storage, pending, paid, now);
            match paid {
                Err(error) => outcome == Outcome::Err(CallError::Currency(error)),
                Ok(_) => {
                    let who = target->0;
                    let before = list_of(storage, who);
                    let (after, effects) = outcome->Ok_0;
                    let list = list_of(after, who);
                    let locked = schedule.locked_at_spec::<T>(now);
                    let old = if locked > 0 {
                        list.drop_last()
                    } else {
                        list
                    };
                    &&& outcome is Ok
                    &&& leaves(storage, after, who, list)
                    &&& locked > 0 ==> {
                        &&& list.len() > 0
                        &&& list.last().locked == schedule.locked
                        &&& list.last().starting_block == schedule.starting_block
                        &&& list.last().per_block == if schedule.per_block <= schedule.locked {
                            schedule.per_block
                        } else {
                            schedule.locked
                        }
                    }
                    &&& stands_at(old, before, positions)
                    &&& forall|i: int|
                        0 <= i < before.len() ==> (#[trigger] positions.contains(i)
                            <==> before[i].locked_at_spec::<T>(now) > 0)
                    &&& effects.len() == 3
                    &&& lock_becomes(
                        effects.drop_last(),
                        who,
                        sum_locked::<T>(before, now) + locked,
                    )
                    &&& effects.last() == Effect::Deposit(Event::VestingCreated(who))
                },
            }
        }),
{
    let pending = planned_transfer::<T>(storage, source, target, schedule)->Ok_0;
    law_plan::<T>(storage, source, target, schedule, now);
    let positions = law_add::<T>(storage, pending.target, pending.schedule, now);
    if paid is Ok {
        let effects = added::<T>(storage, pending.target, pending.schedule, now)->Ok_0.1;
        let report = Effect::Deposit(Event::VestingCreated(pending.target));
        assert(effects.push(report).drop_last() =~= effects);
    }
    positions
}

/// A settled transfer is an added schedule with one more report, whatever the transfer was.
pub proof fn law_settling_is_adding<T: Config>(
    storage: Storage,
    pending: PendingTransfer,
    paid: Result<(), sp_runtime::DispatchError>,
    now: BlockNumber,
)
    ensures
        match (paid, added::<T>(storage, pending.target, pending.schedule, now)) {
            (Err(error), _) => settled::<T>(storage, pending, paid, now) == Outcome::Err(
                CallError::Currency(error),
            ),
            (Ok(_), Err(error)) => settled::<T>(storage, pending, paid, now) == Outcome::Err(error),
            (Ok(_), Ok((after, effects))) => settled::<T>(storage, pending, paid, now) matches Ok((
                settled_after,
                settled_effects,
            )) && settled_after == after && settled_effects == effects + seq![
                Effect::Deposit(Event::VestingCreated(pending.target)),
            ],
        },
{
    if let Ok((_, effects)) = added::<T>(storage, pending.target, pending.schedule, now) {
        let report = Effect::Deposit(Event::VestingCreated(pending.target));
        assert(effects.push(report) =~= effects + seq![report]);
    }
}

/// A call answers with the error of its outcome and leaves everything as it was, or answers with
/// the effects of its outcome and leaves its storage.
pub proof fn law_calls_do_as_their_outcome_says(
    before: Storage,
    after: Storage,
    result: Result<Vec<Effect>, CallError>,
    outcome: Outcome,
)
    requires
        realizes(before, after, result, outcome),
    ensures
        result is Ok <==> outcome is Ok,
        outcome matches Err(error) ==> (result matches Err(answer) && answer == error && after
            == before),
        outcome matches Ok((storage, effects)) ==> (result matches Ok(carried_out)
            && carried_out@ == effects && after == storage),
{
}

/// A transfer that was not planned is refused with the error of the plan and changes nothing. One
/// that was has asked the currency to move the locked amount from source to target, and did what
/// the answer settles.
pub proof fn law_transfers_do_as_planned<
    T: Config,
    F: FnOnce(AccountId, AccountId, Balance, ExistenceRequirement) -> Result<
        (),
        sp_runtime::DispatchError,
    >,
>(
    before: Storage,
    after: Storage,
    result: Result<Vec<Effect>, CallError>,
    plan: Result<PendingTransfer, CallError>,
    now: BlockNumber,
    transfer: F,
)
    requires
        transferred::<T, F>(before, after, result, plan, now, transfer),
    ensures
        plan matches Err(error) ==> (result matches Err(answer) && answer == error && after
            == before),
        plan matches Ok(pending) ==> exists|paid: Result<(), sp_runtime::DispatchError>| #[trigger]
            transfer.ensures(
                (
                    pending.source,
                    pending.target,
                    pending.schedule.locked,
                    ExistenceRequirement::AllowDeath,
                ),
                paid,
            ) && match settled::<T>(before, pending, paid, now) {
                Err(error) => result matches Err(answer) && answer == error && after == before,
                Ok((storage, effects)) => result matches Ok(carried_out) && carried_out@ == effects
                    && after == storage,
            },
{
}

/// The signer of a call is the account that signed it, and nobody if none did.
pub proof fn law_signer(origin: Origin, who: AccountId)
    ensures
        signer(origin) == Some(who) <==> origin == Origin::Signed(who),
        signer(Origin::Root) is None,
        signer(Origin::Unsigned) is None,
{
}

} // verus!
