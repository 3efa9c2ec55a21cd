//! Laws of the calls: what they do to the storage and to the locks.

use crate::config::{converts_in_order, Config};
use crate::laws::lists::{
    law_filtering_once_is_enough, law_locked_if_and_only_if_schedules,
    law_remaining_schedules_are_the_unfinished, law_total_never_grows,
    law_vesting_keeps_the_total,
};
use crate::laws::mergers::law_merging_keeps_the_total;
use crate::schedules::{merged, remaining, total_locked, VestingAction};
use crate::storage::{
    added, lock_effects, merge_report, planned_transfer, removed, schedules_after_merge,
    schedules_merged, settled, updated, vested, Storage,
};
use crate::types::{AccountId, Balance, BlockNumber, CallError, Effect, Error, Event, VESTING_ID};
use crate::vesting_info::VestingInfo;
use vstd::prelude::*;

verus! {

/// The vesting locks of all accounts, as they are once an effect has been carried out.
pub open spec fn apply_effect(
    locks: Map<AccountId, Balance>,
    effect: Effect,
) -> Map<AccountId, Balance> {
    match effect {
        Effect::SetLock { id, who, amount, .. } => if id == VESTING_ID {
            locks.insert(who, amount)
        } else {
            locks
        },
        Effect::RemoveLock { id, who } => if id == VESTING_ID {
            locks.remove(who)
        } else {
            locks
        },
        Effect::Deposit(_) => locks,
    }
}

/// The vesting locks once all effects have been carried out in their order.
pub open spec fn apply_effects(
    locks: Map<AccountId, Balance>,
    effects: Seq<Effect>,
) -> Map<AccountId, Balance>
    decreases effects.len(),
{
    if effects.len() == 0 {
        locks
    } else {
        apply_effect(apply_effects(locks, effects.drop_last()), effects.last())
    }
}

/// The amount of the vesting lock on `who`, nothing if there is none.
pub open spec fn lock_on(locks: Map<AccountId, Balance>, who: AccountId) -> Balance {
    if locks.contains_key(who) {
        locks[who]
    } else {
        0
    }
}

/// On every account there is a lock of at least what is unvested at block `now`.
pub open spec fn covered<T: Config>(
    storage: Storage,
    locks: Map<AccountId, Balance>,
    now: BlockNumber,
) -> bool {
    forall|who: AccountId|
        total_locked::<T>(#[trigger] storage.schedules(who), now) <= lock_on(locks, who)
}

/// Every schedule has something to lock.
pub open spec fn positive(storage: Storage) -> bool {
    forall|who: AccountId, i: int|
        storage.vesting.contains_key(who) && 0 <= i < storage.vesting[who].len()
            ==> (#[trigger] storage.vesting[who][i]).locked > 0
}

/// Nothing but what concerns `who` is different.
pub open spec fn touches_only(
    storage: Storage,
    after: Storage,
    effects: Seq<Effect>,
    locks: Map<AccountId, Balance>,
    who: AccountId,
) -> bool {
    &&& after.storage_version == storage.storage_version
    &&& forall|other: AccountId|
        #![trigger after.vesting.contains_key(other)]
        #![trigger lock_on(apply_effects(locks, effects), other)]
        other != who ==> {
            &&& after.vesting.contains_key(other) == storage.vesting.contains_key(other)
            &&& after.schedules(other) == storage.schedules(other)
            &&& lock_on(apply_effects(locks, effects), other) == lock_on(locks, other)
        }
}

/// What a call leaves behind where it was accepted and changed the schedules of `who`: only what
/// concerns `who` has changed, its lock is exactly what is unvested, and every account is covered
/// if every account was.
pub open spec fn lock_follows<T: Config>(
    storage: Storage,
    after: Storage,
    effects: Seq<Effect>,
    locks: Map<AccountId, Balance>,
    who: AccountId,
    now: BlockNumber,
) -> bool {
    &&& touches_only(storage, after, effects, locks, who)
    &&& lock_on(apply_effects(locks, effects), who) == total_locked::<T>(after.schedules(who), now)
    &&& covered::<T>(storage, locks, now) ==> covered::<T>(
        after,
        apply_effects(locks, effects),
        now,
    )
}

/// The effects of a lock update, one after the other.
proof fn lemma_lock_effects(
    locks: Map<AccountId, Balance>,
    report: Seq<Effect>,
    who: AccountId,
    locked: Balance,
)
    requires
        report.len() <= 1,
        report.len() == 1 ==> report[0] is Deposit,
    ensures
        apply_effects(locks, report + lock_effects(who, locked)) == (if locked == 0 {
            locks.remove(who)
        } else {
            locks.insert(who, locked)
        }),
{
    let effects = report + lock_effects(who, locked);
    let first = report + seq![lock_effects(who, locked)[0]];
    assert(effects.drop_last() =~= first);
    assert(first.drop_last() =~= report);
    assert(effects.last() == lock_effects(who, locked)[1]);
    assert(first.last() == lock_effects(who, locked)[0]);
    assert(apply_effects(locks, report) == locks) by {
        if report.len() == 1 {
            assert(report.drop_last().len() == 0);
            assert(apply_effects(locks, report.drop_last()) == locks);
        }
    }
    assert(apply_effects(locks, first) == apply_effect(locks, first.last()));
}

/// Depositing one more event does nothing to the locks.
pub proof fn lemma_reports_leave_locks_alone(
    locks: Map<AccountId, Balance>,
    effects: Seq<Effect>,
    event: Event,
)
    ensures
        apply_effects(locks, effects.push(Effect::Deposit(event))) == apply_effects(locks, effects),
{
    assert(effects.push(Effect::Deposit(event)).drop_last() =~= effects);
}

/// An update of one account's schedules brings its lock along.
proof fn lemma_updates_keep_cover<T: Config>(
    storage: Storage,
    locks: Map<AccountId, Balance>,
    who: AccountId,
    schedules: Seq<VestingInfo>,
    report: Seq<Effect>,
    now: BlockNumber,
)
    requires
        report.len() <= 1,
        report.len() == 1 ==> report[0] is Deposit,
    ensures
        ({
            let (after, effects) = updated::<T>(storage, who, schedules, now);
            lock_follows::<T>(storage, after, report + effects, locks, who, now)
        }),
{
    let (after, effects) = updated::<T>(storage, who, schedules, now);
    lemma_lock_effects(locks, report, who, total_locked::<T>(schedules, now));
    let locks_after = apply_effects(locks, report + effects);
    assert(after.schedules(who) == schedules) by {
        if schedules.len() == 0 {
            assert(schedules =~= Seq::empty());
        }
    }
    assert forall|other: AccountId| other != who implies after.schedules(other)
        == storage.schedules(other) && lock_on(locks_after, other) == lock_on(locks, other)
        && after.vesting.contains_key(other) == storage.vesting.contains_key(other) by {}
    if covered::<T>(storage, locks, now) {
        assert forall|other: AccountId|
            total_locked::<T>(#[trigger] after.schedules(other), now) <= lock_on(
                locks_after,
                other,
            ) by {
            if other != who {
                assert(after.schedules(other) == storage.schedules(other));
            }
        }
    }
}

/// There is a lock in place that keeps the balance from dropping below the unvested amount, and
/// time alone does not change that: what is covered now is covered later.
pub proof fn law_cover_lasts<T: Config>(
    storage: Storage,
    locks: Map<AccountId, Balance>,
    now: BlockNumber,
    later: BlockNumber,
)
    requires
        converts_in_order::<T>(),
        now <= later,
        covered::<T>(storage, locks, now),
    ensures
        covered::<T>(storage, locks, later),
{
    assert forall|who: AccountId|
        total_locked::<T>(#[trigger] storage.schedules(who), later) <= lock_on(locks, who) by {
        law_total_never_grows::<T>(storage.schedules(who), now, later);
    }
}

/// Vesting brings the lock of one account to exactly what is unvested, which keeps every account
/// covered.
pub proof fn law_vest_sets_the_lock<T: Config>(
    storage: Storage,
    locks: Map<AccountId, Balance>,
    who: AccountId,
    now: BlockNumber,
)
    ensures
        vested::<T>(storage, who, now) matches Ok((after, effects)) ==> lock_follows::<T>(
            storage,
            after,
            effects,
            locks,
            who,
            now,
        ),
{
    let schedules = remaining::<T>(storage.schedules(who), VestingAction::Passive, now);
    lemma_updates_keep_cover::<T>(storage, locks, who, schedules, Seq::empty(), now);
    let effects = updated::<T>(storage, who, schedules, now).1;
    assert(Seq::<Effect>::empty() + effects =~= effects);
}

/// Adding a schedule with something to lock brings the lock of the account to exactly what is
/// unvested, which keeps every account covered.
pub proof fn law_add_sets_the_lock<T: Config>(
    storage: Storage,
    locks: Map<AccountId, Balance>,
    who: AccountId,
    schedule: VestingInfo,
    now: BlockNumber,
)
    requires
        schedule.locked > 0,
    ensures
        added::<T>(storage, who, schedule, now) matches Ok((after, effects)) ==> lock_follows::<T>(
            storage,
            after,
            effects,
            locks,
            who,
            now,
        ),
{
    let schedules = remaining::<T>(
        storage.schedules(who).push(schedule),
        VestingAction::Passive,
        now,
    );
    lemma_updates_keep_cover::<T>(storage, locks, who, schedules, Seq::empty(), now);
    let effects = updated::<T>(storage, who, schedules, now).1;
    assert(Seq::<Effect>::empty() + effects =~= effects);
}

/// Removing a schedule brings the lock of the account to exactly what is unvested of the others,
/// which keeps every account covered.
pub proof fn law_remove_sets_the_lock<T: Config>(
    storage: Storage,
    locks: Map<AccountId, Balance>,
    who: AccountId,
    schedule_index: u32,
    now: BlockNumber,
)
    ensures
        removed::<T>(storage, who, schedule_index, now) matches Ok((after, effects))
            ==> lock_follows::<T>(storage, after, effects, locks, who, now),
{
    let schedules = remaining::<T>(
        storage.schedules(who),
        VestingAction::Remove(schedule_index as usize),
        now,
    );
    lemma_updates_keep_cover::<T>(storage, locks, who, schedules, Seq::empty(), now);
    let effects = updated::<T>(storage, who, schedules, now).1;
    assert(Seq::<Effect>::empty() + effects =~= effects);
}

/// Merging two different schedules brings the lock of the account to exactly what is unvested,
/// which keeps every account covered.
pub proof fn law_merge_sets_the_lock<T: Config>(
    storage: Storage,
    locks: Map<AccountId, Balance>,
    who: AccountId,
    index1: u32,
    index2: u32,
    now: BlockNumber,
)
    requires
        index1 != index2,
    ensures
        schedules_merged::<T>(storage, who, index1, index2, now) matches Ok((after, effects))
            ==> lock_follows::<T>(storage, after, effects, locks, who, now),
{
    if schedules_merged::<T>(storage, who, index1, index2, now) is Ok {
        let schedules = storage.vesting[who];
        let new_schedule = merged::<T>(
            now,
            schedules[index1 as int],
            schedules[index2 as int],
        )->Ok_0;
        lemma_updates_keep_cover::<T>(
            storage,
            locks,
            who,
            schedules_after_merge::<T>(schedules, index1, index2, new_schedule, now),
            merge_report(new_schedule),
            now,
        );
    }
}

/// Merging two schedules conserves what is locked: the account's schedules lock together what they
/// locked before, its lock is exactly that, and no other account is concerned. All that this takes
/// of block numbers is that zero stands for zero, and of the two schedules that they lock nothing
/// once they have ended.
pub proof fn law_merge_keeps_what_is_locked<T: Config>(
    storage: Storage,
    locks: Map<AccountId, Balance>,
    who: AccountId,
    index1: u32,
    index2: u32,
    now: BlockNumber,
)
    requires
        T::block_number_to_balance_spec(0) == 0,
        index1 != index2,
        forall|i: int|
            0 <= i < storage.schedules(who).len() && (i == index1 || i == index2) && (
            #[trigger] storage.schedules(who)[i]).has_ended::<T>(now) ==> storage.schedules(
                who,
            )[i].locked_at_spec::<T>(now) == 0,
    ensures
        schedules_merged::<T>(storage, who, index1, index2, now) matches Ok((after, effects)) ==> {
            let locked = total_locked::<T>(storage.schedules(who), now);
            &&& total_locked::<T>(after.schedules(who), now) == locked
            &&& lock_on(apply_effects(locks, effects), who) == locked
            &&& touches_only(storage, after, effects, locks, who)
        },
{
    law_merge_sets_the_lock::<T>(storage, locks, who, index1, index2, now);
    if let Ok((after, _)) = schedules_merged::<T>(storage, who, index1, index2, now) {
        let schedules = storage.schedules(who);
        assert(schedules[index1 as int] == storage.vesting[who][index1 as int]);
        assert(schedules[index2 as int] == storage.vesting[who][index2 as int]);
        law_merging_keeps_the_total::<T>(schedules, index1, index2, now);
        let new_schedule = merged::<T>(
            now,
            schedules[index1 as int],
            schedules[index2 as int],
        )->Ok_0;
        let merged_schedules = schedules_after_merge::<T>(
            schedules,
            index1,
            index2,
            new_schedule,
            now,
        );
        if merged_schedules.len() == 0 {
            assert(merged_schedules =~= Seq::empty());
        }
        assert(after.schedules(who) == merged_schedules);
    }
}

/// A vested transfer that the currency carried out brings the lock of the target to exactly what
/// is unvested, which keeps every account covered.
pub proof fn law_vested_transfer_sets_the_lock<T: Config>(
    storage: Storage,
    locks: Map<AccountId, Balance>,
    source: Option<AccountId>,
    target: Option<AccountId>,
    schedule: VestingInfo,
    now: BlockNumber,
)
    ensures
        planned_transfer::<T>(storage, source, target, schedule) matches Ok(pending) ==> (settled::<
            T,
        >(storage, pending, Ok(()), now) matches Ok((after, effects)) && lock_follows::<T>(
            storage,
            after,
            effects,
            locks,
            pending.target,
            now,
        )),
{
    if let Ok(pending) = planned_transfer::<T>(storage, source, target, schedule) {
        law_add_sets_the_lock::<T>(storage, locks, pending.target, pending.schedule, now);
        let effects = added::<T>(storage, pending.target, pending.schedule, now)->Ok_0.1;
        lemma_reports_leave_locks_alone(locks, effects, Event::VestingCreated(pending.target));
    }
}

/// A vested transfer that the currency carried out reports that a schedule was created, after all
/// that adding the schedule does.
pub proof fn law_vested_transfer_reports_the_schedule<T: Config>(
    storage: Storage,
    source: Option<AccountId>,
    target: Option<AccountId>,
    schedule: VestingInfo,
    now: BlockNumber,
)
    ensures
        planned_transfer::<T>(storage, source, target, schedule) matches Ok(pending) ==> (settled::<
            T,
        >(storage, pending, Ok(()), now) matches Ok((after, effects)) && {
            &&& effects.last() == Effect::Deposit(Event::VestingCreated(pending.target))
            &&& added::<T>(storage, pending.target, pending.schedule, now) == Ok::<
                (Storage, Seq<Effect>),
                CallError,
            >((after, effects.drop_last()))
        }),
{
    if let Ok(pending) = planned_transfer::<T>(storage, source, target, schedule) {
        let effects = added::<T>(storage, pending.target, pending.schedule, now)->Ok_0.1;
        let report = Effect::Deposit(Event::VestingCreated(pending.target));
        assert(effects.push(report).drop_last() =~= effects);
    }
}

/// Merging a schedule with itself is a no-op.
pub proof fn law_merging_a_schedule_with_itself_is_a_no_op<T: Config>(
    storage: Storage,
    who: AccountId,
    index: u32,
    now: BlockNumber,
)
    ensures
        schedules_merged::<T>(storage, who, index, index, now) == Ok::<
            (Storage, Seq<Effect>),
            CallError,
        >((storage, Seq::empty())),
{
}

/// Adding a schedule that locks nothing is a no-op.
pub proof fn law_adding_nothing_is_a_no_op<T: Config>(
    storage: Storage,
    who: AccountId,
    per_block: Balance,
    starting_block: BlockNumber,
    now: BlockNumber,
)
    ensures
        added::<T>(storage, who, VestingInfo { locked: 0, per_block, starting_block }, now) == Ok::<
            (Storage, Seq<Effect>),
            CallError,
        >((storage, Seq::empty())),
{
}

/// Where `can_add_vesting_schedule` agrees, `add_vesting_schedule` succeeds; where it does not,
/// the same error comes for every schedule that has something to lock.
pub proof fn law_adding_succeeds_if_it_can<T: Config>(
    storage: Storage,
    who: AccountId,
    schedule: VestingInfo,
    now: BlockNumber,
)
    ensures
        storage.has_room::<T>(who) ==> added::<T>(storage, who, schedule, now) is Ok,
        !storage.has_room::<T>(who) && schedule.locked > 0 ==> added::<T>(
            storage,
            who,
            schedule,
            now,
        ) == Err::<(Storage, Seq<Effect>), CallError>(
            CallError::Module(Error::AtMaxVestingSchedules),
        ),
{
}

/// Once the funds of a vested transfer have moved, attaching the schedule cannot fail. The amount
/// moved is the locked amount of the schedule, and at least the minimum.
pub proof fn law_paid_transfers_succeed<T: Config>(
    storage: Storage,
    source: Option<AccountId>,
    target: Option<AccountId>,
    schedule: VestingInfo,
    now: BlockNumber,
)
    ensures
        planned_transfer::<T>(storage, source, target, schedule) matches Ok(pending) ==> {
            &&& settled::<T>(storage, pending, Ok(()), now) is Ok
            &&& pending.request().2 == schedule.locked
            &&& schedule.locked >= T::min_vested_transfer_spec()
            &&& schedule.locked > 0
            &&& Some(pending.source) == source
            &&& Some(pending.target) == target
        },
{
}

/// A vested transfer that was carried out has left its schedule with the target, unless it has
/// already run out, and every unfinished schedule that the target had.
pub proof fn law_target_gets_the_schedule<T: Config>(
    storage: Storage,
    source: Option<AccountId>,
    target: Option<AccountId>,
    schedule: VestingInfo,
    now: BlockNumber,
    other: VestingInfo,
)
    requires
        planned_transfer::<T>(storage, source, target, schedule) is Ok,
    ensures
        ({
            let pending = planned_transfer::<T>(storage, source, target, schedule)->Ok_0;
            let after = settled::<T>(storage, pending, Ok(()), now)->Ok_0.0;
            &&& after.schedules(pending.target).contains(pending.schedule)
                <==> pending.schedule.locked_at_spec::<T>(now) > 0
            &&& storage.schedules(pending.target).contains(other) && other.locked_at_spec::<T>(now)
                > 0 ==> after.schedules(pending.target).contains(other)
        }),
{
    let pending = planned_transfer::<T>(storage, source, target, schedule)->Ok_0;
    let before = storage.schedules(pending.target);
    let all = before.push(pending.schedule);
    let kept = remaining::<T>(all, VestingAction::Passive, now);
    let after = settled::<T>(storage, pending, Ok(()), now)->Ok_0.0;
    if kept.len() == 0 {
        assert(kept =~= Seq::empty());
    }
    assert(after.schedules(pending.target) == kept);
    assert(all[all.len() - 1] == pending.schedule);
    law_remaining_schedules_are_the_unfinished::<T>(
        all,
        VestingAction::Passive,
        now,
        pending.schedule,
    );
    law_remaining_schedules_are_the_unfinished::<T>(all, VestingAction::Passive, now, other);
    if before.contains(other) && other.locked_at_spec::<T>(now) > 0 {
        let i = choose|i: int| 0 <= i < before.len() && before[i] == other;
        assert(all[i] == other);
    }
}

/// Vesting never raises a lock that covers what is unvested.
pub proof fn law_vest_never_raises_the_lock<T: Config>(
    storage: Storage,
    locks: Map<AccountId, Balance>,
    who: AccountId,
    now: BlockNumber,
)
    requires
        covered::<T>(storage, locks, now),
    ensures
        vested::<T>(storage, who, now) matches Ok((after, effects)) ==> lock_on(
            apply_effects(locks, effects),
            who,
        ) <= lock_on(locks, who),
{
    law_vest_sets_the_lock::<T>(storage, locks, who, now);
    law_vesting_keeps_the_total::<T>(storage.schedules(who), now);
    if let Ok((after, effects)) = vested::<T>(storage, who, now) {
        let kept = remaining::<T>(storage.schedules(who), VestingAction::Passive, now);
        if kept.len() == 0 {
            assert(kept =~= Seq::empty());
        }
        assert(after.schedules(who) == kept);
        assert(total_locked::<T>(storage.schedules(who), now) <= lock_on(locks, who));
    }
}

/// Vesting reports `VestingCompleted` if and only if nothing is left to vest, and then the account
/// is not vesting any more; otherwise it reports what is left.
pub proof fn law_vest_reports_what_is_left<T: Config>(
    storage: Storage,
    who: AccountId,
    now: BlockNumber,
)
    ensures
        vested::<T>(storage, who, now) matches Ok((after, effects)) ==> {
            let left = total_locked::<T>(storage.schedules(who), now);
            &&& left == 0 ==> effects.last() == Effect::Deposit(Event::VestingCompleted(who))
            &&& left > 0 ==> effects.last() == Effect::Deposit(Event::VestingUpdated(who, left))
            &&& left == 0 <==> !after.vesting.contains_key(who)
        },
{
    law_vesting_keeps_the_total::<T>(storage.schedules(who), now);
    law_locked_if_and_only_if_schedules::<T>(
        storage.schedules(who),
        VestingAction::Passive,
        now,
    );
}

/// Vesting a second time in the same block changes nothing: it is answered as the first time, or
/// with an error if the account is not vesting any more.
pub proof fn law_vesting_twice_is_vesting_once<T: Config>(
    storage: Storage,
    who: AccountId,
    now: BlockNumber,
)
    ensures
        vested::<T>(storage, who, now) matches Ok((after, effects)) ==> vested::<T>(
            after,
            who,
            now,
        ) == (if after.vesting.contains_key(who) {
            Ok::<(Storage, Seq<Effect>), CallError>((after, effects))
        } else {
            Err(CallError::Module(Error::NotVesting))
        }),
{
    if let Ok((after, effects)) = vested::<T>(storage, who, now) {
        let kept = remaining::<T>(storage.vesting[who], VestingAction::Passive, now);
        law_filtering_once_is_enough::<T>(storage.vesting[who], now);
        if after.vesting.contains_key(who) {
            assert(after.vesting[who] == kept);
            assert(after.with_schedules(who, kept).vesting =~= after.vesting);
        }
    }
}

/// A lock that a call sets holds back transfers and reservations, and no payment of fees.
pub proof fn law_locks_spare_fees(who: AccountId, locked: Balance, i: int)
    requires
        0 <= i < lock_effects(who, locked).len(),
    ensures
        lock_effects(who, locked)[i] matches Effect::SetLock { id, amount, reasons, .. } ==> {
            &&& id == VESTING_ID
            &&& amount == locked
            &&& amount > 0
            &&& reasons.transfer && reasons.reserve
            &&& !reasons.transaction_payment && !reasons.fee && !reasons.tip
        },
{
}

/// Filtering keeps only schedules that were there.
proof fn lemma_remaining_are_positive<T: Config>(
    schedules: Seq<VestingInfo>,
    action: VestingAction,
    now: BlockNumber,
)
    requires
        forall|i: int| 0 <= i < schedules.len() ==> (#[trigger] schedules[i]).locked > 0,
    ensures
        forall|i: int|
            0 <= i < remaining::<T>(schedules, action, now).len() ==> (#[trigger] remaining::<T>(
                schedules,
                action,
                now,
            )[i]).locked > 0,
{
    let kept = remaining::<T>(schedules, action, now);
    assert forall|i: int| 0 <= i < kept.len() implies (#[trigger] kept[i]).locked > 0 by {
        assert(kept.contains(kept[i]));
        law_remaining_schedules_are_the_unfinished::<T>(schedules, action, now, kept[i]);
        let j = choose|j: int|
            0 <= j < schedules.len() && #[trigger] schedules[j] == kept[i] && !action.removes(j)
                && kept[i].locked_at_spec::<T>(now) > 0;
        assert(schedules[j].locked > 0);
    }
}

/// No call leaves a schedule that has nothing to lock.
pub proof fn law_schedules_stay_positive<T: Config>(
    storage: Storage,
    who: AccountId,
    schedule: VestingInfo,
    index1: u32,
    index2: u32,
    now: BlockNumber,
)
    requires
        positive(storage),
    ensures
        vested::<T>(storage, who, now) matches Ok((after, _)) ==> positive(after),
        added::<T>(storage, who, schedule, now) matches Ok((after, _)) ==> positive(after),
        removed::<T>(storage, who, index1, now) matches Ok((after, _)) ==> positive(after),
        schedules_merged::<T>(storage, who, index1, index2, now) matches Ok((after, _)) ==> positive(
            after,
        ),
{
    let schedules = storage.schedules(who);
    assert forall|i: int| 0 <= i < schedules.len() implies (#[trigger] schedules[i]).locked
        > 0 by {
        assert(schedules[i] == storage.vesting[who][i]);
    }
    lemma_remaining_are_positive::<T>(schedules, VestingAction::Passive, now);
    lemma_remaining_are_positive::<T>(
        schedules,
        VestingAction::Remove(index1 as usize),
        now,
    );
    lemma_remaining_are_positive::<T>(
        schedules,
        VestingAction::Merge(index1 as usize, index2 as usize),
        now,
    );
    if schedule.locked > 0 {
        lemma_remaining_are_positive::<T>(schedules.push(schedule), VestingAction::Passive, now);
    }
    assert forall|list: Seq<VestingInfo>|
        (forall|i: int| 0 <= i < list.len() ==> (#[trigger] list[i]).locked > 0) implies positive(
        #[trigger] storage.with_schedules(who, list),
    ) by {}
}

} // verus!
