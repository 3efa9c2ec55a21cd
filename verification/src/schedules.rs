//! The schedules of one account: which of them remain, how much they lock, and what two of them
//! make when they are merged.

use crate::config::Config;
use crate::pallet::Pallet;
use crate::types::{Balance, BlockNumber, CallError, Error};
use crate::vesting_info::{clamp, VestingInfo};
use vstd::prelude::*;

verus! {

/// Actions to take on the schedules of an account.
#[derive(Clone, Copy, PartialEq, Eq, Structural, Debug)]
pub enum VestingAction {
    /// Do not actively remove any schedules.
    Passive,
    /// Remove the schedule specified by the index.
    Remove(usize),
    /// Remove the two schedules, specified by index, so they can be merged.
    Merge(usize, usize),
}

impl VestingAction {
    /// Whether the action removes the schedule at `index`.
    pub open spec fn removes(self, index: int) -> bool {
        match self {
            VestingAction::Passive => false,
            VestingAction::Remove(index1) => index1 == index,
            VestingAction::Merge(index1, index2) => index1 == index || index2 == index,
        }
    }

    /// Whether or not the filter says the schedule index should be removed.
    pub fn should_remove(&self, index: &usize) -> (remove: bool)
        ensures
            remove == self.removes(*index as int),
    {
        match self {
            VestingAction::Passive => false,
            VestingAction::Remove(index1) => *index1 == *index,
            VestingAction::Merge(index1, index2) => *index1 == *index || *index2 == *index,
        }
    }
}

/// The schedules that `action` leaves and that still lock something at block `now`, in their order.
pub open spec fn remaining<T: Config>(
    schedules: Seq<VestingInfo>,
    action: VestingAction,
    now: BlockNumber,
) -> Seq<VestingInfo>
    decreases schedules.len(),
{
    if schedules.len() == 0 {
        Seq::empty()
    } else {
        let before = remaining::<T>(schedules.drop_last(), action, now);
        if schedules.last().locked_at_spec::<T>(now) == 0 || action.removes(schedules.len() - 1) {
            before
        } else {
            before.push(schedules.last())
        }
    }
}

/// The sum of what the schedules lock at block `now`.
pub open spec fn sum_locked<T: Config>(schedules: Seq<VestingInfo>, now: BlockNumber) -> int
    decreases schedules.len(),
{
    if schedules.len() == 0 {
        0
    } else {
        sum_locked::<T>(schedules.drop_last(), now) + schedules.last().locked_at_spec::<T>(now)
    }
}

/// What the schedules lock at block `now`, as far as a balance can hold it.
pub open spec fn total_locked<T: Config>(schedules: Seq<VestingInfo>, now: BlockNumber) -> Balance {
    clamp(sum_locked::<T>(schedules, now))
}

/// The sum of the amounts that the schedules were created with.
pub open spec fn sum_amounts(schedules: Seq<VestingInfo>) -> int
    decreases schedules.len(),
{
    if schedules.len() == 0 {
        0
    } else {
        sum_amounts(schedules.drop_last()) + schedules.last().locked
    }
}

/// A sum of amounts is never negative.
pub proof fn lemma_amounts_are_not_negative(schedules: Seq<VestingInfo>)
    ensures
        sum_amounts(schedules) >= 0,
    decreases schedules.len(),
{
    if schedules.len() > 0 {
        lemma_amounts_are_not_negative(schedules.drop_last());
    }
}

/// A sum of locked amounts is never negative.
pub proof fn lemma_sum_is_not_negative<T: Config>(schedules: Seq<VestingInfo>, now: BlockNumber)
    ensures
        sum_locked::<T>(schedules, now) >= 0,
    decreases schedules.len(),
{
    if schedules.len() > 0 {
        lemma_sum_is_not_negative::<T>(schedules.drop_last(), now);
    }
}

/// One more schedule adds what it locks.
pub proof fn lemma_sum_of_push<T: Config>(
    schedules: Seq<VestingInfo>,
    schedule: VestingInfo,
    now: BlockNumber,
)
    ensures
        sum_locked::<T>(schedules.push(schedule), now) == sum_locked::<T>(schedules, now)
            + schedule.locked_at_spec::<T>(now),
        total_locked::<T>(schedules.push(schedule), now) == clamp(
            total_locked::<T>(schedules, now) + schedule.locked_at_spec::<T>(now),
        ),
{
    assert(schedules.push(schedule).drop_last() =~= schedules);
    lemma_sum_is_not_negative::<T>(schedules, now);
}

/// Nothing is added by filtering.
pub proof fn lemma_remaining_is_not_longer<T: Config>(
    schedules: Seq<VestingInfo>,
    action: VestingAction,
    now: BlockNumber,
)
    ensures
        remaining::<T>(schedules, action, now).len() <= schedules.len(),
    decreases schedules.len(),
{
    if schedules.len() > 0 {
        lemma_remaining_is_not_longer::<T>(schedules.drop_last(), action, now);
    }
}

/// The two schedules that are to be merged are both left out.
pub proof fn lemma_remaining_without_two<T: Config>(
    schedules: Seq<VestingInfo>,
    index1: usize,
    index2: usize,
    now: BlockNumber,
)
    requires
        index1 != index2,
    ensures
        remaining::<T>(schedules, VestingAction::Merge(index1, index2), now).len()
            + (if index1 < schedules.len() { 1int } else { 0int })
            + (if index2 < schedules.len() { 1int } else { 0int }) <= schedules.len(),
    decreases schedules.len(),
{
    if schedules.len() > 0 {
        lemma_remaining_without_two::<T>(schedules.drop_last(), index1, index2, now);
    }
}

/// The larger of two balances.
pub open spec fn max_balance(a: Balance, b: Balance) -> Balance {
    if a >= b {
        a
    } else {
        b
    }
}

/// The block at which the merger of two schedules starts: the latest of the current block and
/// their two starting blocks.
pub open spec fn merged_start(
    now: BlockNumber,
    schedule1: VestingInfo,
    schedule2: VestingInfo,
) -> BlockNumber {
    let start = if schedule1.starting_block >= schedule2.starting_block {
        schedule1.starting_block
    } else {
        schedule2.starting_block
    };
    if now >= start {
        now
    } else {
        start
    }
}

/// The blocks from the start of the merger of two schedules to the later of their ends.
pub open spec fn merged_duration<T: Config>(
    now: BlockNumber,
    schedule1: VestingInfo,
    schedule2: VestingInfo,
) -> Balance {
    let end = max_balance(schedule1.ending_block::<T>(), schedule2.ending_block::<T>());
    let start = T::block_number_to_balance_spec(merged_start(now, schedule1, schedule2));
    if end >= start {
        (end - start) as Balance
    } else {
        0
    }
}

/// What the merger of two schedules locks: what is left of both at block `now`.
pub open spec fn merged_locked<T: Config>(
    now: BlockNumber,
    schedule1: VestingInfo,
    schedule2: VestingInfo,
) -> Balance {
    clamp(schedule1.locked_at_spec::<T>(now) + schedule2.locked_at_spec::<T>(now))
}

/// The merger of two schedules of which neither has ended.
pub open spec fn merged_info<T: Config>(
    now: BlockNumber,
    schedule1: VestingInfo,
    schedule2: VestingInfo,
) -> VestingInfo {
    let locked = merged_locked::<T>(now, schedule1, schedule2);
    let duration = merged_duration::<T>(now, schedule1, schedule2);
    VestingInfo {
        locked,
        per_block: if duration > locked {
            1
        } else if duration == 0 {
            locked
        } else {
            locked / duration
        },
        starting_block: merged_start(now, schedule1, schedule2),
    }
}

/// What merging two schedules at block `now` gives: the one that has not ended where the other
/// has, nothing where both have, and otherwise their merger, unless nothing is left to lock.
pub open spec fn merged<T: Config>(
    now: BlockNumber,
    schedule1: VestingInfo,
    schedule2: VestingInfo,
) -> Result<Option<VestingInfo>, CallError> {
    let ended1 = schedule1.has_ended::<T>(now);
    let ended2 = schedule2.has_ended::<T>(now);
    if schedule1.never_ends::<T>() || schedule2.never_ends::<T>() {
        Err(CallError::Module(Error::InfiniteSchedule))
    } else if ended1 && ended2 {
        Ok(None)
    } else if ended1 {
        Ok(Some(schedule2))
    } else if ended2 {
        Ok(Some(schedule1))
    } else if merged_locked::<T>(now, schedule1, schedule2) == 0 {
        Ok(None)
    } else {
        Ok(Some(merged_info::<T>(now, schedule1, schedule2)))
    }
}

impl<T: Config> Pallet<T> {
    /// Create a new `VestingInfo`, based off of two other `VestingInfo`s.
    pub fn merge_vesting_info(
        now: BlockNumber,
        schedule1: VestingInfo,
        schedule2: VestingInfo,
    ) -> (result: Result<Option<VestingInfo>, CallError>)
        ensures
            result == merged::<T>(now, schedule1, schedule2),
    {
        let schedule1_ending_block: Balance = match schedule1.ending_block_as_balance::<T>() {
            Ok(block) => block,
            Err(error) => return Err(CallError::Module(error)),
        };
        let schedule2_ending_block: Balance = match schedule2.ending_block_as_balance::<T>() {
            Ok(block) => block,
            Err(error) => return Err(CallError::Module(error)),
        };
        let now_as_balance: Balance = T::block_number_to_balance(now);

        // Check if one or both schedules have ended.
        match (schedule1_ending_block <= now_as_balance, schedule2_ending_block <= now_as_balance) {
            // If both schedules have ended, there is nothing to merge.
            (true, true) => return Ok(None),
            // If one schedule has ended, the one that has not is the new merged schedule.
            (true, false) => return Ok(Some(schedule2)),
            (false, true) => return Ok(Some(schedule1)),
            (false, false) => {},
        }

        let locked: Balance = schedule1.locked_at::<T>(now).saturating_add(
            schedule2.locked_at::<T>(now),
        );
        if locked == 0 {
            return Ok(None);
        }
        let ending_block: Balance = if schedule1_ending_block >= schedule2_ending_block {
            schedule1_ending_block
        } else {
            schedule2_ending_block
        };
        let mut starting_block: BlockNumber = now;
        if schedule1.starting_block() > starting_block {
            starting_block = schedule1.starting_block();
        }
        if schedule2.starting_block() > starting_block {
            starting_block = schedule2.starting_block();
        }
        let duration: Balance = ending_block.saturating_sub(
            T::block_number_to_balance(starting_block),
        );
        let per_block: Balance = if duration > locked {
            // Never less than one unit per block.
            1
        } else {
            match locked.checked_div(duration) {
                // With no block left to spread the amount over, all of it unlocks at once.
                None => locked,
                Some(per_block) => per_block,
            }
        };
        Ok(Some(VestingInfo::new(locked, per_block, starting_block)))
    }

    /// Iterate through the schedules to track the current locked amount and filter out completed
    /// and specified schedules.
    ///
    /// Returns a tuple that consists of:
    /// - the vesting schedules without the completed ones and those that `action` removes;
    /// - the amount locked at block `now` by the schedules in it.
    pub fn report_schedule_updates(
        schedules: Vec<VestingInfo>,
        action: VestingAction,
        now: BlockNumber,
    ) -> (result: (Vec<VestingInfo>, Balance))
        ensures
            result.0@ == remaining::<T>(schedules@, action, now),
            result.1 == total_locked::<T>(remaining::<T>(schedules@, action, now), now),
    {
        let mut total_locked_now: Balance = 0;
        let mut filtered_schedules: Vec<VestingInfo> = Vec::new();
        let mut index: usize = 0;
        assert(schedules@.take(0) =~= Seq::<VestingInfo>::empty());
        while index < schedules.len()
            invariant
                index <= schedules@.len(),
                filtered_schedules@ == remaining::<T>(schedules@.take(index as int), action, now),
                total_locked_now == total_locked::<T>(filtered_schedules@, now),
            decreases schedules@.len() - index,
        {
            let schedule: VestingInfo = schedules[index];
            assert(schedules@.take(index + 1).drop_last() =~= schedules@.take(index as int));
            let locked_now: Balance = schedule.locked_at::<T>(now);
            if locked_now == 0 || action.should_remove(&index) {
            } else {
                // The locked amount counts only if the schedule stays.
                total_locked_now = total_locked_now.saturating_add(locked_now);
                proof {
                    lemma_sum_of_push::<T>(filtered_schedules@, schedule, now);
                }
                filtered_schedules.push(schedule);
            }
            index += 1;
        }
        assert(schedules@.take(index as int) =~= schedules@);
        (filtered_schedules, total_locked_now)
    }
}

} // verus!
