//! Laws of merging two schedules.

use crate::config::{converts_evenly, converts_exactly, law_even_conversions, Config};
use crate::laws::curve::{
    law_curve_is_linear, law_locked_never_grows, law_unlocked_from_ending_block_on,
    lemma_ending_block, lemma_even_spread, lemma_unlocked_from_ending_block_on,
};
use crate::laws::lists::{
    law_filtered_schedules_do_not_count, law_remaining_schedules_lock_something,
    lemma_something_is_locked,
};
use crate::schedules::{
    lemma_remaining_without_two, lemma_sum_is_not_negative, lemma_sum_of_push, max_balance,
    merged, merged_duration, merged_info, merged_start, remaining, total_locked, VestingAction,
};
use crate::storage::schedules_after_merge;
use crate::types::{Balance, BlockNumber, CallError, Error};
use crate::vesting_info::{blocks_since, clamp, lemma_rounded_up, VestingInfo};
use vstd::prelude::*;

verus! {

/// It does not matter which of two schedules comes first.
pub proof fn law_merging_is_symmetric<T: Config>(
    now: BlockNumber,
    schedule1: VestingInfo,
    schedule2: VestingInfo,
)
    ensures
        merged::<T>(now, schedule1, schedule2) == merged::<T>(now, schedule2, schedule1),
{
}

/// Merging fails if and only if one of the schedules never ends.
pub proof fn law_merging_fails_on_infinite_schedules<T: Config>(
    now: BlockNumber,
    schedule1: VestingInfo,
    schedule2: VestingInfo,
)
    ensures
        merged::<T>(now, schedule1, schedule2) is Err <==> schedule1.never_ends::<T>()
            || schedule2.never_ends::<T>(),
        merged::<T>(now, schedule1, schedule2) matches Err(error) ==> error == CallError::Module(
            Error::InfiniteSchedule,
        ),
{
}

/// If one schedule is finished by the current block, the other is the merged schedule, unmodified;
/// if both are, there is none.
pub proof fn law_finished_schedules_drop_out<T: Config>(
    now: BlockNumber,
    schedule1: VestingInfo,
    schedule2: VestingInfo,
)
    requires
        schedule1.validity::<T>() is Ok,
        schedule2.validity::<T>() is Ok,
        schedule1.ends_as_it_unlocks::<T>(now),
        schedule2.ends_as_it_unlocks::<T>(now),
    ensures
        schedule1.locked_at_spec::<T>(now) == 0 && schedule2.locked_at_spec::<T>(now) > 0
            ==> merged::<T>(now, schedule1, schedule2) == Ok::<Option<VestingInfo>, CallError>(
            Some(schedule2),
        ),
        schedule1.locked_at_spec::<T>(now) > 0 && schedule2.locked_at_spec::<T>(now) == 0
            ==> merged::<T>(now, schedule1, schedule2) == Ok::<Option<VestingInfo>, CallError>(
            Some(schedule1),
        ),
        schedule1.locked_at_spec::<T>(now) == 0 && schedule2.locked_at_spec::<T>(now) == 0
            ==> merged::<T>(now, schedule1, schedule2) == Ok::<Option<VestingInfo>, CallError>(
            None,
        ),
{
}

/// What two schedules merge into, whatever block numbers convert to. Those that have ended by the
/// current block drop out. Of two that have not, what is left of both is spread from the latest of
/// their starts and the current block to the later of their ends: at the highest whole rate that
/// does not get through it sooner, though at no less than one, and all at once where no time is
/// left.
pub proof fn law_merger<T: Config>(
    now: BlockNumber,
    schedule1: VestingInfo,
    schedule2: VestingInfo,
)
    requires
        !schedule1.never_ends::<T>(),
        !schedule2.never_ends::<T>(),
    ensures
        ({
            let now_as_balance = T::block_number_to_balance_spec(now);
            let end1 = schedule1.ending_block::<T>();
            let end2 = schedule2.ending_block::<T>();
            let left = schedule1.locked_at_spec::<T>(now) + schedule2.locked_at_spec::<T>(now);
            match merged::<T>(now, schedule1, schedule2) {
                Err(_) => false,
                Ok(None) => (end1 <= now_as_balance && end2 <= now_as_balance) || (end1
                    > now_as_balance && end2 > now_as_balance && left == 0),
                Ok(Some(info)) => {
                    if end1 <= now_as_balance {
                        end2 > now_as_balance && info == schedule2
                    } else if end2 <= now_as_balance {
                        info == schedule1
                    } else {
                        let start = info.starting_block;
                        let end = if end1 >= end2 {
                            end1 as int
                        } else {
                            end2 as int
                        };
                        let time = end - T::block_number_to_balance_spec(start);
                        &&& left > 0
                        &&& info.locked == left || info.locked == Balance::MAX < left
                        &&& start >= now && start >= schedule1.starting_block && start
                            >= schedule2.starting_block
                        &&& start == now || start == schedule1.starting_block || start
                            == schedule2.starting_block
                        &&& time <= 0 ==> info.per_block == info.locked
                        &&& time > info.locked ==> info.per_block == 1
                        &&& 0 < time <= info.locked ==> info.per_block * time <= info.locked < (
                        info.per_block + 1) * time
                    }
                },
            }
        }),
{
    let info = merged_info::<T>(now, schedule1, schedule2);
    let duration = merged_duration::<T>(now, schedule1, schedule2) as int;
    if duration > 0 {
        let locked = info.locked as int;
        let rate = locked / duration;
        let rest = locked % duration;
        vstd::arithmetic::div_mod::lemma_fundamental_div_mod(locked, duration);
        assert(rate * duration <= locked < (rate + 1) * duration) by (nonlinear_arith)
            requires
                locked == duration * rate + rest,
                0 <= rest < duration,
        ;
    }
}

/// A schedule that has not ended locks at least one unit for each that it still takes.
proof fn lemma_a_unit_for_each_is_left<T: Config>(schedule: VestingInfo, now: BlockNumber)
    requires
        converts_evenly::<T>(),
        schedule.validity::<T>() is Ok,
        schedule.ends_in_range::<T>(),
        !schedule.has_ended::<T>(now),
    ensures
        now >= schedule.starting_block ==> schedule.locked_at_spec::<T>(now)
            >= schedule.ending_block::<T>() - T::block_number_to_balance_spec(now),
        now <= schedule.starting_block ==> schedule.locked_at_spec::<T>(now)
            >= schedule.ending_block::<T>() - T::block_number_to_balance_spec(
            schedule.starting_block,
        ),
{
    lemma_ending_block::<T>(schedule);
    law_curve_is_linear::<T>(schedule, now);
    let count = if now >= schedule.starting_block {
        T::block_number_to_balance_spec(now) - T::block_number_to_balance_spec(
            schedule.starting_block,
        )
    } else {
        0
    };
    let duration = schedule.duration();
    let per_block = schedule.per_block as int;
    assert((duration - 1) * per_block - count * per_block >= duration - 1 - count)
        by (nonlinear_arith)
        requires
            count <= duration - 1,
            per_block >= 1,
    ;
    assert(0 * per_block == 0) by (nonlinear_arith);
}

/// Two schedules of which neither has ended merge into one with these attributes:
/// - `starting_block` is the latest of the two starting blocks and the current block;
/// - `locked` is what is left of both at the current block, all of which is locked then;
/// - its ending block is the later of the two ending blocks if the locked amount divides evenly
///   over the time up to there, and comes after it if not, as `per_block` is rounded down.
///
/// There is some time up to there, and at least one unit unlocks with each unit of it.
pub proof fn law_merged_attributes<T: Config>(
    now: BlockNumber,
    schedule1: VestingInfo,
    schedule2: VestingInfo,
)
    requires
        converts_evenly::<T>(),
        schedule1.validity::<T>() is Ok,
        schedule2.validity::<T>() is Ok,
        schedule1.ends_in_range::<T>(),
        schedule2.ends_in_range::<T>(),
        schedule1.locked_at_spec::<T>(now) > 0,
        schedule2.locked_at_spec::<T>(now) > 0,
    ensures
        merged::<T>(now, schedule1, schedule2) == Ok::<Option<VestingInfo>, CallError>(
            Some(merged_info::<T>(now, schedule1, schedule2)),
        ),
        ({
            let info = merged_info::<T>(now, schedule1, schedule2);
            let duration = merged_duration::<T>(now, schedule1, schedule2);
            let end = max_balance(schedule1.ending_block::<T>(), schedule2.ending_block::<T>());
            &&& info.starting_block == merged_start(now, schedule1, schedule2)
            &&& info.starting_block >= now
            &&& info.locked == clamp(
                schedule1.locked_at_spec::<T>(now) + schedule2.locked_at_spec::<T>(now),
            )
            &&& info.locked_at_spec::<T>(now) == info.locked
            &&& info.locked > 0
            &&& T::block_number_to_balance_spec(info.starting_block) + duration == end
            &&& 1 <= duration <= info.locked
            &&& info.per_block == info.locked / duration
            &&& 1 <= info.per_block <= info.locked
            &&& info.duration() == duration <==> info.locked % duration == 0
            &&& info.ending_block::<T>() >= end
            &&& info.locked % duration == 0 ==> info.ending_block::<T>() == end
            &&& info.locked % duration != 0 && info.ends_in_range::<T>()
                ==> info.ending_block::<T>() > end
            &&& converts_exactly::<T>() ==> info.ends_in_range::<T>()
        }),
{
    let start = merged_start(now, schedule1, schedule2);
    let info = merged_info::<T>(now, schedule1, schedule2);
    let duration = merged_duration::<T>(now, schedule1, schedule2);
    law_even_conversions::<T>();
    lemma_unlocked_from_ending_block_on::<T>(schedule1, now);
    lemma_unlocked_from_ending_block_on::<T>(schedule2, now);
    lemma_ending_block::<T>(schedule1);
    lemma_ending_block::<T>(schedule2);
    lemma_a_unit_for_each_is_left::<T>(schedule1, now);
    lemma_a_unit_for_each_is_left::<T>(schedule2, now);
    assert(T::block_number_to_balance_spec(now) <= T::block_number_to_balance_spec(start));
    assert(T::block_number_to_balance_spec(schedule1.starting_block)
        <= T::block_number_to_balance_spec(start));
    assert(T::block_number_to_balance_spec(schedule2.starting_block)
        <= T::block_number_to_balance_spec(start));
    assert(1 <= duration <= info.locked);
    lemma_even_spread(info.locked as int, duration as int);
    assert(info.per_block == info.locked / duration);
    assert(info.locked / duration <= info.locked) by (nonlinear_arith)
        requires
            duration >= 1,
    ;
    law_curve_is_linear::<T>(info, now);
}

/// A merged schedule passes validation unless it would take longer than up to the highest block
/// number, which can only be if the two schedules leave it more than half of that.
pub proof fn law_merged_schedule_is_valid<T: Config>(
    now: BlockNumber,
    schedule1: VestingInfo,
    schedule2: VestingInfo,
)
    requires
        converts_evenly::<T>(),
        schedule1.validity::<T>() is Ok,
        schedule2.validity::<T>() is Ok,
        schedule1.ends_in_range::<T>(),
        schedule2.ends_in_range::<T>(),
        schedule1.locked_at_spec::<T>(now) > 0,
        schedule2.locked_at_spec::<T>(now) > 0,
    ensures
        ({
            let info = merged_info::<T>(now, schedule1, schedule2);
            let last = T::block_number_to_balance_spec(BlockNumber::MAX);
            &&& info.validity::<T>() is Ok <==> info.locked / info.per_block <= last
            &&& 2 * merged_duration::<T>(now, schedule1, schedule2) <= last
                ==> info.validity::<T>() is Ok
        }),
{
    law_merged_attributes::<T>(now, schedule1, schedule2);
    let info = merged_info::<T>(now, schedule1, schedule2);
    let duration = merged_duration::<T>(now, schedule1, schedule2);
    lemma_even_spread(info.locked as int, duration as int);
    lemma_rounded_up(info.locked as int, info.per_block as int);
}

/// Merging conserves what is locked at the time: the merged schedule locks what is left of both,
/// and there is none only where nothing is left. All that this takes of block numbers is that zero
/// stands for zero, and of the two schedules that they lock nothing once they have ended.
pub proof fn law_merger_locks_what_is_left<T: Config>(
    now: BlockNumber,
    schedule1: VestingInfo,
    schedule2: VestingInfo,
)
    requires
        T::block_number_to_balance_spec(0) == 0,
        schedule1.has_ended::<T>(now) ==> schedule1.locked_at_spec::<T>(now) == 0,
        schedule2.has_ended::<T>(now) ==> schedule2.locked_at_spec::<T>(now) == 0,
    ensures
        merged::<T>(now, schedule1, schedule2) is Ok <==> !schedule1.never_ends::<T>()
            && !schedule2.never_ends::<T>(),
        merged::<T>(now, schedule1, schedule2) matches Ok(new_schedule) ==> (match new_schedule {
            Some(info) => info.locked_at_spec::<T>(now),
            None => 0,
        }) == clamp(schedule1.locked_at_spec::<T>(now) + schedule2.locked_at_spec::<T>(now)),
{
    let info = merged_info::<T>(now, schedule1, schedule2);
    let count = T::block_number_to_balance_spec(blocks_since(info.starting_block, now));
    assert(count * info.per_block == 0) by (nonlinear_arith)
        requires
            count == 0,
    ;
}

/// A schedule that locks `amount` at a block where it has started, and nothing once `duration` more
/// has passed, locks at most the even share of `amount` for what is left of that time.
proof fn lemma_even_share<T: Config>(
    schedule: VestingInfo,
    start: BlockNumber,
    duration: int,
    n: BlockNumber,
)
    requires
        converts_evenly::<T>(),
        !schedule.never_ends::<T>(),
        schedule.ends_in_range::<T>(),
        schedule.starting_block <= start <= n,
        T::block_number_to_balance_spec(n) <= T::block_number_to_balance_spec(start) + duration,
        schedule.ending_block::<T>() <= T::block_number_to_balance_spec(start) + duration,
    ensures
        schedule.locked_at_spec::<T>(n) * duration <= schedule.locked_at_spec::<T>(start) * (
        duration - (T::block_number_to_balance_spec(n) - T::block_number_to_balance_spec(start))),
{
    let per_block = schedule.per_block as int;
    let begin = T::block_number_to_balance_spec(schedule.starting_block);
    let elapsed = T::block_number_to_balance_spec(start) - begin;
    let passed = T::block_number_to_balance_spec(n) - T::block_number_to_balance_spec(start);
    let left = schedule.locked_at_spec::<T>(start) as int;
    let left_later = schedule.locked_at_spec::<T>(n) as int;
    law_even_conversions::<T>();
    lemma_ending_block::<T>(schedule);
    law_curve_is_linear::<T>(schedule, start);
    law_curve_is_linear::<T>(schedule, n);
    let span = elapsed + duration;
    assert(span * per_block >= schedule.locked) by (nonlinear_arith)
        requires
            span >= schedule.duration(),
            per_block >= 0,
            schedule.duration() * per_block >= schedule.locked,
    ;
    assert(span * per_block == elapsed * per_block + duration * per_block) by (nonlinear_arith)
        requires
            span == elapsed + duration,
    ;
    let count = T::block_number_to_balance_spec(n) - begin;
    assert(count * per_block == elapsed * per_block + passed * per_block) by (nonlinear_arith)
        requires
            count == elapsed + passed,
    ;
    assert(0 <= passed * per_block) by (nonlinear_arith)
        requires
            0 <= passed,
            0 <= per_block,
    ;
    if left_later == 0 {
        assert(0 <= left * (duration - passed)) by (nonlinear_arith)
            requires
                0 <= left,
                passed <= duration,
        ;
    } else {
        assert(left_later == left - passed * per_block);
        assert(left <= duration * per_block);
        assert(left_later * duration <= left * (duration - passed)) by (nonlinear_arith)
            requires
                left_later == left - passed * per_block,
                left <= duration * per_block,
                0 <= passed,
        ;
    }
}

/// Merging never lets funds go early: at every block from then on the merged schedule locks at
/// least what the two schedules would have locked together.
pub proof fn law_merging_unlocks_nothing_early<T: Config>(
    now: BlockNumber,
    schedule1: VestingInfo,
    schedule2: VestingInfo,
    n: BlockNumber,
)
    requires
        converts_evenly::<T>(),
        schedule1.validity::<T>() is Ok,
        schedule2.validity::<T>() is Ok,
        schedule1.ends_in_range::<T>(),
        schedule2.ends_in_range::<T>(),
        schedule1.locked_at_spec::<T>(now) + schedule2.locked_at_spec::<T>(now) <= Balance::MAX,
        now <= n,
    ensures
        merged::<T>(now, schedule1, schedule2) matches Ok(new_schedule) && schedule1.locked_at_spec::<
            T,
        >(n) + schedule2.locked_at_spec::<T>(n) <= (match new_schedule {
            Some(info) => info.locked_at_spec::<T>(n),
            None => 0,
        }),
{
    law_even_conversions::<T>();
    law_locked_never_grows::<T>(schedule1, now, n);
    law_locked_never_grows::<T>(schedule2, now, n);
    if schedule1.locked_at_spec::<T>(now) == 0 || schedule2.locked_at_spec::<T>(now) == 0 {
        law_unlocked_from_ending_block_on::<T>(schedule1, now);
        law_unlocked_from_ending_block_on::<T>(schedule2, now);
        law_finished_schedules_drop_out::<T>(now, schedule1, schedule2);
    } else {
        law_merged_attributes::<T>(now, schedule1, schedule2);
        let info = merged_info::<T>(now, schedule1, schedule2);
        let start = info.starting_block;
        law_curve_is_linear::<T>(info, n);
        if n > start {
            let duration = merged_duration::<T>(now, schedule1, schedule2) as int;
            let passed = T::block_number_to_balance_spec(n) - T::block_number_to_balance_spec(
                start,
            );
            law_locked_never_grows::<T>(schedule1, now, start);
            law_locked_never_grows::<T>(schedule2, now, start);
            if passed >= duration {
                lemma_unlocked_from_ending_block_on::<T>(schedule1, n);
                lemma_unlocked_from_ending_block_on::<T>(schedule2, n);
            } else {
                assert(passed >= 0);
                lemma_even_share::<T>(schedule1, start, duration, n);
                lemma_even_share::<T>(schedule2, start, duration, n);
                vstd::arithmetic::div_mod::lemma_fundamental_div_mod(info.locked as int, duration);
                lemma_sum_of_shares(
                    schedule1.locked_at_spec::<T>(start) as int,
                    schedule2.locked_at_spec::<T>(start) as int,
                    schedule1.locked_at_spec::<T>(n) as int,
                    schedule2.locked_at_spec::<T>(n) as int,
                    info.locked as int,
                    info.per_block as int,
                    duration,
                    passed,
                );
            }
        }
    }
}

/// Two amounts that are within their even shares are together within what an amount of at least
/// their sum leaves when it unlocks no faster than evenly.
proof fn lemma_sum_of_shares(
    amount1: int,
    amount2: int,
    left1: int,
    left2: int,
    amount: int,
    per_block: int,
    duration: int,
    passed: int,
)
    requires
        left1 * duration <= amount1 * (duration - passed),
        left2 * duration <= amount2 * (duration - passed),
        amount1 + amount2 <= amount,
        duration * per_block <= amount,
        0 <= passed <= duration,
        0 < duration,
    ensures
        left1 + left2 <= amount - passed * per_block,
{
    assert((left1 + left2) * duration <= amount * (duration - passed)) by (nonlinear_arith)
        requires
            left1 * duration <= amount1 * (duration - passed),
            left2 * duration <= amount2 * (duration - passed),
            amount1 + amount2 <= amount,
            passed <= duration,
    ;
    assert(amount * (duration - passed) <= (amount - passed * per_block) * duration)
        by (nonlinear_arith)
        requires
            duration * per_block <= amount,
            0 <= passed,
    ;
    assert(left1 + left2 <= amount - passed * per_block) by (nonlinear_arith)
        requires
            (left1 + left2) * duration <= (amount - passed * per_block) * duration,
            0 < duration,
    ;
}

/// Merging two schedules of an account changes nothing about how much is locked at the time, and
/// the account has fewer schedules afterwards. All that this takes of block numbers is that zero
/// stands for zero, and of the two schedules that they lock nothing once they have ended.
pub proof fn law_merging_keeps_the_total<T: Config>(
    schedules: Seq<VestingInfo>,
    index1: u32,
    index2: u32,
    now: BlockNumber,
)
    requires
        T::block_number_to_balance_spec(0) == 0,
        index1 != index2,
        index1 < schedules.len(),
        index2 < schedules.len(),
        schedules[index1 as int].has_ended::<T>(now)
            ==> schedules[index1 as int].locked_at_spec::<T>(now) == 0,
        schedules[index2 as int].has_ended::<T>(now)
            ==> schedules[index2 as int].locked_at_spec::<T>(now) == 0,
    ensures
        merged::<T>(now, schedules[index1 as int], schedules[index2 as int]) matches Ok(
            new_schedule,
        ) ==> {
            let after = schedules_after_merge::<T>(schedules, index1, index2, new_schedule, now);
            &&& total_locked::<T>(after, now) == total_locked::<T>(schedules, now)
            &&& after.len() < schedules.len()
        },
{
    let schedule1 = schedules[index1 as int];
    let schedule2 = schedules[index2 as int];
    let action = VestingAction::Merge(index1 as usize, index2 as usize);
    let rest = remaining::<T>(schedules, action, now);
    lemma_remaining_without_two::<T>(schedules, index1 as usize, index2 as usize, now);
    law_filtered_schedules_do_not_count::<T>(schedules, action, now);
    law_merger_locks_what_is_left::<T>(now, schedule1, schedule2);
    lemma_sum_is_not_negative::<T>(rest, now);
    if let Ok(Some(info)) = merged::<T>(now, schedule1, schedule2) {
        lemma_sum_of_push::<T>(rest, info, now);
    }
}

/// Where schedules end as they unlock, either something is locked after a merger and there are
/// schedules, or nothing is locked and there are none.
pub proof fn law_locked_if_and_only_if_schedules_after_merger<T: Config>(
    schedules: Seq<VestingInfo>,
    index1: u32,
    index2: u32,
    now: BlockNumber,
)
    requires
        T::block_number_to_balance_spec(0) == 0,
        index1 < schedules.len(),
        index2 < schedules.len(),
        schedules[index1 as int].ends_as_it_unlocks::<T>(now),
        schedules[index2 as int].ends_as_it_unlocks::<T>(now),
    ensures
        merged::<T>(now, schedules[index1 as int], schedules[index2 as int]) matches Ok(
            new_schedule,
        ) ==> {
            let after = schedules_after_merge::<T>(schedules, index1, index2, new_schedule, now);
            let locked = total_locked::<T>(after, now);
            locked > 0 && after.len() > 0 || locked == 0 && after.len() == 0
        },
{
    let schedule1 = schedules[index1 as int];
    let schedule2 = schedules[index2 as int];
    let action = VestingAction::Merge(index1 as usize, index2 as usize);
    let rest = remaining::<T>(schedules, action, now);
    law_remaining_schedules_lock_something::<T>(schedules, action, now);
    law_merger_locks_what_is_left::<T>(now, schedule1, schedule2);
    if let Ok(new_schedule) = merged::<T>(now, schedule1, schedule2) {
        let after = schedules_after_merge::<T>(schedules, index1, index2, new_schedule, now);
        assert forall|i: int| 0 <= i < after.len() implies #[trigger] after[i].locked_at_spec::<T>(
            now,
        ) > 0 by {
            if i < rest.len() {
                assert(after[i] == rest[i]);
            }
        }
        lemma_something_is_locked::<T>(after, now);
    }
}

} // verus!
