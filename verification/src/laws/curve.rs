//! Laws of a single schedule.

use crate::config::{
    converts_evenly, converts_exactly, converts_in_order, law_even_conversions, Config,
};
use crate::types::{Balance, BlockNumber, Error};
use crate::vesting_info::{blocks_since, lemma_rounded_up, VestingInfo};
use vstd::prelude::*;

verus! {

/// What is locked never exceeds the locked amount that the schedule was created with.
pub proof fn law_never_more_than_locked<T: Config>(schedule: VestingInfo, n: BlockNumber)
    ensures
        schedule.locked_at_spec::<T>(n) <= schedule.locked,
{
    assert(schedule.unlocked_by::<T>(n) >= 0) by (nonlinear_arith)
        requires
            schedule.unlocked_by::<T>(n) == T::block_number_to_balance_spec(
                blocks_since(schedule.starting_block, n),
            ) * schedule.per_block,
    ;
}

/// What is locked and what the blocks since the start have unlocked make up the locked amount,
/// until nothing is left; whatever block numbers convert to.
pub proof fn law_locked_and_unlocked_make_the_whole<T: Config>(
    schedule: VestingInfo,
    n: BlockNumber,
    passed: BlockNumber,
)
    requires
        passed == if n > schedule.starting_block {
            n - schedule.starting_block
        } else {
            0
        },
    ensures
        ({
            let unlocked = T::block_number_to_balance_spec(passed) * schedule.per_block;
            let locked = schedule.locked_at_spec::<T>(n);
            &&& unlocked <= schedule.locked ==> locked + unlocked == schedule.locked
            &&& unlocked >= schedule.locked ==> locked == 0
        }),
{
    assert(passed == blocks_since(schedule.starting_block, n));
}

/// A schedule ends if and only if its rate gets through the locked amount by the time of the
/// highest block number.
pub proof fn law_schedules_that_end<T: Config>(schedule: VestingInfo)
    ensures
        !schedule.never_ends::<T>() <==> schedule.locked < (T::block_number_to_balance_spec(
            BlockNumber::MAX,
        ) + 1) * schedule.per_block,
{
    let last = T::block_number_to_balance_spec(BlockNumber::MAX) as int;
    let locked = schedule.locked as int;
    let per_block = schedule.per_block as int;
    if per_block == 0 {
        assert((last + 1) * per_block == 0) by (nonlinear_arith)
            requires
                per_block == 0,
        ;
    } else {
        let blocks = locked / per_block;
        vstd::arithmetic::div_mod::lemma_fundamental_div_mod(locked, per_block);
        let rest = locked % per_block;
        assert(blocks <= last <==> locked < (last + 1) * per_block) by (nonlinear_arith)
            requires
                locked == per_block * blocks + rest,
                0 <= rest < per_block,
        ;
    }
}

/// A schedule takes the shortest time in which its rate gets through the locked amount, and at
/// least one block; its ending block is that much after its start, as far as a balance can hold it.
pub proof fn law_ends_as_soon_as_it_can<T: Config>(schedule: VestingInfo, time: int)
    requires
        schedule.per_block > 0,
        time >= 1,
        time * schedule.per_block >= schedule.locked,
        time == 1 || (time - 1) * schedule.per_block < schedule.locked,
    ensures
        ({
            let end = T::block_number_to_balance_spec(schedule.starting_block) + time;
            &&& end <= Balance::MAX ==> schedule.ending_block::<T>() == end
            &&& end >= Balance::MAX ==> schedule.ending_block::<T>() == Balance::MAX
        }),
{
    lemma_rounded_up(schedule.locked as int, schedule.per_block as int);
    let locked = schedule.locked as int;
    let per_block = schedule.per_block as int;
    let blocks = (locked + per_block - 1) / per_block;
    if locked == 0 {
        assert(time == 1) by (nonlinear_arith)
            requires
                time >= 1,
                time == 1 || (time - 1) * per_block < 0,
                per_block > 0,
        ;
    } else {
        assert(blocks == time) by (nonlinear_arith)
            requires
                blocks >= 1,
                time >= 1,
                per_block > 0,
                blocks * per_block >= locked,
                (blocks - 1) * per_block < locked,
                time * per_block >= locked,
                time == 1 || (time - 1) * per_block < locked,
                locked > 0,
        ;
    }
}

/// As time goes on the amount that is still locked only reduces.
pub proof fn law_locked_never_grows<T: Config>(
    schedule: VestingInfo,
    n: BlockNumber,
    later: BlockNumber,
)
    requires
        converts_in_order::<T>(),
        n <= later,
    ensures
        schedule.locked_at_spec::<T>(later) <= schedule.locked_at_spec::<T>(n),
{
    let count = T::block_number_to_balance_spec(blocks_since(schedule.starting_block, n));
    let later_count = T::block_number_to_balance_spec(
        blocks_since(schedule.starting_block, later),
    );
    assert(count <= later_count);
    assert(count * schedule.per_block <= later_count * schedule.per_block) by (nonlinear_arith)
        requires
            count <= later_count,
    ;
}

/// The curve is linear: nothing unlocks up to the starting block, and from there on every block
/// unlocks `per_block` for each unit that it converts to, for as long as that much is left.
pub proof fn law_curve_is_linear<T: Config>(schedule: VestingInfo, n: BlockNumber)
    requires
        converts_evenly::<T>(),
    ensures
        n <= schedule.starting_block ==> schedule.locked_at_spec::<T>(n) == schedule.locked,
        n >= schedule.starting_block ==> {
            let unlocked = (T::block_number_to_balance_spec(n) - T::block_number_to_balance_spec(
                schedule.starting_block,
            )) * schedule.per_block;
            schedule.locked_at_spec::<T>(n) == if unlocked >= schedule.locked {
                0
            } else {
                schedule.locked - unlocked
            }
        },
{
    let count = T::block_number_to_balance_spec(blocks_since(schedule.starting_block, n));
    if n <= schedule.starting_block {
        law_even_conversions::<T>();
        assert(count * schedule.per_block == 0) by (nonlinear_arith)
            requires
                count == 0,
        ;
    }
    if n >= schedule.starting_block {
        assert(count == T::block_number_to_balance_spec(n) - T::block_number_to_balance_spec(
            schedule.starting_block,
        ));
    }
}

/// Where block numbers keep their value, a balance can hold the ending block of every schedule that
/// ends.
pub proof fn law_exact_conversions_stay_in_range<T: Config>(schedule: VestingInfo)
    requires
        converts_exactly::<T>(),
        !schedule.never_ends::<T>(),
    ensures
        schedule.ends_in_range::<T>(),
{
    assert(T::block_number_to_balance_spec(BlockNumber::MAX) == BlockNumber::MAX);
    assert(T::block_number_to_balance_spec(schedule.starting_block) == schedule.starting_block);
    lemma_rounded_up(schedule.locked as int, schedule.per_block as int);
}

/// The value of the ending block where a balance can hold it: that of the starting block plus the
/// duration.
pub proof fn lemma_ending_block<T: Config>(schedule: VestingInfo)
    requires
        schedule.ends_in_range::<T>(),
        !schedule.never_ends::<T>(),
    ensures
        schedule.ending_block::<T>() == T::block_number_to_balance_spec(schedule.starting_block)
            + schedule.duration(),
        1 <= schedule.duration() <= T::block_number_to_balance_spec(BlockNumber::MAX) + 1,
        schedule.duration() * schedule.per_block >= schedule.locked,
        schedule.locked > 0 ==> (schedule.duration() - 1) * schedule.per_block < schedule.locked,
{
    lemma_rounded_up(schedule.locked as int, schedule.per_block as int);
}

/// A schedule with something to lock is fully unlocked at its ending block and not before.
pub proof fn law_unlocked_from_ending_block_on<T: Config>(schedule: VestingInfo, n: BlockNumber)
    requires
        converts_evenly::<T>(),
        schedule.validity::<T>() is Ok,
        schedule.ends_in_range::<T>(),
    ensures
        schedule.locked_at_spec::<T>(n) == 0 <==> T::block_number_to_balance_spec(n)
            >= schedule.ending_block::<T>(),
        schedule.ends_as_it_unlocks::<T>(n),
{
    lemma_unlocked_from_ending_block_on::<T>(schedule, n);
}

/// A schedule that has ended locks nothing; one with something to lock that has not ended does.
pub proof fn lemma_unlocked_from_ending_block_on<T: Config>(schedule: VestingInfo, n: BlockNumber)
    requires
        converts_evenly::<T>(),
        !schedule.never_ends::<T>(),
        schedule.ends_in_range::<T>(),
    ensures
        schedule.has_ended::<T>(n) ==> schedule.locked_at_spec::<T>(n) == 0,
        !schedule.has_ended::<T>(n) && schedule.locked > 0 ==> schedule.locked_at_spec::<T>(n) > 0,
{
    lemma_ending_block::<T>(schedule);
    law_even_conversions::<T>();
    law_curve_is_linear::<T>(schedule, n);
    let count = T::block_number_to_balance_spec(n) - T::block_number_to_balance_spec(
        schedule.starting_block,
    );
    let duration = schedule.duration();
    if schedule.has_ended::<T>(n) {
        assert(n > schedule.starting_block);
        assert(count * schedule.per_block >= duration * schedule.per_block) by (nonlinear_arith)
            requires
                count >= duration,
        ;
    } else if n >= schedule.starting_block && schedule.locked > 0 {
        assert(count * schedule.per_block <= (duration - 1) * schedule.per_block)
            by (nonlinear_arith)
            requires
                count <= duration - 1,
        ;
    }
}

/// Each schedule ends at least a block after it starts.
pub proof fn law_takes_at_least_a_block<T: Config>(schedule: VestingInfo)
    requires
        T::block_number_to_balance_spec(schedule.starting_block) < Balance::MAX,
    ensures
        schedule.ending_block::<T>() > T::block_number_to_balance_spec(schedule.starting_block),
{
}

/// Only a schedule that ends is valid, and then it has something to lock and unlocks some of it
/// with every block.
pub proof fn law_valid_schedules_end<T: Config>(schedule: VestingInfo)
    ensures
        schedule.validity::<T>() is Ok <==> schedule.locked > 0 && schedule.per_block > 0
            && schedule.locked / schedule.per_block <= T::block_number_to_balance_spec(
            BlockNumber::MAX,
        ),
        schedule.validity::<T>() == Err::<(), Error>(Error::InvalidScheduleParams)
            <==> schedule.locked == 0,
        schedule.validity::<T>() == Err::<(), Error>(Error::InfiniteSchedule) <==> 0 < (
        T::block_number_to_balance_spec(BlockNumber::MAX) + 1) * schedule.per_block
            <= schedule.locked || schedule.per_block == 0 < schedule.locked,
{
    law_schedules_that_end::<T>(schedule);
    let last = T::block_number_to_balance_spec(BlockNumber::MAX);
    assert((last + 1) * schedule.per_block > 0 <==> schedule.per_block > 0) by (nonlinear_arith);
}

/// Correcting a schedule leaves its curve as it is, and once is enough.
pub proof fn law_correction_keeps_the_curve<T: Config>(schedule: VestingInfo, n: BlockNumber)
    ensures
        schedule.corrected().locked_at_spec::<T>(n) == schedule.locked_at_spec::<T>(n),
        schedule.corrected().per_block <= schedule.locked,
        schedule.corrected().per_block <= schedule.per_block,
        schedule.corrected().per_block == schedule.per_block || schedule.corrected().per_block
            == schedule.locked,
        schedule.corrected().locked == schedule.locked,
        schedule.corrected().starting_block == schedule.starting_block,
        schedule.corrected().corrected() == schedule.corrected(),
{
    let count = T::block_number_to_balance_spec(blocks_since(schedule.starting_block, n));
    if schedule.per_block > schedule.locked {
        if count == 0 {
            assert(count * schedule.per_block == 0 && count * schedule.locked == 0)
                by (nonlinear_arith)
                requires
                    count == 0,
            ;
        } else {
            assert(count * schedule.per_block >= schedule.locked && count * schedule.locked
                >= schedule.locked) by (nonlinear_arith)
                requires
                    count >= 1,
                    schedule.per_block > schedule.locked,
            ;
        }
    }
}

/// A valid schedule stays valid when it is corrected, and ends when it did, provided that some
/// block number stands for at least one.
pub proof fn law_correction_keeps_validity<T: Config>(schedule: VestingInfo)
    requires
        T::block_number_to_balance_spec(BlockNumber::MAX) >= 1,
        schedule.validity::<T>() is Ok,
    ensures
        schedule.corrected().validity::<T>() is Ok,
        schedule.corrected().ending_block::<T>() == schedule.ending_block::<T>(),
{
    if schedule.per_block > schedule.locked {
        lemma_rounded_up(schedule.locked as int, schedule.per_block as int);
        lemma_rounded_up(schedule.locked as int, schedule.locked as int);
        assert(schedule.locked / schedule.locked == 1) by (nonlinear_arith)
            requires
                schedule.locked > 0,
        ;
    }
}

/// An amount of at least `duration` spread evenly over `duration` blocks takes at least as long,
/// exactly as long only when it divides evenly, and never more than twice as long.
pub proof fn lemma_even_spread(amount: int, duration: int)
    requires
        1 <= duration <= amount,
    ensures
        amount / duration >= 1,
        (amount + amount / duration - 1) / (amount / duration) >= duration,
        (amount + amount / duration - 1) / (amount / duration) == duration <==> amount % duration
            == 0,
        (amount + amount / duration - 1) / (amount / duration) <= 2 * duration,
{
    let q = amount / duration;
    let r = amount % duration;
    vstd::arithmetic::div_mod::lemma_fundamental_div_mod(amount, duration);
    assert(q >= 1) by (nonlinear_arith)
        requires
            amount == duration * q + r,
            0 <= r < duration,
            amount >= duration,
    ;
    lemma_rounded_up(amount, q);
    let blocks = (amount + q - 1) / q;
    assert(blocks >= duration) by (nonlinear_arith)
        requires
            amount == duration * q + r,
            r >= 0,
            q >= 1,
            blocks * q >= amount,
    ;
    assert(r == 0 ==> blocks <= duration) by (nonlinear_arith)
        requires
            amount == duration * q + r,
            q >= 1,
            (blocks - 1) * q < amount,
    ;
    assert(blocks == duration ==> r <= 0) by (nonlinear_arith)
        requires
            amount == duration * q + r,
            blocks * q >= amount,
    ;
    assert(blocks <= 2 * duration) by (nonlinear_arith)
        requires
            amount == duration * q + r,
            0 <= r < duration,
            q >= 1,
            (blocks - 1) * q < amount,
    ;
}

} // verus!
