//! Laws of the schedules of one account.

use crate::config::{converts_in_order, Config};
use crate::laws::curve::{law_locked_never_grows, law_never_more_than_locked};
use crate::schedules::{
    lemma_sum_is_not_negative, lemma_sum_of_push, remaining, sum_amounts, sum_locked,
    total_locked, VestingAction,
};
use crate::types::{Balance, BlockNumber};
use crate::vesting_info::{clamp, VestingInfo};
use vstd::prelude::*;

verus! {

/// As time goes on the total that is still locked only reduces.
pub proof fn law_total_never_grows<T: Config>(
    schedules: Seq<VestingInfo>,
    now: BlockNumber,
    later: BlockNumber,
)
    requires
        converts_in_order::<T>(),
        now <= later,
    ensures
        sum_locked::<T>(schedules, later) <= sum_locked::<T>(schedules, now),
        total_locked::<T>(schedules, later) <= total_locked::<T>(schedules, now),
    decreases schedules.len(),
{
    lemma_sum_is_not_negative::<T>(schedules, now);
    lemma_sum_is_not_negative::<T>(schedules, later);
    if schedules.len() > 0 {
        law_total_never_grows::<T>(schedules.drop_last(), now, later);
        law_locked_never_grows::<T>(schedules.last(), now, later);
    }
}

/// What is locked in total never exceeds the amounts that the schedules were created with.
pub proof fn law_total_never_more_than_the_amounts<T: Config>(
    schedules: Seq<VestingInfo>,
    now: BlockNumber,
)
    ensures
        sum_locked::<T>(schedules, now) <= sum_amounts(schedules),
        total_locked::<T>(schedules, now) <= clamp(sum_amounts(schedules)),
    decreases schedules.len(),
{
    lemma_sum_is_not_negative::<T>(schedules, now);
    if schedules.len() > 0 {
        law_total_never_more_than_the_amounts::<T>(schedules.drop_last(), now);
        law_never_more_than_locked::<T>(schedules.last(), now);
    }
}

/// `positions` says where the items of `part` stand in `whole`, from left to right.
pub open spec fn stands_at(
    part: Seq<VestingInfo>,
    whole: Seq<VestingInfo>,
    positions: Seq<int>,
) -> bool {
    &&& positions.len() == part.len()
    &&& forall|i: int|
        0 <= i < part.len() ==> 0 <= #[trigger] positions[i] < whole.len() && whole[positions[i]]
            == part[i]
    &&& forall|i: int, j: int|
        0 <= i < j < part.len() ==> #[trigger] positions[i] < #[trigger] positions[j]
}

/// `part` is `whole` with some of its items left out.
pub open spec fn is_subsequence(part: Seq<VestingInfo>, whole: Seq<VestingInfo>) -> bool {
    exists|positions: Seq<int>| #[trigger] stands_at(part, whole, positions)
}

/// As time goes on schedules only drop out: what remains at a later block is what remained before
/// with some schedules left out, and it locks no more.
pub proof fn law_remaining_schedules_only_drop_out<T: Config>(
    schedules: Seq<VestingInfo>,
    action: VestingAction,
    n: BlockNumber,
    later: BlockNumber,
)
    requires
        converts_in_order::<T>(),
        n <= later,
    ensures
        is_subsequence(
            remaining::<T>(schedules, action, later),
            remaining::<T>(schedules, action, n),
        ),
        sum_locked::<T>(remaining::<T>(schedules, action, later), later) <= sum_locked::<T>(
            remaining::<T>(schedules, action, n),
            n,
        ),
    decreases schedules.len(),
{
    let part = remaining::<T>(schedules, action, later);
    let whole = remaining::<T>(schedules, action, n);
    if schedules.len() == 0 {
        assert(stands_at(part, whole, Seq::empty()));
    } else {
        let front = schedules.drop_last();
        let part_front = remaining::<T>(front, action, later);
        let whole_front = remaining::<T>(front, action, n);
        law_remaining_schedules_only_drop_out::<T>(front, action, n, later);
        law_locked_never_grows::<T>(schedules.last(), n, later);
        lemma_sum_of_push::<T>(part_front, schedules.last(), later);
        lemma_sum_of_push::<T>(whole_front, schedules.last(), n);
        let positions = choose|positions: Seq<int>| #[trigger]
            stands_at(part_front, whole_front, positions);
        if part.len() > part_front.len() {
            assert(stands_at(part, whole, positions.push(whole_front.len() as int)));
        } else {
            assert(stands_at(part, whole, positions));
        }
    }
}

/// No schedules lock nothing, one locks what it locks, and two lists put together lock what both
/// lock; so do the amounts that they were created with. The total is that sum, as far as a balance
/// can hold it.
pub proof fn law_sums_add_up<T: Config>(
    first: Seq<VestingInfo>,
    second: Seq<VestingInfo>,
    schedule: VestingInfo,
    now: BlockNumber,
)
    ensures
        sum_locked::<T>(Seq::empty(), now) == 0,
        sum_locked::<T>(seq![schedule], now) == schedule.locked_at_spec::<T>(now),
        sum_locked::<T>(first + second, now) == sum_locked::<T>(first, now) + sum_locked::<T>(
            second,
            now,
        ),
        sum_amounts(Seq::empty()) == 0,
        sum_amounts(seq![schedule]) == schedule.locked,
        sum_amounts(first + second) == sum_amounts(first) + sum_amounts(second),
        sum_locked::<T>(first, now) <= Balance::MAX ==> total_locked::<T>(first, now)
            == sum_locked::<T>(first, now),
        sum_locked::<T>(first, now) >= Balance::MAX ==> total_locked::<T>(first, now)
            == Balance::MAX,
    decreases second.len(),
{
    lemma_sum_is_not_negative::<T>(first, now);
    assert(seq![schedule].drop_last() =~= Seq::empty());
    assert(sum_locked::<T>(seq![schedule].drop_last(), now) == 0);
    assert(sum_amounts(seq![schedule].drop_last()) == 0);
    if second.len() == 0 {
        assert(first + second =~= first);
    } else {
        assert((first + second).drop_last() =~= first + second.drop_last());
        law_sums_add_up::<T>(first, second.drop_last(), schedule, now);
    }
}

/// The schedules that stay are picked from left to right, each as it is and as often as it occurs:
/// those that still lock something, but for the ones that the action names. Returns where they
/// stood.
pub proof fn law_remaining_schedules_are_picked<T: Config>(
    schedules: Seq<VestingInfo>,
    action: VestingAction,
    now: BlockNumber,
) -> (positions: Seq<int>)
    ensures
        stands_at(remaining::<T>(schedules, action, now), schedules, positions),
        forall|i: int|
            0 <= i < schedules.len() ==> (#[trigger] positions.contains(i)
                <==> schedules[i].locked_at_spec::<T>(now) > 0 && match action {
                VestingAction::Passive => true,
                VestingAction::Remove(index) => i != index,
                VestingAction::Merge(index1, index2) => i != index1 && i != index2,
            }),
    decreases schedules.len(),
{
    if schedules.len() == 0 {
        Seq::empty()
    } else {
        let front = schedules.drop_last();
        let last = schedules.len() - 1;
        let before = law_remaining_schedules_are_picked::<T>(front, action, now);
        let kept_front = remaining::<T>(front, action, now);
        let kept = remaining::<T>(schedules, action, now);
        assert forall|i: int| 0 <= i < last implies front[i] == schedules[i] by {}
        if kept.len() > kept_front.len() {
            let positions = before.push(last);
            assert(stands_at(kept, schedules, positions));
            assert(positions[positions.len() - 1] == last);
            assert forall|i: int| 0 <= i < schedules.len() implies (#[trigger] positions.contains(i)
                <==> before.contains(i) || i == last) by {
                if positions.contains(i) && i != last {
                    let k = choose|k: int| 0 <= k < positions.len() && positions[k] == i;
                    assert(before[k] == i);
                }
                if before.contains(i) {
                    let k = choose|k: int| 0 <= k < before.len() && before[k] == i;
                    assert(positions[k] == i);
                }
            }
            positions
        } else {
            assert(stands_at(kept, schedules, before));
            assert(!before.contains(last));
            before
        }
    }
}

/// Every schedule that stays still locks something.
pub proof fn law_remaining_schedules_lock_something<T: Config>(
    schedules: Seq<VestingInfo>,
    action: VestingAction,
    now: BlockNumber,
)
    ensures
        forall|i: int|
            0 <= i < remaining::<T>(schedules, action, now).len() ==> #[trigger] remaining::<T>(
                schedules,
                action,
                now,
            )[i].locked_at_spec::<T>(now) > 0,
    decreases schedules.len(),
{
    if schedules.len() > 0 {
        let front = remaining::<T>(schedules.drop_last(), action, now);
        let kept = remaining::<T>(schedules, action, now);
        law_remaining_schedules_lock_something::<T>(schedules.drop_last(), action, now);
        assert forall|i: int| 0 <= i < kept.len() implies #[trigger] kept[i].locked_at_spec::<T>(
            now,
        ) > 0 by {
            if i < front.len() {
                assert(kept[i] == front[i]);
            }
        }
    }
}

/// A schedule stays if and only if it still locks something and the action does not remove it.
/// A schedule that equals one that stays cannot be told from it.
pub proof fn law_remaining_schedules_are_the_unfinished<T: Config>(
    schedules: Seq<VestingInfo>,
    action: VestingAction,
    now: BlockNumber,
    schedule: VestingInfo,
)
    ensures
        remaining::<T>(schedules, action, now).contains(schedule) <==> exists|i: int|
            0 <= i < schedules.len() && #[trigger] schedules[i] == schedule && !action.removes(i)
                && schedule.locked_at_spec::<T>(now) > 0,
    decreases schedules.len(),
{
    let kept = remaining::<T>(schedules, action, now);
    if schedules.len() > 0 {
        let front = schedules.drop_last();
        let last = schedules.len() - 1;
        let kept_front = remaining::<T>(front, action, now);
        law_remaining_schedules_are_the_unfinished::<T>(front, action, now, schedule);
        if kept.contains(schedule) {
            if kept_front.contains(schedule) {
                let i = choose|i: int|
                    0 <= i < front.len() && #[trigger] front[i] == schedule && !action.removes(i)
                        && schedule.locked_at_spec::<T>(now) > 0;
                assert(schedules[i] == schedule);
            } else {
                let k = choose|k: int| 0 <= k < kept.len() && kept[k] == schedule;
                if k < kept_front.len() {
                    assert(kept_front[k] == schedule);
                }
                assert(schedules[last] == schedule);
            }
        }
        if exists|i: int|
            0 <= i < schedules.len() && #[trigger] schedules[i] == schedule && !action.removes(i)
                && schedule.locked_at_spec::<T>(now) > 0 {
            let i = choose|i: int|
                0 <= i < schedules.len() && #[trigger] schedules[i] == schedule
                    && !action.removes(i) && schedule.locked_at_spec::<T>(now) > 0;
            if i < last {
                assert(front[i] == schedule);
                let k = choose|k: int| 0 <= k < kept_front.len() && kept_front[k] == schedule;
                assert(kept[k] == schedule);
            } else {
                assert(kept[kept.len() - 1] == schedule);
            }
        }
    }
}

/// Where every schedule locks something, something is locked in total if and only if there is a
/// schedule.
pub proof fn lemma_something_is_locked<T: Config>(schedules: Seq<VestingInfo>, now: BlockNumber)
    requires
        forall|i: int|
            0 <= i < schedules.len() ==> #[trigger] schedules[i].locked_at_spec::<T>(now) > 0,
    ensures
        total_locked::<T>(schedules, now) > 0 <==> schedules.len() > 0,
        total_locked::<T>(schedules, now) == 0 <==> schedules.len() == 0,
{
    if schedules.len() > 0 {
        lemma_sum_is_not_negative::<T>(schedules.drop_last(), now);
        assert(schedules.last() == schedules[schedules.len() - 1]);
    }
}

/// After completed and specified schedules have been filtered out, either something is locked and
/// there are schedules, or nothing is locked and there are none.
pub proof fn law_locked_if_and_only_if_schedules<T: Config>(
    schedules: Seq<VestingInfo>,
    action: VestingAction,
    now: BlockNumber,
)
    ensures
        ({
            let kept = remaining::<T>(schedules, action, now);
            let locked = total_locked::<T>(kept, now);
            locked > 0 && kept.len() > 0 || locked == 0 && kept.len() == 0
        }),
{
    law_remaining_schedules_lock_something::<T>(schedules, action, now);
    lemma_something_is_locked::<T>(remaining::<T>(schedules, action, now), now);
}

/// What the schedules that `action` removes lock.
pub open spec fn removed_locked<T: Config>(
    schedules: Seq<VestingInfo>,
    action: VestingAction,
    now: BlockNumber,
) -> int {
    match action {
        VestingAction::Passive => 0,
        VestingAction::Remove(index) => locked_at_index::<T>(schedules, index as int, now),
        VestingAction::Merge(index1, index2) => if index1 == index2 {
            locked_at_index::<T>(schedules, index1 as int, now)
        } else {
            locked_at_index::<T>(schedules, index1 as int, now) + locked_at_index::<T>(
                schedules,
                index2 as int,
                now,
            )
        },
    }
}

/// What the schedule at `index` locks, nothing if there is none.
pub open spec fn locked_at_index<T: Config>(
    schedules: Seq<VestingInfo>,
    index: int,
    now: BlockNumber,
) -> int {
    if 0 <= index < schedules.len() {
        schedules[index].locked_at_spec::<T>(now) as int
    } else {
        0
    }
}

/// The amount locked does not count the schedules that are filtered out: it is the whole less what
/// the removed schedules lock, for completed ones lock nothing.
pub proof fn law_filtered_schedules_do_not_count<T: Config>(
    schedules: Seq<VestingInfo>,
    action: VestingAction,
    now: BlockNumber,
)
    ensures
        sum_locked::<T>(remaining::<T>(schedules, action, now), now) == sum_locked::<T>(
            schedules,
            now,
        ) - removed_locked::<T>(schedules, action, now),
    decreases schedules.len(),
{
    if schedules.len() > 0 {
        let front = schedules.drop_last();
        law_filtered_schedules_do_not_count::<T>(front, action, now);
        let kept_front = remaining::<T>(front, action, now);
        lemma_sum_of_push::<T>(kept_front, schedules.last(), now);
        assert(forall|i: int| 0 <= i < front.len() ==> front[i] == schedules[i]);
    }
}

/// Unlocking what has vested does not change what is locked.
pub proof fn law_vesting_keeps_the_total<T: Config>(schedules: Seq<VestingInfo>, now: BlockNumber)
    ensures
        total_locked::<T>(remaining::<T>(schedules, VestingAction::Passive, now), now)
            == total_locked::<T>(schedules, now),
{
    law_filtered_schedules_do_not_count::<T>(schedules, VestingAction::Passive, now);
}

/// Filtering out completed schedules twice is the same as doing it once.
pub proof fn law_filtering_once_is_enough<T: Config>(schedules: Seq<VestingInfo>, now: BlockNumber)
    ensures
        ({
            let kept = remaining::<T>(schedules, VestingAction::Passive, now);
            remaining::<T>(kept, VestingAction::Passive, now) == kept
        }),
{
    let kept = remaining::<T>(schedules, VestingAction::Passive, now);
    law_remaining_schedules_lock_something::<T>(schedules, VestingAction::Passive, now);
    lemma_all_stay::<T>(kept, now);
}

/// Where every schedule locks something, all of them stay.
proof fn lemma_all_stay<T: Config>(schedules: Seq<VestingInfo>, now: BlockNumber)
    requires
        forall|i: int|
            0 <= i < schedules.len() ==> #[trigger] schedules[i].locked_at_spec::<T>(now) > 0,
    ensures
        remaining::<T>(schedules, VestingAction::Passive, now) == schedules,
    decreases schedules.len(),
{
    if schedules.len() > 0 {
        let front = schedules.drop_last();
        assert forall|i: int| 0 <= i < front.len() implies #[trigger] front[i].locked_at_spec::<T>(
            now,
        ) > 0 by {
            assert(front[i] == schedules[i]);
        }
        lemma_all_stay::<T>(front, now);
        assert(schedules.last() == schedules[schedules.len() - 1]);
        assert(front.push(schedules.last()) =~= schedules);
    } else {
        assert(schedules =~= Seq::empty());
    }
}

} // verus!
