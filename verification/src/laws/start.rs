//! Laws of the genesis configuration and of runtime upgrades.

use crate::config::Config;
use crate::genesis::{genesis, genesis_info, GenesisEntry, GenesisError};
use crate::laws::cover::{apply_effects, covered, lock_on, positive};
use crate::laws::curve::{
    law_locked_and_unlocked_make_the_whole, law_schedules_that_end, lemma_ending_block,
    lemma_even_spread,
};
use crate::laws::lists::law_total_never_more_than_the_amounts;
use crate::schedules::{sum_amounts, total_locked};
use crate::storage::{upgraded, Storage, UpgradeAction};
use crate::types::{
    AccountId, Balance, BlockNumber, Effect, Error, Releases, WithdrawReasons, VESTING_ID,
};
use crate::vesting_info::{clamp, VestingInfo};
use vstd::prelude::*;

verus! {

/// What an entry stands for: all but the liquid funds are locked, from `begin` on, at the highest
/// whole rate that does not get through them before `length` has passed. So less than one unit for
/// each of its blocks is left once it has.
pub proof fn law_genesis_entry<T: Config>(
    entry: GenesisEntry,
    balance: Balance,
    n: BlockNumber,
    passed: BlockNumber,
)
    requires
        n >= entry.1,
        passed == n - entry.1,
    ensures
        ({
            let info = genesis_info::<T>(entry, balance);
            let length = if T::block_number_to_balance_spec(entry.2) >= 1 {
                T::block_number_to_balance_spec(entry.2) as int
            } else {
                1
            };
            let time = T::block_number_to_balance_spec(passed);
            &&& balance >= entry.3 ==> info.locked + entry.3 == balance
            &&& balance <= entry.3 ==> info.locked == 0
            &&& info.starting_block == entry.1
            &&& info.per_block * length <= info.locked < (info.per_block + 1) * length
            &&& time >= length ==> info.locked_at_spec::<T>(n) < length
            &&& time <= length ==> info.locked_at_spec::<T>(n) * length >= info.locked * (length
                - time)
        }),
{
    let info = genesis_info::<T>(entry, balance);
    let length = if T::block_number_to_balance_spec(entry.2) >= 1 {
        T::block_number_to_balance_spec(entry.2) as int
    } else {
        1
    };
    let time = T::block_number_to_balance_spec(passed) as int;
    let locked = info.locked as int;
    let rate = info.per_block as int;
    let rest = locked % length;
    vstd::arithmetic::div_mod::lemma_fundamental_div_mod(locked, length);
    assert(rate == locked / length);
    assert(rate * length <= locked < (rate + 1) * length) by (nonlinear_arith)
        requires
            locked == length * rate + rest,
            0 <= rest < length,
    ;
    law_locked_and_unlocked_make_the_whole::<T>(info, n, passed);
    if time >= length {
        assert(locked - time * rate < length) by (nonlinear_arith)
            requires
                locked < (rate + 1) * length,
                time >= length,
                rate >= 0,
        ;
    } else {
        assert(time * rate <= locked && (locked - time * rate) * length >= locked * (length - time))
            by (nonlinear_arith)
            requires
                rate * length <= locked,
                0 <= time < length,
                rate >= 0,
        ;
    }
    if time == length {
        assert((locked - time * rate) * length >= locked * (length - time)) by (nonlinear_arith)
            requires
                rate * length <= locked,
                time == length,
                length >= 1,
        ;
        assert(time * rate <= locked) by (nonlinear_arith)
            requires
                rate * length <= locked,
                time == length,
        ;
    }
}

/// What is wrong with the entry at `i`, if anything: its account has no funds, nothing of them is
/// locked, they would never unlock, or the account has as many earlier entries as it may have.
pub open spec fn entry_error<T: Config>(
    entries: Seq<GenesisEntry>,
    balances: Seq<Balance>,
    i: int,
) -> Option<GenesisError> {
    let info = genesis_info::<T>(entries[i], balances[i]);
    if balances[i] == 0 {
        Some(GenesisError::CurrencyNotInitialised)
    } else if balances[i] <= entries[i].3 {
        Some(GenesisError::InvalidParams(Error::InvalidScheduleParams))
    } else if info.locked >= (T::block_number_to_balance_spec(BlockNumber::MAX) + 1)
        * info.per_block {
        Some(GenesisError::InvalidParams(Error::InfiniteSchedule))
    } else if entry_schedules::<T>(entries.take(i), balances, entries[i].0).len()
        >= T::max_vesting_schedules_spec() {
        Some(GenesisError::TooManySchedules)
    } else {
        None
    }
}

/// Genesis can be built if and only if nothing is wrong with any entry; otherwise the error is that
/// of the first entry with which something is.
pub proof fn law_genesis_fails_at_the_first_wrong_entry<T: Config>(
    entries: Seq<GenesisEntry>,
    balances: Seq<Balance>,
)
    ensures
        match genesis::<T>(entries, balances) {
            Ok(_) => forall|i: int|
                0 <= i < entries.len() ==> #[trigger] entry_error::<T>(entries, balances, i) is None,
            Err(error) => exists|i: int| #[trigger]
                entry_error::<T>(entries, balances, i) == Some(error) && 0 <= i < entries.len()
                    && forall|j: int|
                    0 <= j < i ==> #[trigger] entry_error::<T>(entries, balances, j) is None,
        },
    decreases entries.len(),
{
    if entries.len() > 0 {
        let front = entries.drop_last();
        let last = entries.len() - 1;
        law_genesis_fails_at_the_first_wrong_entry::<T>(front, balances);
        assert forall|i: int| 0 <= i < last implies #[trigger] entry_error::<T>(
            entries,
            balances,
            i,
        ) == entry_error::<T>(front, balances, i) by {
            assert(entries.take(i) =~= front.take(i));
        }
        match genesis::<T>(front, balances) {
            Err(error) => {
                let i = choose|i: int| #[trigger]
                    entry_error::<T>(front, balances, i) == Some(error) && 0 <= i < front.len()
                        && forall|j: int|
                        0 <= j < i ==> #[trigger] entry_error::<T>(front, balances, j) is None;
                assert(entry_error::<T>(entries, balances, i) == Some(error));
                assert forall|j: int| 0 <= j < i implies #[trigger] entry_error::<T>(
                    entries,
                    balances,
                    j,
                ) is None by {
                    assert(entry_error::<T>(front, balances, j) is None);
                }
            },
            Ok(_) => {
                let info = genesis_info::<T>(entries[last], balances[last]);
                law_genesis_builds_every_entry::<T>(front, balances, entries[last].0);
                law_genesis_entry::<T>(entries[last], balances[last], entries[last].1, 0);
                law_schedules_that_end::<T>(info);
                assert(entries.take(last) =~= front);
                assert forall|j: int| 0 <= j < last implies #[trigger] entry_error::<T>(
                    entries,
                    balances,
                    j,
                ) is None by {
                    assert(entry_error::<T>(front, balances, j) is None);
                }
                let error = entry_error::<T>(entries, balances, last);
                assert(error is Some ==> genesis::<T>(entries, balances) == Err::<
                    (Storage, Seq<Effect>),
                    GenesisError,
                >(error->0));
                assert(error is None ==> genesis::<T>(entries, balances) is Ok);
            },
        }
    }
}

/// Every entry sets the lock of its account, one after the other and nothing else: to all that the
/// account's entries lock up to that one, holding back transfers and reservations and no fees.
pub proof fn law_genesis_sets_a_lock_per_entry<T: Config>(
    entries: Seq<GenesisEntry>,
    balances: Seq<Balance>,
    i: int,
)
    requires
        0 <= i < entries.len(),
    ensures
        genesis::<T>(entries, balances) matches Ok((_, effects)) ==> {
            let amounts = sum_amounts(
                entry_schedules::<T>(entries.take(i + 1), balances, entries[i].0),
            );
            &&& effects.len() == entries.len()
            &&& effects[i] == Effect::SetLock {
                id: VESTING_ID,
                who: entries[i].0,
                amount: if amounts <= Balance::MAX {
                    amounts as Balance
                } else {
                    Balance::MAX
                },
                reasons: WithdrawReasons {
                    transaction_payment: false,
                    transfer: true,
                    reserve: true,
                    fee: false,
                    tip: false,
                },
            }
        },
    decreases entries.len(),
{
    let front = entries.drop_last();
    let last = entries.len() - 1;
    if i < last {
        law_genesis_sets_a_lock_per_entry::<T>(front, balances, i);
        assert(entries.take(i + 1) =~= front.take(i + 1));
    } else {
        if front.len() > 0 {
            law_genesis_sets_a_lock_per_entry::<T>(front, balances, 0);
        }
        assert(entries.take(i + 1) =~= entries);
        law_genesis_builds_every_entry::<T>(front, balances, entries[i].0);
    }
}

/// The schedules of the entries of `who`, in their order.
pub open spec fn entry_schedules<T: Config>(
    entries: Seq<GenesisEntry>,
    balances: Seq<Balance>,
    who: AccountId,
) -> Seq<VestingInfo>
    decreases entries.len(),
{
    if entries.len() == 0 {
        Seq::empty()
    } else {
        let before = entry_schedules::<T>(entries.drop_last(), balances, who);
        if entries.last().0 == who {
            before.push(genesis_info::<T>(entries.last(), balances[entries.len() - 1]))
        } else {
            before
        }
    }
}

/// Every account starts with the schedules of its entries; it is vesting if and only if it has an
/// entry.
pub proof fn law_genesis_builds_every_entry<T: Config>(
    entries: Seq<GenesisEntry>,
    balances: Seq<Balance>,
    who: AccountId,
)
    ensures
        genesis::<T>(entries, balances) matches Ok((storage, _)) ==> {
            &&& storage.schedules(who) == entry_schedules::<T>(entries, balances, who)
            &&& storage.vesting.contains_key(who) <==> exists|i: int|
                0 <= i < entries.len() && (#[trigger] entries[i]).0 == who
        },
    decreases entries.len(),
{
    if entries.len() > 0 {
        let front = entries.drop_last();
        let last = entries.len() - 1;
        law_genesis_builds_every_entry::<T>(front, balances, who);
        if let Ok((storage, _)) = genesis::<T>(entries, balances) {
            let (before, _) = genesis::<T>(front, balances)->Ok_0;
            if entries[last].0 != who {
                assert(storage.schedules(who) == before.schedules(who));
                if before.vesting.contains_key(who) {
                    let i = choose|i: int| 0 <= i < front.len() && (#[trigger] front[i]).0 == who;
                    assert(entries[i].0 == who);
                }
                if exists|i: int| 0 <= i < entries.len() && (#[trigger] entries[i]).0 == who {
                    let i = choose|i: int|
                        0 <= i < entries.len() && (#[trigger] entries[i]).0 == who;
                    assert(front[i].0 == who);
                }
            }
        }
    }
}

/// Every account starts with a lock of all that its schedules lock, nothing if it has none.
pub proof fn law_genesis_locks_everything<T: Config>(
    entries: Seq<GenesisEntry>,
    balances: Seq<Balance>,
    who: AccountId,
)
    ensures
        genesis::<T>(entries, balances) matches Ok((storage, effects)) ==> lock_on(
            apply_effects(Map::empty(), effects),
            who,
        ) == clamp(sum_amounts(storage.schedules(who))),
    decreases entries.len(),
{
    if entries.len() > 0 {
        let front = entries.drop_last();
        law_genesis_locks_everything::<T>(front, balances, who);
        if let Ok((storage, effects)) = genesis::<T>(entries, balances) {
            let (before, effects_before) = genesis::<T>(front, balances)->Ok_0;
            assert(effects.drop_last() =~= effects_before);
            if entries.last().0 != who {
                assert(storage.schedules(who) == before.schedules(who));
            }
        }
    }
}

/// Every account is covered from the start, and at any block.
pub proof fn law_genesis_covers<T: Config>(
    entries: Seq<GenesisEntry>,
    balances: Seq<Balance>,
    now: BlockNumber,
)
    ensures
        genesis::<T>(entries, balances) matches Ok((storage, effects)) ==> covered::<T>(
            storage,
            apply_effects(Map::empty(), effects),
            now,
        ),
{
    if let Ok((storage, effects)) = genesis::<T>(entries, balances) {
        let locks = apply_effects(Map::empty(), effects);
        assert forall|who: AccountId|
            total_locked::<T>(#[trigger] storage.schedules(who), now) <= lock_on(locks, who) by {
            law_genesis_locks_everything::<T>(entries, balances, who);
            law_total_never_more_than_the_amounts::<T>(storage.schedules(who), now);
        }
    }
}

/// New networks start with the latest version of the storage, with no more schedules than allowed
/// and none that has nothing to lock, and without the need of a migration.
pub proof fn law_genesis_is_up_to_date<T: Config>(
    entries: Seq<GenesisEntry>,
    balances: Seq<Balance>,
)
    ensures
        genesis::<T>(entries, balances) matches Ok((storage, _)) ==> {
            &&& storage.storage_version == Releases::V1
            &&& storage.wf::<T>()
            &&& positive(storage)
            &&& upgraded(storage) == (UpgradeAction::ReadVersion, storage)
        },
    decreases entries.len(),
{
    if entries.len() > 0 {
        law_genesis_is_up_to_date::<T>(entries.drop_last(), balances);
        if let Ok((storage, _)) = genesis::<T>(entries, balances) {
            let (before, _) = genesis::<T>(entries.drop_last(), balances)->Ok_0;
            let who = entries.last().0;
            assert forall|other: AccountId, i: int|
                storage.vesting.contains_key(other) && 0 <= i
                    < storage.vesting[other].len() implies (#[trigger] storage.vesting[other][i]).locked
                > 0 by {
                if before.vesting.contains_key(other) && i < before.vesting[other].len() {
                    assert(before.vesting[other][i].locked > 0);
                    assert(storage.vesting[other][i] == before.vesting[other][i]);
                }
            }
        }
    }
}

/// The funds locked at genesis are the balance less what is liquid. The schedule starts to vest at
/// `begin`, and is fully vested `length` blocks (at least a unit of time) later if the funds divide
/// evenly over them, and after that if not, as what unlocks per block is rounded down.
pub proof fn law_genesis_schedule<T: Config>(entry: GenesisEntry, balance: Balance)
    requires
        genesis_info::<T>(entry, balance).validity::<T>() is Ok,
        genesis_info::<T>(entry, balance).ends_in_range::<T>(),
    ensures
        ({
            let info = genesis_info::<T>(entry, balance);
            let begin = T::block_number_to_balance_spec(entry.1);
            let length = if T::block_number_to_balance_spec(entry.2) == 0 {
                1
            } else {
                T::block_number_to_balance_spec(entry.2) as int
            };
            &&& info.locked == balance - entry.3
            &&& info.starting_block == entry.1
            &&& info.ending_block::<T>() >= begin + length
            &&& info.ending_block::<T>() == begin + length <==> info.locked as int % length == 0
        }),
{
    let info = genesis_info::<T>(entry, balance);
    let length = if T::block_number_to_balance_spec(entry.2) == 0 {
        1
    } else {
        T::block_number_to_balance_spec(entry.2) as int
    };
    lemma_ending_block::<T>(info);
    assert(info.per_block == info.locked as int / length);
    assert(info.locked >= length) by (nonlinear_arith)
        requires
            info.per_block == info.locked as int / length,
            info.per_block >= 1,
            length >= 1,
    ;
    lemma_even_spread(info.locked as int, length);
}

/// After an upgrade the storage is of the latest version and everything else is as it was; a
/// second upgrade does not migrate again.
pub proof fn law_storage_is_migrated_once(storage: Storage)
    ensures
        upgraded(storage).1.storage_version == Releases::V1,
        upgraded(storage).1.vesting == storage.vesting,
        upgraded(storage).0 == UpgradeAction::Migrate <==> storage.storage_version == Releases::V0,
        upgraded(upgraded(storage).1) == (UpgradeAction::ReadVersion, upgraded(storage).1),
{
}

} // verus!
