//! Laws of whatever may happen to the pallet, one thing after the other.

use crate::config::{converts_in_order, Config};
use crate::genesis::{genesis, GenesisEntry};
use crate::laws::cover::{
    apply_effects, covered, law_add_sets_the_lock, law_cover_lasts, law_merge_sets_the_lock,
    law_remove_sets_the_lock, law_schedules_stay_positive, law_vest_sets_the_lock,
    lemma_reports_leave_locks_alone, positive,
};
use crate::laws::start::{law_genesis_covers, law_genesis_is_up_to_date};
use crate::schedules::{
    lemma_remaining_is_not_longer, lemma_remaining_without_two, VestingAction,
};
use crate::storage::{
    added, planned_transfer, removed, schedules_merged, settled, upgraded, vested, Outcome,
    Storage,
};
use crate::types::{AccountId, Balance, BlockNumber, Event};
use crate::vesting_info::VestingInfo;
use vstd::prelude::*;

verus! {

/// Something that happens to the pallet.
pub enum Step {
    /// Time goes on up to the block `until`, if that is still to come.
    Wait { until: BlockNumber },
    /// `vest`, or `vest_other` by anyone.
    Vest { who: AccountId },
    /// `add_vesting_schedule`.
    Add { who: AccountId, schedule: VestingInfo },
    /// `remove_vesting_schedule`.
    Remove { who: AccountId, schedule_index: u32 },
    /// `merge_schedules`.
    Merge { who: AccountId, schedule1_index: u32, schedule2_index: u32 },
    /// `vested_transfer` or `force_vested_transfer`, in which the currency answers `paid`.
    Transfer {
        source: Option<AccountId>,
        target: Option<AccountId>,
        schedule: VestingInfo,
        paid: Result<(), sp_runtime::DispatchError>,
    },
    /// `on_runtime_upgrade`.
    Upgrade,
}

/// The storage, the vesting locks and the current block.
pub struct Chain {
    pub storage: Storage,
    pub locks: Map<AccountId, Balance>,
    pub now: BlockNumber,
}

impl Chain {
    /// What an accepted call stores is stored and its effects are carried out; a refused call
    /// changes nothing.
    pub open spec fn after_call(self, outcome: Outcome) -> Self {
        match outcome {
            Ok((storage, effects)) => Chain {
                storage,
                locks: apply_effects(self.locks, effects),
                now: self.now,
            },
            Err(_) => self,
        }
    }

    /// The chain after one step.
    pub open spec fn after_step<T: Config>(self, step: Step) -> Self {
        match step {
            Step::Wait { until } => Chain {
                now: if until > self.now {
                    until
                } else {
                    self.now
                },
                ..self
            },
            Step::Vest { who } => self.after_call(vested::<T>(self.storage, who, self.now)),
            Step::Add { who, schedule } => self.after_call(
                added::<T>(self.storage, who, schedule, self.now),
            ),
            Step::Remove { who, schedule_index } => self.after_call(
                removed::<T>(self.storage, who, schedule_index, self.now),
            ),
            Step::Merge { who, schedule1_index, schedule2_index } => self.after_call(
                schedules_merged::<T>(
                    self.storage,
                    who,
                    schedule1_index,
                    schedule2_index,
                    self.now,
                ),
            ),
            Step::Transfer { source, target, schedule, paid } => match planned_transfer::<T>(
                self.storage,
                source,
                target,
                schedule,
            ) {
                Ok(pending) => self.after_call(
                    settled::<T>(self.storage, pending, paid, self.now),
                ),
                Err(_) => self,
            },
            Step::Upgrade => Chain { storage: upgraded(self.storage).1, ..self },
        }
    }

    /// The chain after all steps in their order.
    pub open spec fn after_steps<T: Config>(self, steps: Seq<Step>) -> Self
        decreases steps.len(),
    {
        if steps.len() == 0 {
            self
        } else {
            self.after_steps::<T>(steps.drop_last()).after_step::<T>(steps.last())
        }
    }

    /// No account has more schedules than allowed, no schedule has nothing to lock, and on every
    /// account there is a lock of at least what is unvested.
    pub open spec fn sound<T: Config>(self) -> bool {
        &&& self.storage.wf::<T>()
        &&& positive(self.storage)
        &&& covered::<T>(self.storage, self.locks, self.now)
    }
}

/// No call leaves an account with more schedules than allowed.
proof fn lemma_calls_keep_the_limit<T: Config>(
    storage: Storage,
    who: AccountId,
    schedule: VestingInfo,
    index1: u32,
    index2: u32,
    now: BlockNumber,
)
    requires
        storage.wf::<T>(),
    ensures
        vested::<T>(storage, who, now) matches Ok((after, _)) ==> after.wf::<T>(),
        added::<T>(storage, who, schedule, now) matches Ok((after, _)) ==> after.wf::<T>(),
        removed::<T>(storage, who, index1, now) matches Ok((after, _)) ==> after.wf::<T>(),
        schedules_merged::<T>(storage, who, index1, index2, now) matches Ok((after, _))
            ==> after.wf::<T>(),
{
    let schedules = storage.schedules(who);
    assert(storage.vesting.contains_key(who) ==> schedules.len()
        <= T::max_vesting_schedules_spec());
    lemma_remaining_is_not_longer::<T>(schedules, VestingAction::Passive, now);
    lemma_remaining_is_not_longer::<T>(schedules.push(schedule), VestingAction::Passive, now);
    lemma_remaining_is_not_longer::<T>(schedules, VestingAction::Remove(index1 as usize), now);
    if index1 != index2 {
        lemma_remaining_without_two::<T>(schedules, index1 as usize, index2 as usize, now);
    }
}

/// Whatever happens, the pallet keeps a lock in place on every account that covers what is
/// unvested, and keeps within the limit on schedules.
pub proof fn law_a_step_keeps_the_chain_sound<T: Config>(chain: Chain, step: Step)
    requires
        converts_in_order::<T>(),
        chain.sound::<T>(),
    ensures
        chain.after_step::<T>(step).sound::<T>(),
        chain.after_step::<T>(step).now >= chain.now,
{
    let Chain { storage, locks, now } = chain;
    match step {
        Step::Wait { until } => {
            if until > now {
                law_cover_lasts::<T>(storage, locks, now, until);
            }
        },
        Step::Vest { who } => {
            let any = VestingInfo { locked: 0, per_block: 0, starting_block: 0 };
            lemma_calls_keep_the_limit::<T>(storage, who, any, 0, 0, now);
            law_schedules_stay_positive::<T>(storage, who, any, 0, 0, now);
            law_vest_sets_the_lock::<T>(storage, locks, who, now);
        },
        Step::Add { who, schedule } => {
            lemma_adding_keeps_the_chain_sound::<T>(chain, who, schedule);
        },
        Step::Remove { who, schedule_index } => {
            let any = VestingInfo { locked: 0, per_block: 0, starting_block: 0 };
            lemma_calls_keep_the_limit::<T>(storage, who, any, schedule_index, 0, now);
            law_schedules_stay_positive::<T>(storage, who, any, schedule_index, 0, now);
            law_remove_sets_the_lock::<T>(storage, locks, who, schedule_index, now);
        },
        Step::Merge { who, schedule1_index, schedule2_index } => {
            let any = VestingInfo { locked: 0, per_block: 0, starting_block: 0 };
            if schedule1_index != schedule2_index {
                lemma_calls_keep_the_limit::<T>(
                    storage,
                    who,
                    any,
                    schedule1_index,
                    schedule2_index,
                    now,
                );
                law_schedules_stay_positive::<T>(
                    storage,
                    who,
                    any,
                    schedule1_index,
                    schedule2_index,
                    now,
                );
                law_merge_sets_the_lock::<T>(
                    storage,
                    locks,
                    who,
                    schedule1_index,
                    schedule2_index,
                    now,
                );
            }
        },
        Step::Transfer { source, target, schedule, paid } => {
            if let Ok(pending) = planned_transfer::<T>(storage, source, target, schedule) {
                lemma_adding_keeps_the_chain_sound::<T>(chain, pending.target, pending.schedule);
                let outcome = added::<T>(storage, pending.target, pending.schedule, now);
                lemma_reports_leave_locks_alone(
                    locks,
                    outcome->Ok_0.1,
                    Event::VestingCreated(pending.target),
                );
            }
        },
        Step::Upgrade => {
            let after = upgraded(storage).1;
            assert(forall|who: AccountId| after.schedules(who) == storage.schedules(who));
            assert(covered::<T>(after, locks, now));
        },
    }
}

/// Adding a schedule keeps the chain sound.
proof fn lemma_adding_keeps_the_chain_sound<T: Config>(
    chain: Chain,
    who: AccountId,
    schedule: VestingInfo,
)
    requires
        chain.sound::<T>(),
    ensures
        chain.after_call(added::<T>(chain.storage, who, schedule, chain.now)).sound::<T>(),
{
    lemma_calls_keep_the_limit::<T>(chain.storage, who, schedule, 0, 0, chain.now);
    law_schedules_stay_positive::<T>(chain.storage, who, schedule, 0, 0, chain.now);
    if schedule.locked > 0 {
        law_add_sets_the_lock::<T>(chain.storage, chain.locks, who, schedule, chain.now);
    } else {
        assert(apply_effects(chain.locks, Seq::empty()) == chain.locks);
    }
}

/// However many things happen, in whatever order, the chain stays sound.
pub proof fn law_every_history_is_sound<T: Config>(chain: Chain, steps: Seq<Step>)
    requires
        converts_in_order::<T>(),
        chain.sound::<T>(),
    ensures
        chain.after_steps::<T>(steps).sound::<T>(),
        chain.after_steps::<T>(steps).now >= chain.now,
    decreases steps.len(),
{
    if steps.len() > 0 {
        let before = chain.after_steps::<T>(steps.drop_last());
        law_every_history_is_sound::<T>(chain, steps.drop_last());
        law_a_step_keeps_the_chain_sound::<T>(before, steps.last());
    }
}

/// From genesis on every account is covered for ever.
pub proof fn law_every_account_is_covered_from_genesis_on<T: Config>(
    entries: Seq<GenesisEntry>,
    balances: Seq<Balance>,
    now: BlockNumber,
    steps: Seq<Step>,
)
    requires
        converts_in_order::<T>(),
    ensures
        genesis::<T>(entries, balances) matches Ok((storage, effects)) ==> (Chain {
            storage,
            locks: apply_effects(Map::empty(), effects),
            now,
        }).after_steps::<T>(steps).sound::<T>(),
{
    if let Ok((storage, effects)) = genesis::<T>(entries, balances) {
        law_genesis_covers::<T>(entries, balances, now);
        law_genesis_is_up_to_date::<T>(entries, balances);
        let chain = Chain { storage, locks: apply_effects(Map::empty(), effects), now };
        law_every_history_is_sound::<T>(chain, steps);
    }
}

} // verus!
