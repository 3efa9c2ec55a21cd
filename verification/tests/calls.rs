//! The calls of the pallet.

use sp_runtime::DispatchError;
use vesting::{
    AccountId, Balance, BlockNumber, CallError, Config, ConstConfig, Effect, Error, Event,
    ExistenceRequirement, Origin, Pallet, PendingTransfer, Releases, UpgradeAction, VestingAction,
    VestingInfo, WithdrawReasons, VESTING_ID,
};

type Runtime = ConstConfig<5, 3>;

const REFUSED: DispatchError = DispatchError::Other("refused");

fn pallet() -> Pallet<Runtime> {
    Pallet::new(Releases::V1)
}

fn lock(who: AccountId, amount: Balance) -> Effect {
    let reasons = WithdrawReasons {
        transaction_payment: false,
        transfer: true,
        reserve: true,
        fee: false,
        tip: false,
    };
    Effect::SetLock { id: *b"vesting ", who, amount, reasons }
}

fn updated(who: AccountId, amount: Balance) -> Vec<Effect> {
    vec![lock(who, amount), Effect::Deposit(Event::VestingUpdated(who, amount))]
}

fn completed(who: AccountId) -> Vec<Effect> {
    vec![
        Effect::RemoveLock { id: VESTING_ID, who },
        Effect::Deposit(Event::VestingCompleted(who)),
    ]
}

fn created(who: AccountId, amount: Balance) -> Vec<Effect> {
    let mut effects = updated(who, amount);
    effects.push(Effect::Deposit(Event::VestingCreated(who)));
    effects
}

fn module<V>(error: Error) -> Result<V, CallError> {
    Err(CallError::Module(error))
}

/// A pallet in which account 1 has the given schedules.
fn with(schedules: Vec<VestingInfo>) -> Pallet<Runtime> {
    let mut pallet = pallet();
    pallet.write_vesting(&1, schedules).unwrap();
    pallet
}

#[test]
fn lock_identifier_reads_vesting() {
    assert_eq!(&VESTING_ID, b"vesting ");
}

#[test]
fn storage_starts_empty() {
    let pallet = pallet();
    assert_eq!(pallet.vesting(&1), None);
    assert_eq!(pallet.storage_version(), Releases::V1);
    assert_eq!(Releases::default(), Releases::V0);
}

#[test]
fn writing_respects_the_limit() {
    let info = VestingInfo::new(100, 10, 0);
    let mut pallet = with(vec![info]);
    assert_eq!(pallet.write_vesting(&1, vec![info; 4]), module(Error::AtMaxVestingSchedules));
    assert_eq!(pallet.vesting(&1), Some(vec![info]));
    assert_eq!(pallet.write_vesting(&1, vec![info; 3]), Ok(()));
    assert_eq!(pallet.vesting(&1), Some(vec![info; 3]));
    assert_eq!(pallet.write_vesting(&1, vec![]), Ok(()));
    assert_eq!(pallet.vesting(&1), None);
}

#[test]
fn write_lock_sets_or_removes() {
    assert_eq!(Pallet::<Runtime>::write_lock(&7, 12), updated(7, 12));
    assert_eq!(Pallet::<Runtime>::write_lock(&7, 0), completed(7));
}

#[test]
fn vest_unlocks_what_has_vested() {
    let long = VestingInfo::new(100, 10, 0);
    let short = VestingInfo::new(20, 10, 0);
    let mut pallet = with(vec![short, long]);
    assert_eq!(pallet.vest(Origin::Signed(1), 1), Ok(updated(1, 100)));
    assert_eq!(pallet.vesting(&1), Some(vec![short, long]));
    assert_eq!(pallet.vest(Origin::Signed(1), 2), Ok(updated(1, 80)));
    assert_eq!(pallet.vesting(&1), Some(vec![long]));
    assert_eq!(pallet.vest(Origin::Signed(1), 2), Ok(updated(1, 80)));
    assert_eq!(pallet.vest(Origin::Signed(1), 10), Ok(completed(1)));
    assert_eq!(pallet.vesting(&1), None);
    assert_eq!(pallet.vest(Origin::Signed(1), 10), module(Error::NotVesting));
}

#[test]
fn vest_wants_a_signature() {
    let mut pallet = with(vec![VestingInfo::new(100, 10, 0)]);
    assert_eq!(pallet.vest(Origin::Root, 1), Err(CallError::BadOrigin));
    assert_eq!(pallet.vest(Origin::Unsigned, 1), Err(CallError::BadOrigin));
    assert_eq!(pallet.vest(Origin::Signed(2), 1), module(Error::NotVesting));
}

#[test]
fn vest_other_unlocks_for_the_target() {
    let mut pallet = with(vec![VestingInfo::new(100, 10, 0)]);
    assert_eq!(pallet.vest_other(Origin::Root, Some(1), 4), Err(CallError::BadOrigin));
    assert_eq!(pallet.vest_other(Origin::Unsigned, None, 4), Err(CallError::BadOrigin));
    assert_eq!(pallet.vest_other(Origin::Signed(9), None, 4), Err(CallError::CannotLookup));
    assert_eq!(pallet.vest_other(Origin::Signed(9), Some(9), 4), module(Error::NotVesting));
    assert_eq!(pallet.vest_other(Origin::Signed(9), Some(1), 4), Ok(updated(1, 60)));
}

#[test]
fn vesting_balance_is_capped_by_the_free_balance() {
    let info = VestingInfo::new(100, 10, 0);
    let pallet = with(vec![info, info]);
    assert_eq!(pallet.vesting_balance(&1, 1000, 4), Some(120));
    assert_eq!(pallet.vesting_balance(&1, 50, 4), Some(50));
    assert_eq!(pallet.vesting_balance(&1, 1000, 10), Some(0));
    assert_eq!(pallet.vesting_balance(&2, 1000, 4), None);
    let huge = VestingInfo::new(u128::MAX, 1, 9);
    assert_eq!(with(vec![huge, huge]).vesting_balance(&1, u128::MAX, 4), Some(u128::MAX));
}

#[test]
fn adding_extends_the_lock() {
    let mut pallet = pallet();
    assert_eq!(pallet.can_add_vesting_schedule(&1, 0, 0, 0), Ok(()));
    assert_eq!(pallet.add_vesting_schedule(&1, 100, 10, 0, 4), Ok(updated(1, 60)));
    assert_eq!(pallet.add_vesting_schedule(&1, 50, 1, 9, 4), Ok(updated(1, 110)));
    assert_eq!(pallet.add_vesting_schedule(&1, 7, 7, 4, 4), Ok(updated(1, 117)));
    assert_eq!(pallet.can_add_vesting_schedule(&1, 0, 0, 0), module(Error::AtMaxVestingSchedules));
    let full = pallet.vesting(&1);
    assert_eq!(pallet.add_vesting_schedule(&1, 1, 1, 1, 4), module(Error::AtMaxVestingSchedules));
    assert_eq!(pallet.vesting(&1), full);
    assert_eq!(pallet.vesting(&2), None);
}

#[test]
fn adding_nothing_is_a_no_op() {
    let mut pallet = with(vec![VestingInfo::new(100, 10, 0); 3]);
    let full = pallet.vesting(&1);
    assert_eq!(pallet.add_vesting_schedule(&1, 0, 10, 0, 50), Ok(vec![]));
    assert_eq!(pallet.vesting(&1), full);
}

#[test]
fn adding_a_finished_schedule_leaves_nothing() {
    let mut pallet = pallet();
    assert_eq!(pallet.add_vesting_schedule(&1, 100, 10, 0, 10), Ok(completed(1)));
    assert_eq!(pallet.vesting(&1), None);
}

#[test]
fn removing_drops_one_schedule() {
    let first = VestingInfo::new(100, 10, 0);
    let second = VestingInfo::new(50, 1, 9);
    let mut pallet = with(vec![first, second]);
    assert_eq!(pallet.remove_vesting_schedule(&1, 2, 4), Ok(updated(1, 110)));
    assert_eq!(pallet.vesting(&1), Some(vec![first, second]));
    assert_eq!(pallet.remove_vesting_schedule(&1, 0, 4), Ok(updated(1, 50)));
    assert_eq!(pallet.vesting(&1), Some(vec![second]));
    assert_eq!(pallet.remove_vesting_schedule(&1, 0, 4), Ok(completed(1)));
    assert_eq!(pallet.vesting(&1), None);
    assert_eq!(pallet.remove_vesting_schedule(&1, 0, 4), module(Error::NotVesting));
}

#[test]
fn merging_replaces_two_schedules() {
    let first = VestingInfo::new(100, 10, 0);
    let second = VestingInfo::new(60, 2, 10);
    let third = VestingInfo::new(9, 1, 50);
    let mut pallet = with(vec![first, third, second]);
    let mut effects = vec![Effect::Deposit(Event::MergedScheduleAdded(110, 3, 10))];
    effects.extend(updated(1, 119));
    assert_eq!(pallet.merge_schedules(Origin::Signed(1), 0, 2, 5), Ok(effects));
    assert_eq!(pallet.vesting(&1), Some(vec![third, VestingInfo::new(110, 3, 10)]));
    assert_eq!(pallet.vesting_balance(&1, 1000, 5), Some(119));
}

#[test]
fn merging_drops_finished_schedules() {
    let short = VestingInfo::new(20, 10, 0);
    let long = VestingInfo::new(100, 10, 0);
    let mut pallet = with(vec![short, long]);
    let mut effects = vec![Effect::Deposit(Event::MergedScheduleAdded(100, 10, 0))];
    effects.extend(updated(1, 70));
    assert_eq!(pallet.merge_schedules(Origin::Signed(1), 0, 1, 3), Ok(effects));
    assert_eq!(pallet.vesting(&1), Some(vec![long]));

    let mut pallet = with(vec![short, long]);
    assert_eq!(pallet.merge_schedules(Origin::Signed(1), 0, 1, 10), Ok(completed(1)));
    assert_eq!(pallet.vesting(&1), None);
}

#[test]
fn merging_a_schedule_with_itself_is_a_no_op() {
    let mut pallet = with(vec![VestingInfo::new(100, 10, 0)]);
    let before = pallet.vesting(&1);
    assert_eq!(pallet.merge_schedules(Origin::Signed(1), 0, 0, 50), Ok(vec![]));
    assert_eq!(pallet.merge_schedules(Origin::Signed(1), 9, 9, 50), Ok(vec![]));
    assert_eq!(pallet.merge_schedules(Origin::Signed(2), 9, 9, 50), Ok(vec![]));
    assert_eq!(pallet.vesting(&1), before);
}

#[test]
fn merging_names_the_error() {
    let info = VestingInfo::new(100, 10, 0);
    let endless = VestingInfo::new(100, 0, 0);
    let mut pallet = with(vec![info, endless]);
    assert_eq!(pallet.merge_schedules(Origin::Root, 0, 1, 1), Err(CallError::BadOrigin));
    assert_eq!(pallet.merge_schedules(Origin::Unsigned, 0, 0, 1), Err(CallError::BadOrigin));
    assert_eq!(pallet.merge_schedules(Origin::Signed(2), 0, 1, 1), module(Error::NotVesting));
    let out_of_bounds = module(Error::ScheduleIndexOutOfBounds);
    assert_eq!(pallet.merge_schedules(Origin::Signed(1), 0, 2, 1), out_of_bounds);
    assert_eq!(pallet.merge_schedules(Origin::Signed(1), 2, 0, 1), out_of_bounds);
    assert_eq!(pallet.merge_schedules(Origin::Signed(1), 0, 1, 1), module(Error::InfiniteSchedule));
    assert_eq!(pallet.vesting(&1), Some(vec![info, endless]));
}

#[test]
fn vested_transfer_asks_the_currency() {
    let mut pallet = pallet();
    let mut asked = vec![];
    let schedule = VestingInfo::new(100, 250, 6);
    let result = pallet.vested_transfer(
        Origin::Signed(3),
        Some(4),
        schedule,
        5,
        |who| Some(who),
        |source, target, amount, existence| {
            asked.push((source, target, amount, existence));
            Ok(())
        },
    );
    assert_eq!(result, Ok(created(4, 100)));
    assert_eq!(asked, vec![(3, 4, 100, ExistenceRequirement::AllowDeath)]);
    assert_eq!(pallet.vesting(&4), Some(vec![VestingInfo::new(100, 100, 6)]));
    assert_eq!(pallet.vesting(&3), None);
}

#[test]
fn vested_transfer_draws_on_the_address_of_the_signer() {
    let mut pallet = pallet();
    let schedule = VestingInfo::new(100, 10, 0);
    let mut sources = vec![];
    let result = pallet.vested_transfer(
        Origin::Signed(3),
        Some(4),
        schedule,
        0,
        |who| Some(who + 10),
        |source, _, _, _| {
            sources.push(source);
            Ok(())
        },
    );
    assert_eq!(result, Ok(created(4, 100)));
    assert_eq!(sources, vec![13]);
    let result = pallet.vested_transfer(Origin::Signed(3), Some(4), schedule, 0, |_| None, never);
    assert_eq!(result, Err(CallError::CannotLookup));
}

fn never(
    _: AccountId,
    _: AccountId,
    _: Balance,
    _: ExistenceRequirement,
) -> Result<(), DispatchError> {
    panic!("no funds may move")
}

fn same(who: AccountId) -> Option<AccountId> {
    Some(who)
}

#[test]
fn vested_transfer_checks_before_funds_move() {
    let good = VestingInfo::new(100, 10, 0);
    let mut pallet = with(vec![good; 3]);
    let mut attempt = |origin: Origin, target: Option<AccountId>, schedule: VestingInfo| {
        pallet.vested_transfer(origin, target, schedule, 1, same, never)
    };
    assert_eq!(attempt(Origin::Root, Some(2), good), Err(CallError::BadOrigin));
    assert_eq!(attempt(Origin::Unsigned, Some(2), good), Err(CallError::BadOrigin));
    let low = VestingInfo::new(4, 0, 0);
    assert_eq!(attempt(Origin::Signed(3), None, low), module(Error::AmountLow));
    let endless = VestingInfo::new(5, 0, 0);
    assert_eq!(attempt(Origin::Signed(3), None, endless), module(Error::InfiniteSchedule));
    assert_eq!(attempt(Origin::Signed(3), None, good), Err(CallError::CannotLookup));
    assert_eq!(attempt(Origin::Signed(3), Some(1), good), module(Error::AtMaxVestingSchedules));
    assert_eq!(pallet.vesting(&1), Some(vec![good; 3]));
}

#[test]
fn empty_transfers_are_invalid_even_without_a_minimum() {
    let mut pallet: Pallet<ConstConfig<0, 3>> = Pallet::new(Releases::V1);
    let nothing = VestingInfo::new(0, 1, 0);
    let result = pallet.vested_transfer(Origin::Signed(3), Some(4), nothing, 1, same, never);
    assert_eq!(result, module(Error::InvalidScheduleParams));
}

#[test]
fn refused_transfers_change_nothing() {
    let mut pallet = pallet();
    let schedule = VestingInfo::new(100, 10, 0);
    let result =
        pallet.vested_transfer(Origin::Signed(3), Some(4), schedule, 1, same, |_, _, _, _| Err(REFUSED));
    assert_eq!(result, Err(CallError::Currency(REFUSED)));
    assert_eq!(pallet.vesting(&4), None);
}

#[test]
fn forced_transfers_need_root() {
    let mut pallet = pallet();
    let schedule = VestingInfo::new(100, 10, 0);
    assert_eq!(
        pallet.force_vested_transfer(Origin::Signed(3), Some(3), Some(4), schedule, 1, never),
        Err(CallError::BadOrigin)
    );
    assert_eq!(
        pallet.force_vested_transfer(Origin::Unsigned, Some(3), Some(4), schedule, 1, never),
        Err(CallError::BadOrigin)
    );
    assert_eq!(
        pallet.force_vested_transfer(Origin::Root, None, Some(4), schedule, 1, never),
        Err(CallError::CannotLookup)
    );
    let mut asked = vec![];
    let result = pallet.force_vested_transfer(
        Origin::Root,
        Some(3),
        Some(4),
        schedule,
        1,
        |source, target, amount, existence| {
            asked.push((source, target, amount, existence));
            Ok(())
        },
    );
    assert_eq!(result, Ok(created(4, 90)));
    assert_eq!(asked, vec![(3, 4, 100, ExistenceRequirement::AllowDeath)]);
}

#[test]
fn transfers_can_be_taken_in_two_halves() {
    let mut pallet = pallet();
    let schedule = VestingInfo::new(100, 250, 6);
    let pending = pallet.begin_vested_transfer(Some(3), Some(4), schedule).unwrap();
    let expected =
        PendingTransfer { source: 3, target: 4, schedule: VestingInfo::new(100, 100, 6) };
    assert_eq!(pending, expected);
    assert_eq!(
        pallet.finish_vested_transfer(pending, Err(REFUSED), 5),
        Err(CallError::Currency(REFUSED))
    );
    assert_eq!(pallet.vesting(&4), None);
    assert_eq!(pallet.finish_vested_transfer(pending, Ok(()), 5), Ok(created(4, 100)));
    assert_eq!(pallet.vesting(&4), Some(vec![expected.schedule]));
}

#[test]
fn storage_is_migrated_once() {
    let mut pallet: Pallet<Runtime> = Pallet::new(Releases::V0);
    assert_eq!(pallet.on_runtime_upgrade(), UpgradeAction::Migrate);
    assert_eq!(pallet.storage_version(), Releases::V1);
    assert_eq!(pallet.on_runtime_upgrade(), UpgradeAction::ReadVersion);
    assert_eq!(pallet.storage_version(), Releases::V1);
}

#[test]
fn parameters_must_go_together() {
    assert!(Pallet::<ConstConfig<5, 3>>::integrity_test(5));
    assert!(!Pallet::<ConstConfig<5, 3>>::integrity_test(6));
    assert!(!Pallet::<ConstConfig<5, 0>>::integrity_test(1));
}

/// The vesting lock on account 1 once the effects have been carried out.
fn carry_out(lock_now: Balance, effects: &[Effect]) -> Balance {
    effects.iter().fold(lock_now, |lock_now, effect| match effect {
        Effect::SetLock { who: 1, amount, .. } => *amount,
        Effect::RemoveLock { who: 1, .. } => 0,
        _ => lock_now,
    })
}

#[test]
fn lock_always_covers_the_unvested_amount() {
    let mut pallet = pallet();
    let mut locked: Balance = 0;
    let unvested = |pallet: &Pallet<Runtime>, now: BlockNumber| {
        pallet.vesting_balance(&1, u128::MAX, now).unwrap_or(0)
    };
    for now in 0..60 {
        let effects = match now {
            0 => pallet.add_vesting_schedule(&1, 100, 7, 3, now),
            5 => pallet.add_vesting_schedule(&1, 90, 2, 10, now),
            6 => pallet.add_vesting_schedule(&1, 11, 1, 0, now),
            8 => pallet.merge_schedules(Origin::Signed(1), 0, 1, now),
            12 => pallet.vest_other(Origin::Signed(2), Some(1), now),
            20 => pallet.remove_vesting_schedule(&1, 1, now),
            30 => pallet.vest(Origin::Signed(1), now),
            _ => Ok(vec![]),
        };
        locked = carry_out(locked, &effects.unwrap_or_default());
        assert!(locked >= unvested(&pallet, now));
        if now == 8 || now == 12 {
            assert_eq!(locked, unvested(&pallet, now));
        }
    }
}

#[test]
fn merging_keeps_the_total() {
    for now in 0..40 {
        let mut pallet =
            with(vec![VestingInfo::new(100, 7, 3), VestingInfo::new(90, 4, 10), VestingInfo::new(8, 3, 1)]);
        let before = pallet.vesting_balance(&1, u128::MAX, now).unwrap();
        let effects = pallet.merge_schedules(Origin::Signed(1), 1, 0, now).unwrap();
        assert_eq!(pallet.vesting_balance(&1, u128::MAX, now).unwrap_or(0), before);
        assert_eq!(carry_out(0, &effects), before);
        assert!(pallet.vesting(&1).unwrap_or_default().len() < 3);
        assert_eq!(pallet.vesting(&1).is_some(), before > 0);
    }
}

#[test]
fn merging_is_symmetric() {
    let first = VestingInfo::new(100, 7, 3);
    let second = VestingInfo::new(90, 4, 10);
    for now in 0..40 {
        let merged = Pallet::<Runtime>::merge_vesting_info(now, first, second);
        assert_eq!(Pallet::<Runtime>::merge_vesting_info(now, second, first), merged);
    }
    assert_eq!(
        Pallet::<Runtime>::merge_vesting_info(5, first, second),
        Ok(Some(VestingInfo::new(176, 7, 10)))
    );
}

#[test]
fn unvested_amount_never_grows() {
    let pallet = with(vec![VestingInfo::new(100, 7, 3), VestingInfo::new(90, 4, 10)]);
    let unvested = |now: BlockNumber| pallet.vesting_balance(&1, u128::MAX, now).unwrap();
    assert_eq!(unvested(0), 190);
    assert_eq!(unvested(12), 37 + 82);
    for now in 0..60 {
        assert!(unvested(now + 1) <= unvested(now));
    }
}

#[test]
fn calls_touch_one_account() {
    let info = VestingInfo::new(100, 10, 0);
    let mut pallet = with(vec![info, info]);
    pallet.write_vesting(&2, vec![info]).unwrap();
    pallet.vest(Origin::Signed(1), 10).unwrap();
    pallet.add_vesting_schedule(&3, 50, 5, 10, 10).unwrap();
    assert_eq!(pallet.vesting(&1), None);
    assert_eq!(pallet.vesting(&2), Some(vec![info]));
    assert_eq!(pallet.vesting(&3), Some(vec![VestingInfo::new(50, 5, 10)]));
}

#[test]
fn transfers_of_finished_schedules_are_reported_too() {
    let mut pallet = pallet();
    let schedule = VestingInfo::new(100, 10, 0);
    let result =
        pallet.vested_transfer(Origin::Signed(3), Some(4), schedule, 10, same, |_, _, _, _| Ok(()));
    let mut effects = completed(4);
    effects.push(Effect::Deposit(Event::VestingCreated(4)));
    assert_eq!(result, Ok(effects));
    assert_eq!(pallet.vesting(&4), None);
}

#[test]
fn merging_unlocks_nothing_early() {
    let first = VestingInfo::new(100, 10, 0);
    let second = VestingInfo::new(60, 2, 10);
    for now in 0..45 {
        let merged = Pallet::<Runtime>::merge_vesting_info(now, first, second).unwrap();
        for n in now..60 {
            let apart = first.locked_at::<Runtime>(n) + second.locked_at::<Runtime>(n);
            let together = merged.map_or(0, |info| info.locked_at::<Runtime>(n));
            assert!(apart <= together);
        }
    }
    let merged = Pallet::<Runtime>::merge_vesting_info(5, first, second).unwrap().unwrap();
    assert_eq!(merged, VestingInfo::new(110, 3, 10));
    assert_eq!(merged.locked_at::<Runtime>(20), 80);
    assert_eq!(first.locked_at::<Runtime>(20) + second.locked_at::<Runtime>(20), 40);
}

#[test]
fn schedules_only_drop_out() {
    let short = VestingInfo::new(20, 10, 0);
    let long = VestingInfo::new(100, 10, 0);
    let late = VestingInfo::new(9, 3, 4);
    let schedules = vec![short, long, late];
    let kept = |now: BlockNumber| {
        Pallet::<Runtime>::report_schedule_updates(schedules.clone(), VestingAction::Passive, now)
    };
    assert_eq!(kept(0), (vec![short, long, late], 129));
    assert_eq!(kept(2), (vec![long, late], 89));
    assert_eq!(kept(7), (vec![long], 30));
    assert_eq!(kept(10), (vec![], 0));
}

/// A runtime in which every block counts for ten.
struct Tenfold;

impl Config for Tenfold {
    fn block_number_to_balance_spec(n: BlockNumber) -> Balance {
        Self::block_number_to_balance(n)
    }

    fn min_vested_transfer_spec() -> Balance {
        Self::min_vested_transfer()
    }

    fn max_vesting_schedules_spec() -> u32 {
        Self::max_vesting_schedules()
    }

    fn block_number_to_balance(n: BlockNumber) -> Balance {
        10 * n as Balance
    }

    fn min_vested_transfer() -> Balance {
        5
    }

    fn max_vesting_schedules() -> u32 {
        3
    }
}

#[test]
fn mergers_conserve_where_blocks_count_evenly() {
    let first = VestingInfo::new(1000, 10, 0);
    let second = VestingInfo::new(600, 2, 10);
    assert_eq!(first.ending_block_as_balance::<Tenfold>(), Ok(100));
    assert_eq!(second.ending_block_as_balance::<Tenfold>(), Ok(400));
    for now in 0..45 {
        let mut pallet: Pallet<Tenfold> = Pallet::new(Releases::V1);
        pallet.write_vesting(&1, vec![first, second]).unwrap();
        let before = pallet.vesting_balance(&1, u128::MAX, now).unwrap();
        let effects = pallet.merge_schedules(Origin::Signed(1), 0, 1, now).unwrap();
        assert_eq!(carry_out(0, &effects), before);
        for n in now..60 {
            let apart = first.locked_at::<Tenfold>(n) + second.locked_at::<Tenfold>(n);
            let together = pallet.vesting_balance(&1, u128::MAX, n).unwrap_or(0);
            assert!(apart <= together);
            assert!(n > now || apart == together);
        }
    }
    assert_eq!(
        Pallet::<Tenfold>::merge_vesting_info(5, first, second),
        Ok(Some(VestingInfo::new(1100, 3, 10)))
    );
}
