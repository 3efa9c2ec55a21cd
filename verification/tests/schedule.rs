//! A single schedule, and lists of them.

use vesting::{Balance, BlockNumber, CallError, Config, ConstConfig, Error, Pallet, VestingAction, VestingInfo};

type Runtime = ConstConfig<5, 3>;

/// A runtime whose block numbers stand for ten times their value.
struct Stretched;

impl Config for Stretched {
    fn block_number_to_balance_spec(n: BlockNumber) -> Balance {
        Self::block_number_to_balance(n)
    }

    fn min_vested_transfer_spec() -> Balance {
        Self::min_vested_transfer()
    }

    fn max_vesting_schedules_spec() -> u32 {
        Self::max_vesting_schedules()
    }

    fn block_number_to_balance(n: BlockNumber) -> Balance {
        Balance::from(n) * 10
    }

    fn min_vested_transfer() -> Balance {
        1
    }

    fn max_vesting_schedules() -> u32 {
        2
    }
}

#[test]
fn curve_is_linear() {
    let schedule = VestingInfo::new(100, 10, 5);
    assert_eq!(schedule.locked(), 100);
    assert_eq!(schedule.per_block(), 10);
    assert_eq!(schedule.starting_block(), 5);
    assert_eq!(schedule.locked_at::<Runtime>(0), 100);
    assert_eq!(schedule.locked_at::<Runtime>(5), 100);
    assert_eq!(schedule.locked_at::<Runtime>(6), 90);
    assert_eq!(schedule.locked_at::<Runtime>(14), 10);
    assert_eq!(schedule.locked_at::<Runtime>(15), 0);
    assert_eq!(schedule.locked_at::<Runtime>(u32::MAX), 0);
}

#[test]
fn curve_survives_overflow() {
    let schedule = VestingInfo::new(u128::MAX, u128::MAX / 2, 0);
    assert_eq!(schedule.locked_at::<Runtime>(1), u128::MAX - u128::MAX / 2);
    assert_eq!(schedule.locked_at::<Runtime>(2), 1);
    assert_eq!(schedule.locked_at::<Runtime>(3), 0);
    assert_eq!(schedule.locked_at::<Runtime>(u32::MAX), 0);
}

#[test]
fn curve_goes_by_converted_blocks() {
    let schedule = VestingInfo::new(100, 1, 5);
    assert_eq!(schedule.locked_at::<Stretched>(7), 80);
    assert_eq!(schedule.ending_block_as_balance::<Stretched>(), Ok(150));
}

#[test]
fn nothing_unlocks_without_a_rate() {
    let schedule = VestingInfo::new(100, 0, 5);
    assert_eq!(schedule.locked_at::<Runtime>(u32::MAX), 100);
    assert_eq!(schedule.ending_block_as_balance::<Runtime>(), Err(Error::InfiniteSchedule));
}

#[test]
fn ending_block_rounds_up() {
    assert_eq!(VestingInfo::new(100, 10, 5).ending_block_as_balance::<Runtime>(), Ok(15));
    assert_eq!(VestingInfo::new(101, 10, 5).ending_block_as_balance::<Runtime>(), Ok(16));
    assert_eq!(VestingInfo::new(9, 10, 5).ending_block_as_balance::<Runtime>(), Ok(6));
    assert_eq!(VestingInfo::new(10, 10, 5).ending_block_as_balance::<Runtime>(), Ok(6));
    assert_eq!(VestingInfo::new(0, 10, 5).ending_block_as_balance::<Runtime>(), Ok(6));
}

#[test]
fn schedule_unlocks_at_its_ending_block() {
    let schedule = VestingInfo::new(101, 10, 5);
    assert_eq!(schedule.locked_at::<Runtime>(15), 1);
    assert_eq!(schedule.locked_at::<Runtime>(16), 0);
}

#[test]
fn validation_names_the_error() {
    let longest = Balance::from(u32::MAX);
    assert_eq!(VestingInfo::new(0, 1, 5).validate::<Runtime>(), Err(Error::InvalidScheduleParams));
    assert_eq!(VestingInfo::new(0, 0, 5).validate::<Runtime>(), Err(Error::InvalidScheduleParams));
    assert_eq!(VestingInfo::new(1, 0, 5).validate::<Runtime>(), Err(Error::InfiniteSchedule));
    assert_eq!(VestingInfo::new(longest, 1, 5).validate::<Runtime>(), Ok(()));
    assert_eq!(VestingInfo::new(longest + 1, 1, 5).validate::<Runtime>(), Err(Error::InfiniteSchedule));
    assert_eq!(VestingInfo::new(2 * longest + 1, 2, 5).validate::<Runtime>(), Ok(()));
}

#[test]
fn correction_caps_the_rate() {
    let schedule = VestingInfo::new(10, 25, 3);
    let corrected = schedule.correct();
    assert_eq!(corrected, VestingInfo::new(10, 10, 3));
    assert_eq!(corrected.correct(), corrected);
    for block in 0..6 {
        assert_eq!(corrected.locked_at::<Runtime>(block), schedule.locked_at::<Runtime>(block));
    }
    assert_eq!(corrected.validate::<Runtime>(), schedule.validate::<Runtime>());
    assert_eq!(VestingInfo::new(10, 4, 3).correct(), VestingInfo::new(10, 4, 3));
}

#[test]
fn actions_remove_their_indexes() {
    assert!(!VestingAction::Passive.should_remove(&0));
    assert!(VestingAction::Remove(2).should_remove(&2));
    assert!(!VestingAction::Remove(2).should_remove(&1));
    assert!(VestingAction::Merge(0, 2).should_remove(&0));
    assert!(VestingAction::Merge(0, 2).should_remove(&2));
    assert!(!VestingAction::Merge(0, 2).should_remove(&1));
}

#[test]
fn report_filters_and_sums() {
    let done = VestingInfo::new(10, 10, 0);
    let first = VestingInfo::new(100, 10, 0);
    let second = VestingInfo::new(30, 1, 20);
    let all = vec![first, done, second];
    assert_eq!(
        Pallet::<Runtime>::report_schedule_updates(all.clone(), VestingAction::Passive, 4),
        (vec![first, second], 90)
    );
    assert_eq!(
        Pallet::<Runtime>::report_schedule_updates(all.clone(), VestingAction::Remove(0), 4),
        (vec![second], 30)
    );
    assert_eq!(
        Pallet::<Runtime>::report_schedule_updates(all.clone(), VestingAction::Merge(0, 2), 4),
        (vec![], 0)
    );
    assert_eq!(
        Pallet::<Runtime>::report_schedule_updates(all, VestingAction::Remove(7), 0),
        (vec![first, done, second], 140)
    );
}

#[test]
fn report_saturates() {
    let huge = VestingInfo::new(u128::MAX, 1, 9);
    assert_eq!(
        Pallet::<Runtime>::report_schedule_updates(vec![huge, huge], VestingAction::Passive, 1),
        (vec![huge, huge], u128::MAX)
    );
}

#[test]
fn merger_spans_both_schedules() {
    let first = VestingInfo::new(100, 10, 0);
    let second = VestingInfo::new(60, 2, 10);
    let info = Pallet::<Runtime>::merge_vesting_info(5, first, second).unwrap().unwrap();
    assert_eq!(info, VestingInfo::new(110, 3, 10));
    assert_eq!(info.locked_at::<Runtime>(5), 110);
    assert_eq!(info.ending_block_as_balance::<Runtime>(), Ok(47));
    assert_eq!(Pallet::<Runtime>::merge_vesting_info(5, second, first), Ok(Some(info)));
}

#[test]
fn even_merger_ends_with_the_later_schedule() {
    let first = VestingInfo::new(100, 10, 0);
    let second = VestingInfo::new(50, 10, 0);
    let info = Pallet::<Runtime>::merge_vesting_info(2, first, second).unwrap().unwrap();
    assert_eq!(info, VestingInfo::new(110, 13, 2));
    let third = VestingInfo::new(100, 10, 0);
    let even = Pallet::<Runtime>::merge_vesting_info(2, first, third).unwrap().unwrap();
    assert_eq!(even, VestingInfo::new(160, 20, 2));
    assert_eq!(even.ending_block_as_balance::<Runtime>(), Ok(10));
}

#[test]
fn merger_keeps_what_has_not_ended() {
    let short = VestingInfo::new(10, 10, 0);
    let long = VestingInfo::new(100, 10, 0);
    assert_eq!(Pallet::<Runtime>::merge_vesting_info(1, short, long), Ok(Some(long)));
    assert_eq!(Pallet::<Runtime>::merge_vesting_info(1, long, short), Ok(Some(long)));
    assert_eq!(Pallet::<Runtime>::merge_vesting_info(10, long, short), Ok(None));
}

#[test]
fn merger_needs_schedules_that_end() {
    let endless = VestingInfo::new(10, 0, 0);
    let long = VestingInfo::new(100, 10, 0);
    let error = Err(CallError::Module(Error::InfiniteSchedule));
    assert_eq!(Pallet::<Runtime>::merge_vesting_info(1, endless, long), error);
    assert_eq!(Pallet::<Runtime>::merge_vesting_info(1, long, endless), error);
}

#[test]
fn merger_can_be_too_long_to_validate() {
    let longest = Balance::from(u32::MAX);
    let schedule = VestingInfo::new(longest, 1, 1);
    let tiny = VestingInfo::new(longest - 1, 1, 0);
    let info = Pallet::<Runtime>::merge_vesting_info(0, schedule, tiny).unwrap().unwrap();
    assert_eq!(info, VestingInfo::new(2 * longest - 1, 1, 1));
    assert_eq!(info.validate::<Runtime>(), Err(Error::InfiniteSchedule));
}

#[test]
fn merger_of_nothing_is_nothing() {
    let empty = VestingInfo::new(0, 1, 9);
    assert_eq!(Pallet::<Runtime>::merge_vesting_info(5, empty, empty), Ok(None));
}

#[test]
fn merger_handles_odd_conversions() {
    let schedule = VestingInfo::new(100, 10, 1);
    let info = Pallet::<Stretched>::merge_vesting_info(1, schedule, schedule).unwrap().unwrap();
    assert_eq!(info, VestingInfo::new(200, 20, 1));
    let spread = VestingInfo::new(3, 1, 1);
    let info = Pallet::<Stretched>::merge_vesting_info(0, spread, VestingInfo::new(90, 1, 0)).unwrap().unwrap();
    assert_eq!(info, VestingInfo::new(93, 1, 1));
}
