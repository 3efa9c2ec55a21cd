//! The vesting that is in place from the first block on.

use vesting::{
    ConstConfig, Effect, Error, GenesisConfig, GenesisError, Origin, Releases, UpgradeAction,
    VestingInfo,
};

type Runtime = ConstConfig<5, 2>;

fn locks(effects: &[Effect]) -> Vec<(u64, u128)> {
    effects
        .iter()
        .map(|effect| match effect {
            Effect::SetLock { id, who, amount, reasons } => {
                assert_eq!(id, b"vesting ");
                assert!(reasons.transfer && reasons.reserve);
                assert!(!reasons.transaction_payment && !reasons.fee && !reasons.tip);
                (*who, *amount)
            },
            other => panic!("unexpected {:?}", other),
        })
        .collect()
}

#[test]
fn genesis_locks_all_but_the_liquid_funds() {
    let config = GenesisConfig { vesting: vec![(1, 0, 10, 50), (2, 10, 20, 0), (12, 10, 0, 90)] };
    let (mut pallet, effects) = config.build::<Runtime>(&vec![100, 400, 100]).unwrap();
    assert_eq!(pallet.storage_version(), Releases::V1);
    assert_eq!(pallet.vesting(&1), Some(vec![VestingInfo::new(50, 5, 0)]));
    assert_eq!(pallet.vesting(&2), Some(vec![VestingInfo::new(400, 20, 10)]));
    assert_eq!(pallet.vesting(&12), Some(vec![VestingInfo::new(10, 10, 10)]));
    assert_eq!(locks(&effects), vec![(1, 50), (2, 400), (12, 10)]);
    assert_eq!(pallet.on_runtime_upgrade(), UpgradeAction::ReadVersion);
    assert!(pallet.vest(Origin::Signed(2), 30).is_ok());
    assert_eq!(pallet.vesting(&2), None);
}

#[test]
fn genesis_of_nothing_is_empty() {
    let (pallet, effects) = GenesisConfig::default().build::<Runtime>(&vec![]).unwrap();
    assert_eq!(pallet.storage_version(), Releases::V1);
    assert_eq!(pallet.vesting(&1), None);
    assert!(effects.is_empty());
}

#[test]
fn genesis_allows_several_entries_within_the_limit() {
    let entry = (1, 0, 10, 50);
    let config = GenesisConfig { vesting: vec![entry, (1, 0, 10, 70)] };
    let (pallet, effects) = config.build::<Runtime>(&vec![100, 100]).unwrap();
    let schedules = vec![VestingInfo::new(50, 5, 0), VestingInfo::new(30, 3, 0)];
    assert_eq!(pallet.vesting(&1), Some(schedules));
    assert_eq!(locks(&effects), vec![(1, 50), (1, 80)]);
    let config = GenesisConfig { vesting: vec![entry; 3] };
    let result = config.build::<Runtime>(&vec![100, 100, 100]);
    assert_eq!(result.err(), Some(GenesisError::TooManySchedules));
}

#[test]
fn genesis_names_the_first_error() {
    let build = |vesting: Vec<(u64, u32, u32, u128)>, balances: Vec<u128>| {
        GenesisConfig { vesting }.build::<Runtime>(&balances).err()
    };
    assert_eq!(
        build(vec![(1, 0, 10, 50), (2, 0, 10, 50)], vec![100, 0]),
        Some(GenesisError::CurrencyNotInitialised)
    );
    assert_eq!(
        build(vec![(1, 0, 10, 100), (2, 0, 10, 50)], vec![100, 0]),
        Some(GenesisError::InvalidParams(Error::InvalidScheduleParams))
    );
    assert_eq!(
        build(vec![(1, 0, 101, 0)], vec![100]),
        Some(GenesisError::InvalidParams(Error::InfiniteSchedule))
    );
}

#[test]
fn genesis_schedules_end_after_their_length() {
    let config = GenesisConfig { vesting: vec![(1, 5, 10, 0), (2, 5, 10, 0)] };
    let (pallet, _) = config.build::<Runtime>(&vec![100, 109]).unwrap();
    let end = |who: u64| pallet.vesting(&who).unwrap()[0].ending_block_as_balance::<Runtime>();
    assert_eq!(end(1), Ok(15));
    assert_eq!(end(2), Ok(16));
}

#[test]
fn genesis_accounts_stay_covered() {
    let config = GenesisConfig { vesting: vec![(1, 0, 10, 50), (2, 10, 20, 0), (1, 3, 7, 79)] };
    let (mut pallet, effects) = config.build::<Runtime>(&vec![100, 400, 100]).unwrap();
    let mut lock = vec![0u128; 3];
    for (who, amount) in locks(&effects) {
        lock[who as usize] = amount;
    }
    for now in 0..40 {
        let effects = match now {
            4 => pallet.vest(Origin::Signed(1), now).unwrap(),
            15 => pallet.add_vesting_schedule(&2, 60, 3, 20, now).unwrap(),
            22 => pallet.merge_schedules(Origin::Signed(2), 0, 1, now).unwrap(),
            _ => vec![],
        };
        for effect in effects {
            if let Effect::SetLock { who, amount, .. } = effect {
                lock[who as usize] = amount;
            }
        }
        for who in 1..3 {
            let unvested = pallet.vesting_balance(&who, u128::MAX, now).unwrap_or(0);
            assert!(unvested <= lock[who as usize]);
        }
    }
}

#[test]
fn genesis_lock_covers_all_entries_of_an_account() {
    let config = GenesisConfig { vesting: vec![(1, 0, 10, 50), (1, 0, 10, 80)] };
    let (pallet, effects) = config.build::<ConstConfig<5, 3>>(&vec![100, 100]).unwrap();
    let schedules = vec![VestingInfo::new(50, 5, 0), VestingInfo::new(20, 2, 0)];
    assert_eq!(pallet.vesting(&1), Some(schedules));
    assert_eq!(locks(&effects), vec![(1, 50), (1, 70)]);
    assert_eq!(pallet.vesting_balance(&1, 100, 0), Some(70));
}

#[test]
fn genesis_lock_saturates() {
    let config = GenesisConfig { vesting: vec![(1, 0, 10, 0), (1, 0, 10, 0)] };
    let (_, effects) = config.build::<Runtime>(&vec![u128::MAX, u128::MAX]).unwrap();
    assert_eq!(locks(&effects), vec![(1, u128::MAX), (1, u128::MAX)]);
}
