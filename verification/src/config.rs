//! What a runtime chooses for the pallet.

use crate::types::{Balance, BlockNumber};
use crate::vesting_info::blocks_since;
use vstd::prelude::*;

verus! {

/// The parameters of the pallet. Each executable function returns the value of the specification
/// function beside it.
pub trait Config {
    /// The balance that stands for a block number.
    spec fn block_number_to_balance_spec(n: BlockNumber) -> Balance;

    /// The least amount that a vested transfer moves.
    spec fn min_vested_transfer_spec() -> Balance;

    /// How many vesting schedules an account may have at a given moment.
    spec fn max_vesting_schedules_spec() -> u32;

    /// Convert the block number into a balance.
    fn block_number_to_balance(n: BlockNumber) -> (balance: Balance)
        ensures
            balance == Self::block_number_to_balance_spec(n),
    ;

    /// The minimum amount transferred to call `vested_transfer`.
    fn min_vested_transfer() -> (amount: Balance)
        ensures
            amount == Self::min_vested_transfer_spec(),
    ;

    /// Maximum number of vesting schedules an account may have at a given moment.
    fn max_vesting_schedules() -> (max: u32)
        ensures
            max == Self::max_vesting_schedules_spec(),
    ;
}

/// Every block number stands for the balance of the same value.
pub open spec fn converts_exactly<T: Config>() -> bool {
    forall|n: BlockNumber| #[trigger] T::block_number_to_balance_spec(n) == n
}

/// A later block never stands for a smaller balance.
pub open spec fn converts_in_order<T: Config>() -> bool {
    forall|a: BlockNumber, b: BlockNumber|
        a <= b ==> #[trigger] T::block_number_to_balance_spec(a)
            <= #[trigger] T::block_number_to_balance_spec(b)
}

/// Every block counts the same: what the blocks between two others convert to is the difference of
/// what those two convert to.
pub open spec fn converts_evenly<T: Config>() -> bool {
    forall|a: BlockNumber, b: BlockNumber|
        a <= b ==> #[trigger] T::block_number_to_balance_spec(blocks_since(a, b))
            == T::block_number_to_balance_spec(b) - T::block_number_to_balance_spec(a)
}

/// Where every block counts the same, zero stands for zero, and order is kept.
pub proof fn law_even_conversions<T: Config>()
    requires
        converts_evenly::<T>(),
    ensures
        T::block_number_to_balance_spec(0) == 0,
        converts_in_order::<T>(),
{
    assert(T::block_number_to_balance_spec(blocks_since(0, 0)) == 0);
    assert forall|a: BlockNumber, b: BlockNumber|
        a <= b implies #[trigger] T::block_number_to_balance_spec(a)
        <= #[trigger] T::block_number_to_balance_spec(b) by {
        assert(T::block_number_to_balance_spec(blocks_since(a, b)) >= 0);
    }
}

/// Where every block number stands for the balance of the same value, every block counts the same.
pub proof fn law_exact_conversions_are_even<T: Config>()
    requires
        converts_exactly::<T>(),
    ensures
        converts_evenly::<T>(),
{
}

/// Parameters fixed at compile time, with block numbers that convert to the balance of the same
/// value.
pub struct ConstConfig<const MIN_VESTED_TRANSFER: u128, const MAX_VESTING_SCHEDULES: u32>;

impl<const MIN_VESTED_TRANSFER: u128, const MAX_VESTING_SCHEDULES: u32> Config for ConstConfig<
    MIN_VESTED_TRANSFER,
    MAX_VESTING_SCHEDULES,
> {
    open spec fn block_number_to_balance_spec(n: BlockNumber) -> Balance {
        n as Balance
    }

    open spec fn min_vested_transfer_spec() -> Balance {
        MIN_VESTED_TRANSFER
    }

    open spec fn max_vesting_schedules_spec() -> u32 {
        MAX_VESTING_SCHEDULES
    }

    fn block_number_to_balance(n: BlockNumber) -> Balance {
        n as Balance
    }

    fn min_vested_transfer() -> Balance {
        MIN_VESTED_TRANSFER
    }

    fn max_vesting_schedules() -> u32 {
        MAX_VESTING_SCHEDULES
    }
}

/// Under parameters fixed at compile time block numbers keep their value, and with it their order
/// and their distances.
pub proof fn law_const_config_converts_exactly<
    const MIN_VESTED_TRANSFER: u128,
    const MAX_VESTING_SCHEDULES: u32,
>()
    ensures
        converts_exactly::<ConstConfig<MIN_VESTED_TRANSFER, MAX_VESTING_SCHEDULES>>(),
        converts_in_order::<ConstConfig<MIN_VESTED_TRANSFER, MAX_VESTING_SCHEDULES>>(),
        converts_evenly::<ConstConfig<MIN_VESTED_TRANSFER, MAX_VESTING_SCHEDULES>>(),
        ConstConfig::<
            MIN_VESTED_TRANSFER,
            MAX_VESTING_SCHEDULES,
        >::min_vested_transfer_spec() == MIN_VESTED_TRANSFER,
        ConstConfig::<
            MIN_VESTED_TRANSFER,
            MAX_VESTING_SCHEDULES,
        >::max_vesting_schedules_spec() == MAX_VESTING_SCHEDULES,
{
}

} // verus!
