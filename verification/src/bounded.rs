//! The limit on how many schedules an account may have, enforced by `BoundedVec`.

use crate::config::Config;
use crate::vesting_info::VestingInfo;
use frame_support::traits::Get;
use frame_support::BoundedVec;
use std::marker::PhantomData;
use vstd::prelude::*;

verus! {

/// The limit of `T` as the type parameter of a `BoundedVec`.
pub struct MaxVestingSchedules<T>(PhantomData<T>);

impl<T: Config> Get<u32> for MaxVestingSchedules<T> {
    fn get() -> (max: u32)
        ensures
            max == T::max_vesting_schedules_spec(),
    {
        T::max_vesting_schedules()
    }
}

/// Calls `BoundedVec::try_from`, which takes a vector of at most as many items as the bound, here
/// the limit of `T`, and leaves the items as they are. A longer vector is refused.
#[verifier::external_body]
pub(crate) fn try_from<T: Config>(schedules: Vec<VestingInfo>) -> (result: Result<
    Vec<VestingInfo>,
    Vec<VestingInfo>,
>)
    ensures
        result is Ok <==> schedules@.len() <= T::max_vesting_schedules_spec(),
        result matches Ok(bounded) ==> bounded@ == schedules@,
        result matches Err(refused) ==> refused@ == schedules@,
{
    BoundedVec::<VestingInfo, MaxVestingSchedules<T>>::try_from(schedules).map(
        |bounded| bounded.into_inner(),
    )
}

/// Calls `BoundedVec::try_push`, which appends the item if that keeps the vector within the
/// bound, here the limit of `T`, and hands the item back if it does not. The vector must be within
/// the limit, as a `BoundedVec` always is, so that putting it into one loses nothing.
#[verifier::external_body]
pub(crate) fn try_push<T: Config>(schedules: Vec<VestingInfo>, schedule: VestingInfo) -> (result:
    Result<Vec<VestingInfo>, VestingInfo>)
    requires
        schedules@.len() <= T::max_vesting_schedules_spec(),
    ensures
        result is Ok <==> schedules@.len() < T::max_vesting_schedules_spec(),
        result matches Ok(extended) ==> extended@ == schedules@.push(schedule),
        result matches Err(refused) ==> refused == schedule,
{
    let mut bounded = BoundedVec::<VestingInfo, MaxVestingSchedules<T>>::truncate_from(schedules);
    bounded.try_push(schedule).map(|_| bounded.into_inner())
}

} // verus!
