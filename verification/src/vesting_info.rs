//! A single vesting schedule.

use crate::config::Config;
use crate::types::{Balance, BlockNumber, Error};
use vstd::prelude::*;

verus! {

/// The blocks from `start` up to `n`, none when `n` comes before `start`.
pub open spec fn blocks_since(start: BlockNumber, n: BlockNumber) -> BlockNumber {
    if n > start {
        (n - start) as BlockNumber
    } else {
        0
    }
}

/// `amount`, or the highest balance when `amount` exceeds it.
pub open spec fn clamp(amount: int) -> Balance {
    if amount > Balance::MAX {
        Balance::MAX
    } else {
        amount as Balance
    }
}

/// Division rounded up, from the quotient and the remainder.
pub proof fn lemma_rounded_up(a: int, b: int)
    requires
        a >= 0,
        b > 0,
    ensures
        a <= b ==> (a + b - 1) / b <= 1,
        a > 0 ==> (a + b - 1) / b >= 1,
        a % b == 0 ==> (a + b - 1) / b == a / b,
        a % b != 0 ==> (a + b - 1) / b == a / b + 1,
        0 <= a / b <= a,
        a % b != 0 && a > b ==> a / b < a,
        ((a + b - 1) / b) * b >= a,
        ((a + b - 1) / b - 1) * b < a,
{
    let q = a / b;
    let r = a % b;
    vstd::arithmetic::div_mod::lemma_fundamental_div_mod(a, b);
    vstd::arithmetic::mul::lemma_mul_is_commutative(b, q);
    assert(0 <= r < b);
    if r == 0 {
        assert((a + b - 1) / b == q) by {
            vstd::arithmetic::div_mod::lemma_fundamental_div_mod_converse(a + b - 1, b, q, b - 1);
        }
        assert((q - 1) * b == q * b - b) by (nonlinear_arith);
    } else {
        assert((q + 1) * b == q * b + b) by (nonlinear_arith);
        assert((a + b - 1) / b == q + 1) by {
            vstd::arithmetic::div_mod::lemma_fundamental_div_mod_converse(
                a + b - 1,
                b,
                q + 1,
                r - 1,
            );
        }
    }
    assert(0 <= q <= a) by (nonlinear_arith)
        requires
            a == q * b + r,
            0 <= r < b,
            a >= 0,
    ;
    if r != 0 {
        assert(q < a) by (nonlinear_arith)
            requires
                a == q * b + r,
                0 < r < b,
                a >= 0,
        ;
    }
    if a <= b {
        assert(q == 0 || (q == 1 && r == 0)) by (nonlinear_arith)
            requires
                a == q * b + r,
                0 <= r < b,
                0 <= a <= b,
                q >= 0,
        ;
    }
    if a > 0 && r == 0 {
        assert(q >= 1) by (nonlinear_arith)
            requires
                a == q * b,
                a > 0,
                b > 0,
                q >= 0,
        ;
    }
}

/// An amount that unlocks linearly: `per_block` with every block after `starting_block`.
#[derive(Clone, Copy, PartialEq, Eq, Structural, Debug)]
pub struct VestingInfo {
    /// Locked amount at schedule creation.
    pub locked: Balance,
    /// Amount that gets unlocked with every block after `starting_block`.
    pub per_block: Balance,
    /// Block at which the unlocking starts.
    pub starting_block: BlockNumber,
}

impl VestingInfo {
    /// What the blocks up to `n` have unlocked, were the schedule without end.
    pub open spec fn unlocked_by<T: Config>(self, n: BlockNumber) -> int {
        T::block_number_to_balance_spec(blocks_since(self.starting_block, n)) * self.per_block
    }

    /// The amount still locked at block `n`.
    pub open spec fn locked_at_spec<T: Config>(self, n: BlockNumber) -> Balance {
        if self.unlocked_by::<T>(n) >= self.locked {
            0
        } else {
            (self.locked - self.unlocked_by::<T>(n)) as Balance
        }
    }

    /// Whether the schedule can never fully unlock its funds.
    pub open spec fn never_ends<T: Config>(self) -> bool {
        self.per_block == 0 || self.locked / self.per_block > T::block_number_to_balance_spec(
            BlockNumber::MAX,
        )
    }

    /// How many blocks it takes to unlock everything: `locked / per_block`, rounded up, and at
    /// least one.
    pub open spec fn duration(self) -> int
        recommends
            self.per_block != 0,
    {
        let blocks = (self.locked + self.per_block - 1) / (self.per_block as int);
        if blocks < 1 {
            1
        } else {
            blocks
        }
    }

    /// The block by which everything has unlocked, as a balance.
    pub open spec fn ending_block<T: Config>(self) -> Balance {
        clamp(T::block_number_to_balance_spec(self.starting_block) + self.duration())
    }

    /// Whether a balance can hold the ending block.
    pub open spec fn ends_in_range<T: Config>(self) -> bool {
        T::block_number_to_balance_spec(self.starting_block) + self.duration() <= Balance::MAX
    }

    /// Whether the ending block has come by block `n`.
    pub open spec fn has_ended<T: Config>(self, n: BlockNumber) -> bool {
        self.ending_block::<T>() <= T::block_number_to_balance_spec(n)
    }

    /// Whether the schedule has ended by block `n` exactly if it locks nothing then.
    pub open spec fn ends_as_it_unlocks<T: Config>(self, n: BlockNumber) -> bool {
        self.has_ended::<T>(n) <==> self.locked_at_spec::<T>(n) == 0
    }

    /// What `validate` answers.
    pub open spec fn validity<T: Config>(self) -> Result<(), Error> {
        if self.locked == 0 {
            Err(Error::InvalidScheduleParams)
        } else if self.never_ends::<T>() {
            Err(Error::InfiniteSchedule)
        } else {
            Ok(())
        }
    }

    /// The schedule with a `per_block` of at most `locked`.
    pub open spec fn corrected(self) -> Self {
        VestingInfo {
            per_block: if self.per_block > self.locked {
                self.locked
            } else {
                self.per_block
            },
            ..self
        }
    }

    /// Instantiate a new `VestingInfo`, whose parameters are taken as they are.
    pub fn new(locked: Balance, per_block: Balance, starting_block: BlockNumber) -> (info: Self)
        ensures
            info == (VestingInfo { locked, per_block, starting_block }),
    {
        VestingInfo { locked, per_block, starting_block }
    }

    /// Validate the parameters of a schedule. This does not check against the minimum of a vested
    /// transfer.
    pub fn validate<T: Config>(&self) -> (result: Result<(), Error>)
        ensures
            result == self.validity::<T>(),
    {
        if self.locked == 0 {
            return Err(Error::InvalidScheduleParams);
        }
        match self.ending_block_as_balance::<T>() {
            Ok(_) => Ok(()),
            Err(error) => Err(error),
        }
    }

    /// Potentially correct the `per_block` of a schedule: more than `locked` cannot unlock in one
    /// block.
    pub fn correct(self) -> (info: Self)
        ensures
            info == self.corrected(),
    {
        let per_block: Balance = if self.per_block > self.locked {
            self.locked
        } else {
            self.per_block
        };
        VestingInfo { locked: self.locked, per_block, starting_block: self.starting_block }
    }

    /// Locked amount at schedule creation.
    pub fn locked(&self) -> (locked: Balance)
        ensures
            locked == self.locked,
    {
        self.locked
    }

    /// Amount that gets unlocked with every block after `starting_block`.
    pub fn per_block(&self) -> (per_block: Balance)
        ensures
            per_block == self.per_block,
    {
        self.per_block
    }

    /// Starting block for unlocking.
    pub fn starting_block(&self) -> (starting_block: BlockNumber)
        ensures
            starting_block == self.starting_block,
    {
        self.starting_block
    }

    /// Amount locked at block `n`.
    pub fn locked_at<T: Config>(&self, n: BlockNumber) -> (locked: Balance)
        ensures
            locked == self.locked_at_spec::<T>(n),
    {
        let vested_block_count: BlockNumber = n.saturating_sub(self.starting_block);
        let vested_block_count: Balance = T::block_number_to_balance(vested_block_count);
        match vested_block_count.checked_mul(self.per_block) {
            Some(to_unlock) => self.locked.saturating_sub(to_unlock),
            // More has unlocked than any balance can hold.
            None => 0,
        }
    }

    /// Block number at which the schedule ends, as a balance. Every schedule takes at least a
    /// block; when `per_block` does not divide `locked`, the last block unlocks the rest.
    pub fn ending_block_as_balance<T: Config>(&self) -> (result: Result<Balance, Error>)
        ensures
            result == (if self.never_ends::<T>() {
                Err(Error::InfiniteSchedule)
            } else {
                Ok(self.ending_block::<T>())
            }),
    {
        if self.per_block == 0 || self.locked / self.per_block > T::block_number_to_balance(
            BlockNumber::MAX,
        ) {
            return Err(Error::InfiniteSchedule);
        }
        proof {
            lemma_rounded_up(self.locked as int, self.per_block as int);
        }
        let duration: Balance = if self.per_block >= self.locked {
            1
        } else if self.locked % self.per_block == 0 {
            self.locked / self.per_block
        } else {
            self.locked / self.per_block + 1
        };
        Ok(T::block_number_to_balance(self.starting_block).saturating_add(duration))
    }
}

} // verus!
