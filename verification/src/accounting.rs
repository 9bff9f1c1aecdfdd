//! Vote accounting: the deterministic, overflow-checked computation of a
//! vote's weight and its reward from a balance and a requested percentage.

use vstd::prelude::*;
use vstd::arithmetic::div_mod::lemma_div_is_ordered;

use crate::{VoteError, REWARD_PERCENTAGE};

verus! {

/// Smallest accepted vote percentage (inclusive).
pub const MIN_VOTE_PERCENTAGE: u64 = 10;
/// Largest accepted vote percentage (inclusive).
pub const MAX_VOTE_PERCENTAGE: u64 = 25;

/// The weight a vote commits: the balance scaled by the requested
/// percentage, rounded down.
pub open spec fn spec_vote_amount(balance: u64, percentage: u64) -> int {
    (balance * percentage) / 100
}

/// The reward a vote earns: `REWARD_PERCENTAGE` percent of its weight,
/// rounded down.
pub open spec fn spec_reward(balance: u64, percentage: u64) -> int {
    (spec_vote_amount(balance, percentage) * REWARD_PERCENTAGE) / 100
}

/// Derives `(vote weight, reward)` from a balance and a requested percentage.
/// Accepts exactly the percentages in `[MIN_VOTE_PERCENTAGE,
/// MAX_VOTE_PERCENTAGE]` and rejects every other one with
/// `InvalidVotePercentage`, regardless of the balance. The multiplications
/// run at double width, so no balance can overflow them.
pub fn compute_vote(balance: u64, percentage: u64) -> (r: Result<(u64, u64), VoteError>)
    ensures
        r is Ok <==> MIN_VOTE_PERCENTAGE <= percentage <= MAX_VOTE_PERCENTAGE,
        r is Err ==> r->Err_0 == VoteError::InvalidVotePercentage,
        r is Ok ==> r->Ok_0.0 == spec_vote_amount(balance, percentage),
        r is Ok ==> r->Ok_0.1 == spec_reward(balance, percentage),
{
    if percentage < MIN_VOTE_PERCENTAGE || percentage > MAX_VOTE_PERCENTAGE {
        return Err(VoteError::InvalidVotePercentage);
    }
    proof {
        assert(balance * percentage <= (u64::MAX as int) * 25) by (nonlinear_arith)
            requires
                balance <= u64::MAX,
                percentage <= 25,
        ;
        lemma_div_is_ordered(balance * percentage, (u64::MAX as int) * 25, 100);
        assert((u64::MAX as int) * 25 / 100 <= u64::MAX as int);
    }
    let wide: u128 = (balance as u128) * (percentage as u128);
    let amount_wide: u128 = wide / 100;
    let vote_amount: u64 = amount_wide as u64;
    proof {
        assert(vote_amount * REWARD_PERCENTAGE <= (u64::MAX as int) * 30) by (nonlinear_arith)
            requires
                vote_amount <= u64::MAX,
                REWARD_PERCENTAGE == 30,
        ;
        lemma_div_is_ordered(vote_amount * REWARD_PERCENTAGE, (u64::MAX as int) * 30, 100);
        assert((u64::MAX as int) * 30 / 100 <= u64::MAX as int);
    }
    let reward_wide: u128 = (vote_amount as u128) * (REWARD_PERCENTAGE as u128) / 100;
    let reward: u64 = reward_wide as u64;
    Ok((vote_amount, reward))
}

} // verus!
