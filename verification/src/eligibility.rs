//! Eligibility policy: pure predicates over a token balance, and the checks
//! that map a failed predicate to its rejection reason.

use vstd::prelude::*;

use crate::{VoteError, MAX_MEMBER_TOKENS, MIN_MEMBER_TOKENS, VOTING_EXCLUDED_BALANCE,
    VOTING_MIN_BALANCE};

verus! {

/// A balance qualifies for membership iff it lies in the closed interval
/// `[MIN_MEMBER_TOKENS, MAX_MEMBER_TOKENS]`; both bounds are inclusive.
pub open spec fn spec_is_member(balance: u64) -> bool {
    MIN_MEMBER_TOKENS <= balance && balance <= MAX_MEMBER_TOKENS
}

/// A balance may vote iff it reaches `VOTING_MIN_BALANCE` and strictly
/// exceeds `VOTING_EXCLUDED_BALANCE`: a balance of exactly
/// `VOTING_EXCLUDED_BALANCE` is excluded.
pub open spec fn spec_can_vote(balance: u64) -> bool {
    balance >= VOTING_MIN_BALANCE && balance > VOTING_EXCLUDED_BALANCE
}

/// Total membership predicate over a balance.
pub fn is_member(balance: u64) -> (r: bool)
    ensures
        r == spec_is_member(balance),
{
    MIN_MEMBER_TOKENS <= balance && balance <= MAX_MEMBER_TOKENS
}

/// Total voting predicate over a balance.
pub fn can_vote(balance: u64) -> (r: bool)
    ensures
        r == spec_can_vote(balance),
{
    balance >= VOTING_MIN_BALANCE && balance > VOTING_EXCLUDED_BALANCE
}

/// Membership variant of the eligibility check: accepts exactly the balances
/// inside the membership interval and rejects every other one with
/// `NotEligibleForMembership`.
pub fn check_eligibility(balance: u64) -> (r: Result<(), VoteError>)
    ensures
        r is Ok <==> spec_is_member(balance),
        r is Err ==> r->Err_0 == VoteError::NotEligibleForMembership,
{
    if balance < MIN_MEMBER_TOKENS || balance > MAX_MEMBER_TOKENS {
        Err(VoteError::NotEligibleForMembership)
    } else {
        Ok(())
    }
}

/// Voting variant of the eligibility check: accepts exactly the balances that
/// may vote and rejects every other one with `NotEligibleToVote`.
pub fn check_voting_eligibility(balance: u64) -> (r: Result<(), VoteError>)
    ensures
        r is Ok <==> spec_can_vote(balance),
        r is Err ==> r->Err_0 == VoteError::NotEligibleToVote,
{
    if balance < VOTING_MIN_BALANCE || balance <= VOTING_EXCLUDED_BALANCE {
        Err(VoteError::NotEligibleToVote)
    } else {
        Ok(())
    }
}

} // verus!
