//! Membership-and-voting core of a token-weighted decentralized organization.
//!
//! The library decides whether a wallet may participate, records a weighted
//! vote against persistent organization state, and authorizes a proportional
//! token reward payout. Reading the host's account list, persisting account
//! data and submitting the transfer to the ledger are left to the surrounding
//! program; this crate works on the plain values those accounts carry.

use vstd::prelude::*;

pub mod accounting;
pub mod balance;
pub mod eligibility;
pub mod requests;
pub mod rewards;
pub mod state;

verus! {

/// Smallest balance that qualifies a wallet for membership (inclusive).
pub const MIN_MEMBER_TOKENS: u64 = 1001;
/// Largest balance that qualifies a wallet for membership (inclusive).
pub const MAX_MEMBER_TOKENS: u64 = 250000;
/// Smallest balance that may vote (inclusive).
pub const VOTING_MIN_BALANCE: u64 = 1001;
/// Balances at or below this value are excluded from voting (strict bound).
pub const VOTING_EXCLUDED_BALANCE: u64 = 2500;
/// Percentage of a vote's weight paid out as a reward.
pub const REWARD_PERCENTAGE: u64 = 30;

/// Every way a request against the organization can fail. A request aborts on
/// the first failure; no partial state change is observable to the caller.
#[derive(Debug, Clone, Copy, PartialEq, Eq, Structural)]
pub enum VoteError {
    /// The request payload is too short or carries an unknown opcode.
    MalformedRequest,
    /// The token holding record does not decode, or is owned by the wrong program.
    InvalidAccountData,
    /// The wallet's balance lies outside the membership interval.
    NotEligibleForMembership,
    /// The wallet's balance does not meet the voting thresholds.
    NotEligibleToVote,
    /// The requested vote percentage lies outside the accepted interval.
    InvalidVotePercentage,
    /// The organization state record does not decode.
    StateCorrupt,
    /// The token transfer could not be constructed for the given token program.
    TransferRejected,
}

} // verus!
