//! Request processing: decodes the inbound payload and runs the two
//! operations the organization exposes — the membership check and the
//! cast-vote flow — short-circuiting on the first failure. The caller hands
//! in the plain values its accounts carry and receives everything a
//! successful request commits: the updated state encoding to persist and the
//! transfer to submit.

use vstd::prelude::*;

use crate::accounting::{compute_vote, spec_reward, spec_vote_amount, MAX_VOTE_PERCENTAGE,
    MIN_VOTE_PERCENTAGE};
use crate::balance::{get_wallet_token_balance, token_amount_of, valid_token_record};
use crate::eligibility::{check_eligibility, check_voting_eligibility, spec_can_vote,
    spec_is_member};
use crate::rewards::{distribute_reward, is_spl_token_program};
use crate::state::{parse_state, state_bytes, DAOState, VoteView, WalletId};
use crate::VoteError;

verus! {

/// A decoded request payload.
#[derive(Debug, Clone, Copy, PartialEq, Eq, Structural)]
pub enum Request {
    /// Opcode 0: report whether the wallet may participate.
    CheckMembership,
    /// Opcode 1: cast a vote weighted by this percentage of the balance.
    CastVote { percentage: u64 },
}

/// Decodes a request payload: at least two bytes; byte 0 is the opcode
/// (0 checks membership, 1 casts a vote), byte 1 the vote percentage.
/// Everything else is a malformed request.
pub fn parse_request(instruction_data: &Vec<u8>) -> (r: Result<Request, VoteError>)
    ensures
        instruction_data@.len() < 2 ==> r == Err::<Request, VoteError>(
            VoteError::MalformedRequest,
        ),
        instruction_data@.len() >= 2 && instruction_data@[0] == 0 ==> r == Ok::<Request, VoteError>(
            Request::CheckMembership,
        ),
        instruction_data@.len() >= 2 && instruction_data@[0] == 1 ==> r == Ok::<Request, VoteError>(
            Request::CastVote { percentage: instruction_data@[1] as u64 },
        ),
        instruction_data@.len() >= 2 && instruction_data@[0] != 0 && instruction_data@[0] != 1
            ==> r == Err::<Request, VoteError>(VoteError::MalformedRequest),
{
    if instruction_data.len() < 2 {
        return Err(VoteError::MalformedRequest);
    }
    let opcode = instruction_data[0];
    if opcode == 0 {
        Ok(Request::CheckMembership)
    } else if opcode == 1 {
        Ok(Request::CastVote { percentage: instruction_data[1] as u64 })
    } else {
        Err(VoteError::MalformedRequest)
    }
}

/// The rejection a membership check ends with, or `None` where it accepts:
/// first the token record and its owner are validated, then the balance is
/// held against the membership interval.
pub open spec fn membership_error(record: Seq<u8>, owner: Seq<u8>, token_program: Seq<u8>) -> Option<
    VoteError,
> {
    if !(valid_token_record(record) && owner == token_program) {
        Some(VoteError::InvalidAccountData)
    } else if !spec_is_member(token_amount_of(record)) {
        Some(VoteError::NotEligibleForMembership)
    } else {
        None
    }
}

/// Checks participation eligibility: resolves the wallet's balance from its
/// token holding record and accepts exactly the balances inside the
/// membership interval.
pub fn check_membership(
    token_record: &Vec<u8>,
    record_owner: &WalletId,
    token_program: &WalletId,
) -> (r: Result<(), VoteError>)
    ensures
        r is Ok <==> membership_error(token_record@, record_owner@, token_program@) is None,
        r is Err ==> Some(r->Err_0) == membership_error(
            token_record@,
            record_owner@,
            token_program@,
        ),
{
    let balance = match get_wallet_token_balance(token_record, record_owner, token_program) {
        Ok(b) => b,
        Err(e) => {
            return Err(e);
        },
    };
    check_eligibility(balance)
}

/// Everything a successful cast-vote request commits: the updated state, its
/// encoding to persist, the derived amounts, and the transfer to submit
/// (`None` exactly for a zero reward).
pub struct CastOutcome {
    pub new_state: DAOState,
    pub new_state_bytes: Vec<u8>,
    pub vote_amount: u64,
    pub reward: u64,
    pub transfer: Option<solana_instruction::Instruction>,
}

/// The rejection a cast-vote request ends with, or `None` where it commits:
/// account validation, voting eligibility, the percentage interval, state
/// decoding and the transfer construction, in this order.
pub open spec fn cast_vote_error(
    record: Seq<u8>,
    owner: Seq<u8>,
    token_program: Seq<u8>,
    state_record: Seq<u8>,
    percentage: u64,
) -> Option<VoteError> {
    if !(valid_token_record(record) && owner == token_program) {
        Some(VoteError::InvalidAccountData)
    } else if !spec_can_vote(token_amount_of(record)) {
        Some(VoteError::NotEligibleToVote)
    } else if !(MIN_VOTE_PERCENTAGE <= percentage && percentage <= MAX_VOTE_PERCENTAGE) {
        Some(VoteError::InvalidVotePercentage)
    } else if parse_state(state_record) is None {
        Some(VoteError::StateCorrupt)
    } else if spec_reward(token_amount_of(record), percentage) > 0 && !is_spl_token_program(
        token_program,
    ) {
        Some(VoteError::TransferRejected)
    } else {
        None
    }
}

/// What a returned `CastOutcome` must hold: the amounts derived by the vote
/// accounting rule, the prior state with exactly this one vote appended, its
/// encoding, and a transfer exactly where the reward is positive.
pub open spec fn good_cast_outcome(
    o: CastOutcome,
    voter: Seq<u8>,
    record: Seq<u8>,
    state_record: Seq<u8>,
    percentage: u64,
) -> bool {
    &&& o.vote_amount == spec_vote_amount(token_amount_of(record), percentage)
    &&& o.reward == spec_reward(token_amount_of(record), percentage)
    &&& parse_state(state_record) is Some
    &&& o.new_state@.qualified_wallets == parse_state(state_record)->Some_0.qualified_wallets
    &&& o.new_state@.votes == parse_state(state_record)->Some_0.votes.push(
        VoteView { voter, tokens_voted: o.vote_amount, reward: o.reward },
    )
    &&& o.new_state@.votes.len() == parse_state(state_record)->Some_0.votes.len() + 1
    &&& o.new_state_bytes@ == state_bytes(o.new_state@)
    &&& (o.transfer is Some <==> o.reward > 0)
}

/// Casts a vote: resolves the balance, checks voting eligibility and the
/// percentage, derives weight and reward, appends the vote to the decoded
/// organization state, re-encodes it, and authorizes the reward payout.
/// Nothing is committed on failure: the caller persists `new_state_bytes`
/// and submits `transfer` only out of a returned outcome.
pub fn cast_vote(
    voter: WalletId,
    token_record: &Vec<u8>,
    record_owner: &WalletId,
    token_program: &WalletId,
    state_record: &Vec<u8>,
    percentage: u64,
    reward_account: &WalletId,
) -> (r: Result<CastOutcome, VoteError>)
    requires
        voter.wf(),
        reward_account.wf(),
        token_program.wf(),
    ensures
        r is Ok <==> cast_vote_error(
            token_record@,
            record_owner@,
            token_program@,
            state_record@,
            percentage,
        ) is None,
        r is Err ==> Some(r->Err_0) == cast_vote_error(
            token_record@,
            record_owner@,
            token_program@,
            state_record@,
            percentage,
        ),
        r is Ok ==> good_cast_outcome(
            r->Ok_0,
            voter@,
            token_record@,
            state_record@,
            percentage,
        ) && r->Ok_0.new_state.wf(),
{
    let balance = match get_wallet_token_balance(token_record, record_owner, token_program) {
        Ok(b) => b,
        Err(e) => {
            return Err(e);
        },
    };
    match check_voting_eligibility(balance) {
        Ok(_) => (),
        Err(e) => {
            return Err(e);
        },
    };
    let (vote_amount, reward) = match compute_vote(balance, percentage) {
        Ok(t) => t,
        Err(e) => {
            return Err(e);
        },
    };
    let mut state = match DAOState::deserialize(state_record) {
        Ok(s) => s,
        Err(e) => {
            return Err(e);
        },
    };
    let transfer = match distribute_reward(&voter, reward, reward_account, token_program) {
        Ok(t) => t,
        Err(e) => {
            return Err(e);
        },
    };
    state.add_vote(voter, vote_amount, reward);
    let new_state_bytes = state.serialize();
    Ok(CastOutcome { new_state: state, new_state_bytes, vote_amount, reward, transfer })
}

/// The outcome of one processed request.
pub enum Outcome {
    /// The wallet may participate.
    MembershipOk,
    /// The vote was accepted; the caller persists and submits what this
    /// carries.
    VoteCast(CastOutcome),
}

/// Processes one inbound request against the organization: decodes the
/// payload and dispatches to the membership check or the cast-vote flow.
pub fn process_instruction(
    instruction_data: &Vec<u8>,
    voter: WalletId,
    token_record: &Vec<u8>,
    record_owner: &WalletId,
    token_program: &WalletId,
    state_record: &Vec<u8>,
    reward_account: &WalletId,
) -> (r: Result<Outcome, VoteError>)
    requires
        voter.wf(),
        reward_account.wf(),
        token_program.wf(),
    ensures
        instruction_data@.len() < 2 || (instruction_data@[0] != 0 && instruction_data@[0] != 1)
            ==> r is Err && r->Err_0 == VoteError::MalformedRequest,
        instruction_data@.len() >= 2 && instruction_data@[0] == 0 ==> {
            &&& r is Ok <==> membership_error(token_record@, record_owner@, token_program@) is None
            &&& r is Ok ==> r->Ok_0 is MembershipOk
            &&& r is Err ==> Some(r->Err_0) == membership_error(
                token_record@,
                record_owner@,
                token_program@,
            )
        },
        instruction_data@.len() >= 2 && instruction_data@[0] == 1 ==> {
            &&& r is Ok <==> cast_vote_error(
                token_record@,
                record_owner@,
                token_program@,
                state_record@,
                instruction_data@[1] as u64,
            ) is None
            &&& r is Err ==> Some(r->Err_0) == cast_vote_error(
                token_record@,
                record_owner@,
                token_program@,
                state_record@,
                instruction_data@[1] as u64,
            )
            &&& r is Ok ==> r->Ok_0 is VoteCast && good_cast_outcome(
                r->Ok_0->VoteCast_0,
                voter@,
                token_record@,
                state_record@,
                instruction_data@[1] as u64,
            )
        },
{
    let request = match parse_request(instruction_data) {
        Ok(q) => q,
        Err(e) => {
            return Err(e);
        },
    };
    match request {
        Request::CheckMembership => {
            match check_membership(token_record, record_owner, token_program) {
                Ok(_) => Ok(Outcome::MembershipOk),
                Err(e) => Err(e),
            }
        },
        Request::CastVote { percentage } => {
            match cast_vote(
                voter,
                token_record,
                record_owner,
                token_program,
                state_record,
                percentage,
                reward_account,
            ) {
                Ok(outcome) => Ok(Outcome::VoteCast(outcome)),
                Err(e) => Err(e),
            }
        },
    }
}

} // verus!

