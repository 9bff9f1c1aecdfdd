use dao_voting::balance::{get_wallet_token_balance, validate_voter_balance};
use dao_voting::requests::{cast_vote, check_membership, parse_request, process_instruction,
    Outcome, Request};
use dao_voting::rewards::distribute_reward;
use dao_voting::state::{DAOState, WalletId};
use dao_voting::VoteError;

fn wallet(tag: u8) -> WalletId {
    WalletId { bytes: vec![tag; 32] }
}

fn token_program_id() -> WalletId {
    WalletId { bytes: spl_token::id().to_bytes().to_vec() }
}

/// A packed, initialized token account record holding `amount` tokens.
fn token_record(amount: u64) -> Vec<u8> {
    let mut rec = vec![0u8; 165];
    rec[64..72].copy_from_slice(&amount.to_le_bytes());
    rec[108] = 1;
    rec
}

#[test]
fn balance_reads_amount_from_record() {
    let tp = token_program_id();
    let rec = token_record(5000);
    assert_eq!(get_wallet_token_balance(&rec, &tp, &tp), Ok(5000));
    let rec = token_record(u64::MAX);
    assert_eq!(get_wallet_token_balance(&rec, &tp, &tp), Ok(u64::MAX));
}

#[test]
fn balance_rejects_owner_mismatch() {
    let rec = token_record(5000);
    let r = get_wallet_token_balance(&rec, &wallet(9), &token_program_id());
    assert_eq!(r, Err(VoteError::InvalidAccountData));
}

#[test]
fn balance_rejects_uninitialized_record() {
    let tp = token_program_id();
    let mut rec = token_record(5000);
    rec[108] = 0;
    assert_eq!(get_wallet_token_balance(&rec, &tp, &tp), Err(VoteError::InvalidAccountData));
}

#[test]
fn balance_rejects_wrong_length() {
    let tp = token_program_id();
    let rec = vec![0u8; 164];
    assert_eq!(get_wallet_token_balance(&rec, &tp, &tp), Err(VoteError::InvalidAccountData));
}

#[test]
fn zero_reward_distributes_nothing_and_succeeds() {
    let r = distribute_reward(&wallet(1), 0, &wallet(2), &wallet(3));
    assert!(matches!(r, Ok(None)));
}

#[test]
fn positive_reward_builds_a_transfer() {
    let tp = token_program_id();
    let r = distribute_reward(&wallet(1), 225, &wallet(2), &tp);
    let ix = r.expect("the canonical token program accepts").expect("a transfer is owed");
    assert_eq!(ix.program_id, spl_token::id());
    let mut expected = vec![3u8];
    expected.extend_from_slice(&225u64.to_le_bytes());
    assert_eq!(ix.data, expected);
    assert_eq!(ix.accounts.len(), 3);
    assert_eq!(ix.accounts[0].pubkey.to_bytes(), [2u8; 32]);
    assert_eq!(ix.accounts[1].pubkey.to_bytes(), [1u8; 32]);
    assert_eq!(ix.accounts[2].pubkey.to_bytes(), [2u8; 32]);
}

#[test]
fn foreign_token_program_is_rejected() {
    let r = distribute_reward(&wallet(1), 225, &wallet(2), &wallet(3));
    assert!(matches!(r, Err(VoteError::TransferRejected)));
}

#[test]
fn parse_request_decodes_opcodes() {
    assert_eq!(parse_request(&vec![0, 0]), Ok(Request::CheckMembership));
    assert_eq!(parse_request(&vec![1, 15]), Ok(Request::CastVote { percentage: 15 }));
    assert_eq!(parse_request(&vec![2, 0]), Err(VoteError::MalformedRequest));
    assert_eq!(parse_request(&vec![1]), Err(VoteError::MalformedRequest));
    assert_eq!(parse_request(&Vec::new()), Err(VoteError::MalformedRequest));
}

#[test]
fn membership_check_accepts_members() {
    let tp = token_program_id();
    assert_eq!(check_membership(&token_record(5000), &tp, &tp), Ok(()));
}

#[test]
fn membership_check_rejects_non_members() {
    let tp = token_program_id();
    let r = check_membership(&token_record(1000), &tp, &tp);
    assert_eq!(r, Err(VoteError::NotEligibleForMembership));
    let r = check_membership(&token_record(250001), &tp, &tp);
    assert_eq!(r, Err(VoteError::NotEligibleForMembership));
}

#[test]
fn cast_vote_end_to_end() {
    let tp = token_program_id();
    let state_record = DAOState::new().serialize();
    let outcome = cast_vote(
        wallet(1),
        &token_record(5000),
        &tp,
        &tp,
        &state_record,
        15,
        &wallet(2),
    )
    .expect("a 5000-token wallet casts at 15%");
    assert_eq!(outcome.vote_amount, 750);
    assert_eq!(outcome.reward, 225);
    assert_eq!(outcome.new_state.votes.len(), 1);
    assert_eq!(outcome.new_state.votes[0].voter.bytes, vec![1u8; 32]);
    assert_eq!(outcome.new_state.votes[0].tokens_voted, 750);
    assert_eq!(outcome.new_state.votes[0].reward, 225);
    let ix = outcome.transfer.expect("a 225-token transfer is owed");
    let mut expected = vec![3u8];
    expected.extend_from_slice(&225u64.to_le_bytes());
    assert_eq!(ix.data, expected);
    // The persisted bytes decode back to the updated state.
    let back = DAOState::deserialize(&outcome.new_state_bytes).expect("the encoding decodes");
    assert_eq!(back.votes.len(), 1);
    assert_eq!(back.votes[0].voter.bytes, vec![1u8; 32]);
    assert_eq!(back.votes[0].tokens_voted, 750);
    assert_eq!(back.votes[0].reward, 225);
}

#[test]
fn cast_vote_appends_to_existing_votes() {
    let tp = token_program_id();
    let mut prior = DAOState::new();
    prior.add_vote(wallet(7), 2000, 600);
    let state_record = prior.serialize();
    let outcome = cast_vote(
        wallet(1),
        &token_record(5000),
        &tp,
        &tp,
        &state_record,
        15,
        &wallet(2),
    )
    .expect("the second vote is accepted");
    assert_eq!(outcome.new_state.votes.len(), 2);
    assert_eq!(outcome.new_state.votes[0].voter.bytes, vec![7u8; 32]);
    assert_eq!(outcome.new_state.votes[1].voter.bytes, vec![1u8; 32]);
}

#[test]
fn cast_vote_rejects_excluded_balance() {
    let tp = token_program_id();
    let state_record = DAOState::new().serialize();
    let r = cast_vote(wallet(1), &token_record(2500), &tp, &tp, &state_record, 15, &wallet(2));
    assert!(matches!(r, Err(VoteError::NotEligibleToVote)));
}

#[test]
fn cast_vote_rejects_bad_percentage() {
    let tp = token_program_id();
    let state_record = DAOState::new().serialize();
    let r = cast_vote(wallet(1), &token_record(5000), &tp, &tp, &state_record, 9, &wallet(2));
    assert!(matches!(r, Err(VoteError::InvalidVotePercentage)));
    let r = cast_vote(wallet(1), &token_record(5000), &tp, &tp, &state_record, 26, &wallet(2));
    assert!(matches!(r, Err(VoteError::InvalidVotePercentage)));
}

#[test]
fn cast_vote_rejects_corrupt_state() {
    let tp = token_program_id();
    let r = cast_vote(wallet(1), &token_record(5000), &tp, &tp, &vec![0u8; 5], 15, &wallet(2));
    assert!(matches!(r, Err(VoteError::StateCorrupt)));
}

#[test]
fn process_instruction_dispatches_membership() {
    let tp = token_program_id();
    let state_record = DAOState::new().serialize();
    let r = process_instruction(
        &vec![0, 0],
        wallet(1),
        &token_record(5000),
        &tp,
        &tp,
        &state_record,
        &wallet(2),
    );
    assert!(matches!(r, Ok(Outcome::MembershipOk)));
}

#[test]
fn process_instruction_dispatches_cast_vote() {
    let tp = token_program_id();
    let state_record = DAOState::new().serialize();
    let r = process_instruction(
        &vec![1, 15],
        wallet(1),
        &token_record(5000),
        &tp,
        &tp,
        &state_record,
        &wallet(2),
    );
    match r {
        Ok(Outcome::VoteCast(outcome)) => {
            assert_eq!(outcome.vote_amount, 750);
            assert_eq!(outcome.reward, 225);
        },
        _ => panic!("a valid cast-vote request commits"),
    }
}

#[test]
fn process_instruction_rejects_malformed_payloads() {
    let tp = token_program_id();
    let state_record = DAOState::new().serialize();
    let r = process_instruction(
        &vec![9, 0],
        wallet(1),
        &token_record(5000),
        &tp,
        &tp,
        &state_record,
        &wallet(2),
    );
    assert!(matches!(r, Err(VoteError::MalformedRequest)));
    let r = process_instruction(
        &vec![1],
        wallet(1),
        &token_record(5000),
        &tp,
        &tp,
        &state_record,
        &wallet(2),
    );
    assert!(matches!(r, Err(VoteError::MalformedRequest)));
}

#[test]
fn validate_voter_balance_applies_thresholds() {
    let tp = token_program_id();
    let r = validate_voter_balance(&token_record(5000), &tp, &tp, 1001, 2500);
    assert_eq!(r, Ok(5000));
    let r = validate_voter_balance(&token_record(2500), &tp, &tp, 1001, 2500);
    assert_eq!(r, Err(VoteError::NotEligibleToVote));
    let r = validate_voter_balance(&token_record(1000), &tp, &tp, 1001, 2500);
    assert_eq!(r, Err(VoteError::NotEligibleToVote));
    let r = validate_voter_balance(&token_record(5000), &wallet(9), &tp, 1001, 2500);
    assert_eq!(r, Err(VoteError::InvalidAccountData));
}
