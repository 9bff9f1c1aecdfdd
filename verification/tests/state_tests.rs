use dao_voting::state::{DAOState, Vote, WalletId};
use dao_voting::VoteError;

fn wallet(tag: u8) -> WalletId {
    WalletId { bytes: vec![tag; 32] }
}

fn assert_states_equal(a: &DAOState, b: &DAOState) {
    assert_eq!(a.qualified_wallets.len(), b.qualified_wallets.len());
    for (wa, wb) in a.qualified_wallets.iter().zip(b.qualified_wallets.iter()) {
        assert_eq!(wa.bytes, wb.bytes);
    }
    assert_eq!(a.votes.len(), b.votes.len());
    for (va, vb) in a.votes.iter().zip(b.votes.iter()) {
        assert_eq!(va.voter.bytes, vb.voter.bytes);
        assert_eq!(va.tokens_voted, vb.tokens_voted);
        assert_eq!(va.reward, vb.reward);
    }
}

#[test]
fn wallet_id_from_bytes_accepts_exactly_32() {
    assert!(WalletId::from_bytes(vec![1u8; 32]).is_some());
    assert!(WalletId::from_bytes(vec![1u8; 31]).is_none());
    assert!(WalletId::from_bytes(vec![1u8; 33]).is_none());
}

#[test]
fn wallet_id_matching() {
    assert!(wallet(3).matches_id(&wallet(3)));
    assert!(!wallet(3).matches_id(&wallet(4)));
    let short = WalletId { bytes: vec![3u8; 31] };
    assert!(!wallet(3).matches_id(&short));
}

#[test]
fn add_vote_appends_in_order() {
    let mut state = DAOState::new();
    state.add_vote(wallet(1), 750, 225);
    assert_eq!(state.votes.len(), 1);
    state.add_vote(wallet(2), 2000, 600);
    assert_eq!(state.votes.len(), 2);
    assert_eq!(state.votes[0].voter.bytes, vec![1u8; 32]);
    assert_eq!(state.votes[0].tokens_voted, 750);
    assert_eq!(state.votes[1].voter.bytes, vec![2u8; 32]);
    assert_eq!(state.votes[1].reward, 600);
}

#[test]
fn is_qualified_finds_listed_wallets() {
    let state = DAOState { qualified_wallets: vec![wallet(1), wallet(2)], votes: Vec::new() };
    assert!(state.is_qualified(&wallet(1)));
    assert!(state.is_qualified(&wallet(2)));
    assert!(!state.is_qualified(&wallet(3)));
}

#[test]
fn round_trip_empty_state() {
    let state = DAOState::new();
    let bytes = state.serialize();
    assert_eq!(bytes.len(), 16);
    let back = DAOState::deserialize(&bytes).expect("an encoded state decodes");
    assert_states_equal(&state, &back);
}

#[test]
fn round_trip_keeps_wallets_votes_and_order() {
    let mut state = DAOState {
        qualified_wallets: vec![wallet(10), wallet(11), wallet(12)],
        votes: Vec::new(),
    };
    state.add_vote(wallet(1), 750, 225);
    state.add_vote(wallet(2), 2000, 600);
    state.add_vote(wallet(3), 12345678901234, 99);
    let bytes = state.serialize();
    assert_eq!(bytes.len(), 16 + 3 * 32 + 3 * 48);
    let back = DAOState::deserialize(&bytes).expect("an encoded state decodes");
    assert_states_equal(&state, &back);
}

#[test]
fn deserialize_rejects_short_buffer() {
    let r = DAOState::deserialize(&Vec::new());
    assert!(matches!(r, Err(VoteError::StateCorrupt)));
    let r = DAOState::deserialize(&vec![0u8; 15]);
    assert!(matches!(r, Err(VoteError::StateCorrupt)));
}

#[test]
fn deserialize_rejects_trailing_bytes() {
    let mut state = DAOState::new();
    state.add_vote(wallet(1), 750, 225);
    let mut bytes = state.serialize();
    bytes.push(0);
    let r = DAOState::deserialize(&bytes);
    assert!(matches!(r, Err(VoteError::StateCorrupt)));
}

#[test]
fn deserialize_rejects_truncation() {
    let mut state = DAOState::new();
    state.add_vote(wallet(1), 750, 225);
    let mut bytes = state.serialize();
    bytes.pop();
    let r = DAOState::deserialize(&bytes);
    assert!(matches!(r, Err(VoteError::StateCorrupt)));
}

#[test]
fn deserialize_rejects_overstated_count() {
    // An empty state whose wallet count claims one entry.
    let mut bytes = DAOState::new().serialize();
    bytes[0] = 1;
    let r = DAOState::deserialize(&bytes);
    assert!(matches!(r, Err(VoteError::StateCorrupt)));
}
