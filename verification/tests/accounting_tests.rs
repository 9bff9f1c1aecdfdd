use dao_voting::accounting::compute_vote;
use dao_voting::VoteError;

#[test]
fn compute_vote_example() {
    assert_eq!(compute_vote(10000, 20), Ok((2000, 600)));
}

#[test]
fn compute_vote_scenario_values() {
    assert_eq!(compute_vote(5000, 15), Ok((750, 225)));
}

#[test]
fn compute_vote_rounds_down() {
    // 1234 * 13 / 100 = 160.42 -> 160; 160 * 30 / 100 = 48
    assert_eq!(compute_vote(1234, 13), Ok((160, 48)));
    // 999 * 10 / 100 = 99.9 -> 99; 99 * 30 / 100 = 29.7 -> 29
    assert_eq!(compute_vote(999, 10), Ok((99, 29)));
}

#[test]
fn compute_vote_rejects_percentage_below_range() {
    assert_eq!(compute_vote(10000, 9), Err(VoteError::InvalidVotePercentage));
    assert_eq!(compute_vote(0, 9), Err(VoteError::InvalidVotePercentage));
}

#[test]
fn compute_vote_rejects_percentage_above_range() {
    assert_eq!(compute_vote(10000, 26), Err(VoteError::InvalidVotePercentage));
    assert_eq!(compute_vote(u64::MAX, 100), Err(VoteError::InvalidVotePercentage));
}

#[test]
fn compute_vote_handles_maximum_balance() {
    let expected_amount = (u64::MAX as u128 * 25 / 100) as u64;
    let expected_reward = (expected_amount as u128 * 30 / 100) as u64;
    assert_eq!(compute_vote(u64::MAX, 25), Ok((expected_amount, expected_reward)));
}
