//! Reward authorizer: decides whether a payout is owed for a cast vote and
//! constructs the token-transfer instruction that moves it from the reward
//! source to the voter. Submitting the instruction to the ledger is the
//! surrounding program's step; this module only builds and authorizes it.

use vstd::prelude::*;

use crate::state::WalletId;
use crate::VoteError;

verus! {

/// A ledger instruction of the external runtime; opaque here.
#[verifier::external_type_specification]
#[verifier::external_body]
pub struct ExInstruction(solana_instruction::Instruction);

/// Whether a 32-byte identity is the fungible-token program's canonical
/// identity, as `spl_token::check_program_account` accepts it.
pub uninterp spec fn is_spl_token_program(id: Seq<u8>) -> bool;

/// Relies on `spl_token::instruction::transfer`: it succeeds exactly when the
/// given token-program identity passes `check_program_account` (equals the
/// canonical token program identity), and then returns the transfer
/// instruction for (source, destination, authority, amount).
#[verifier::external_body]
#[allow(deprecated)]
fn build_transfer(
    token_program: &WalletId,
    source: &WalletId,
    destination: &WalletId,
    authority: &WalletId,
    amount: u64,
) -> (r: Result<solana_instruction::Instruction, VoteError>)
    requires
        token_program@.len() == 32,
        source@.len() == 32,
        destination@.len() == 32,
        authority@.len() == 32,
    ensures
        r is Ok <==> is_spl_token_program(token_program@),
        r is Err ==> r->Err_0 == VoteError::TransferRejected,
{
    let tp = solana_pubkey::Pubkey::new_from_array(token_program.bytes[..].try_into().unwrap());
    let src = solana_pubkey::Pubkey::new_from_array(source.bytes[..].try_into().unwrap());
    let dst = solana_pubkey::Pubkey::new_from_array(destination.bytes[..].try_into().unwrap());
    let auth = solana_pubkey::Pubkey::new_from_array(authority.bytes[..].try_into().unwrap());
    match spl_token::instruction::transfer(&tp, &src, &dst, &auth, &[], amount) {
        Ok(ix) => Ok(ix),
        Err(_) => Err(VoteError::TransferRejected),
    }
}

/// Decides the payout for a cast vote. A zero reward is an explicit no-op
/// success: no transfer is ever submitted for it. A positive reward yields
/// the instruction moving `reward` tokens from the reward source to the
/// wallet, authorized by the reward source; the caller submits it under the
/// program-derived signing authority.
pub fn distribute_reward(
    wallet_address: &WalletId,
    reward: u64,
    reward_account: &WalletId,
    token_program: &WalletId,
) -> (r: Result<Option<solana_instruction::Instruction>, VoteError>)
    requires
        wallet_address.wf(),
        reward_account.wf(),
        token_program.wf(),
    ensures
        reward == 0 ==> r is Ok && r->Ok_0 is None,
        reward > 0 ==> (r is Ok <==> is_spl_token_program(token_program@)),
        reward > 0 && r is Ok ==> r->Ok_0 is Some,
        r is Err ==> r->Err_0 == VoteError::TransferRejected,
{
    if reward == 0 {
        return Ok(None);
    }
    match build_transfer(token_program, reward_account, wallet_address, reward_account, reward) {
        Ok(ix) => Ok(Some(ix)),
        Err(e) => Err(e),
    }
}

} // verus!
