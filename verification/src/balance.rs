//! Balance resolver: reads a wallet's token holding from an external token
//! account record and validates that the record belongs to the expected
//! token program. Read-only; the balance is re-read on every request.

use vstd::prelude::*;

use crate::state::{le64, WalletId};
use crate::VoteError;

verus! {

/// Byte length of a packed token account record.
pub const TOKEN_RECORD_LEN: usize = 165;

/// A 4-byte little-endian optional-field tag at `off` that holds 0 or 1.
pub open spec fn coption_tag_ok(b: Seq<u8>, off: int) -> bool {
    (b[off] == 0 || b[off] == 1) && b[off + 1] == 0 && b[off + 2] == 0 && b[off + 3] == 0
}

/// The byte layouts that decode as an initialized token account record:
/// exactly `TOKEN_RECORD_LEN` bytes; valid optional-field tags for the
/// delegate, native and close-authority fields; and a state byte that marks
/// the record initialized or frozen.
pub open spec fn valid_token_record(b: Seq<u8>) -> bool {
    &&& b.len() == TOKEN_RECORD_LEN
    &&& coption_tag_ok(b, 72)
    &&& (b[108] == 1 || b[108] == 2)
    &&& coption_tag_ok(b, 109)
    &&& coption_tag_ok(b, 129)
}

/// The token amount a record carries, little endian in bytes 64..72.
pub open spec fn token_amount_of(b: Seq<u8>) -> u64 {
    le64(b.subrange(64, 72)) as u64
}

/// Relies on `spl_token::state::Account::unpack` (spl-token-interface's
/// `Account` packing): it succeeds exactly on a 165-byte record whose three
/// optional-field tags are little-endian 0 or 1 and whose state byte is 1
/// (initialized) or 2 (frozen), and returns the record whose `amount` is the
/// little-endian value of bytes 64..72.
#[verifier::external_body]
#[allow(deprecated)]
fn unpack_token_amount(data: &Vec<u8>) -> (r: Result<u64, VoteError>)
    ensures
        r is Ok <==> valid_token_record(data@),
        r is Ok ==> r->Ok_0 == token_amount_of(data@),
        r is Err ==> r->Err_0 == VoteError::InvalidAccountData,
{
    match <spl_token::state::Account as spl_token::solana_program::program_pack::Pack>::unpack(
        data.as_slice(),
    ) {
        Ok(account) => Ok(account.amount),
        Err(_) => Err(VoteError::InvalidAccountData),
    }
}

/// Resolves a wallet's token balance: decodes the holding record and demands
/// that the record is owned by the expected token program. Succeeds exactly
/// on a valid record with a matching owner; every failure is
/// `InvalidAccountData`.
pub fn get_wallet_token_balance(
    token_record: &Vec<u8>,
    record_owner: &WalletId,
    token_program: &WalletId,
) -> (r: Result<u64, VoteError>)
    ensures
        r is Ok <==> valid_token_record(token_record@) && record_owner@ == token_program@,
        r is Ok ==> r->Ok_0 == token_amount_of(token_record@),
        r is Err ==> r->Err_0 == VoteError::InvalidAccountData,
{
    let balance = match unpack_token_amount(token_record) {
        Ok(b) => b,
        Err(e) => {
            return Err(e);
        },
    };
    if !record_owner.matches_id(token_program) {
        return Err(VoteError::InvalidAccountData);
    }
    Ok(balance)
}

/// Resolves the balance and applies the thresholds the caller supplies in one
/// step: the balance must reach `min_balance` and strictly exceed
/// `excluded_balance`, else the voter is rejected with `NotEligibleToVote`.
pub fn validate_voter_balance(
    token_record: &Vec<u8>,
    record_owner: &WalletId,
    token_program: &WalletId,
    min_balance: u64,
    excluded_balance: u64,
) -> (r: Result<u64, VoteError>)
    ensures
        r is Ok <==> valid_token_record(token_record@) && record_owner@ == token_program@
            && token_amount_of(token_record@) >= min_balance && token_amount_of(token_record@)
            > excluded_balance,
        r is Ok ==> r->Ok_0 == token_amount_of(token_record@),
        r is Err && valid_token_record(token_record@) && record_owner@ == token_program@
            ==> r->Err_0 == VoteError::NotEligibleToVote,
        r is Err && !(valid_token_record(token_record@) && record_owner@ == token_program@)
            ==> r->Err_0 == VoteError::InvalidAccountData,
{
    let balance = match get_wallet_token_balance(token_record, record_owner, token_program) {
        Ok(b) => b,
        Err(e) => {
            return Err(e);
        },
    };
    if balance < min_balance || balance <= excluded_balance {
        return Err(VoteError::NotEligibleToVote);
    }
    Ok(balance)
}

} // verus!
