//! The entry of transactional writes.
use vstd::prelude::*;
use crate::data::transact_get::one_account;
use crate::data::transactions::begin_transaction;
use crate::error::{is_validation, validation, StorageError};
use crate::text::str_eq;

verus! {

/// Check a transactional write before it starts: its idempotency token belongs to
/// the account of the first operation, and all operations to one account. An empty
/// write has nothing to do, which is `Ok(false)`.
pub fn transact_write_items(accounts: &Vec<String>, idempotency_account: Option<&str>) -> (r:
    Result<bool, StorageError>)
    ensures
        if accounts@.len() == 0 {
            r == Ok::<bool, StorageError>(false)
        } else if idempotency_account is Some && idempotency_account->0@ != accounts@[0]@ {
            r matches Err(e) && is_validation(
                e,
                "Idempotency account does not match transaction account"@,
            )
        } else if !one_account(accounts@) {
            r matches Err(e) && is_validation(e, "Cross-account transactions not supported"@)
        } else {
            r == Ok::<bool, StorageError>(true)
        },
{
    if accounts.len() > 0 {
        match idempotency_account {
            Some(a) => if !str_eq(a, accounts[0].as_str()) {
                return Err(validation("Idempotency account does not match transaction account"));
            },
            None => {},
        }
    }
    begin_transaction(accounts, idempotency_account)
}

/// Expired idempotency tokens are not removed here: the number removed is zero.
pub fn cleanup_expired_idempotency_tokens(_cutoff_ms: i64) -> (r: Result<u64, StorageError>)
    ensures
        r == Ok::<u64, StorageError>(0),
{
    Ok(0)
}

} // verus!
