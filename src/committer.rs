use vstd::prelude::*;
use crate::account::{Ciphertexts, PublicKey, VoidPrivateAccount};
use crate::error::ErrorCode;
use crate::store::AccountStore;

verus! {

/// Emitted once a computed state has been written to an account.
#[derive(Clone, Copy, Debug, PartialEq, Eq, Structural)]
pub struct AccountCreatedEvent {
    pub account: PublicKey,
    pub owner: PublicKey,
}

/// The record of `account` once `ciphertexts` and `nonce` are written over it.
pub open spec fn committed_record(
    prior: VoidPrivateAccount,
    ciphertexts: Ciphertexts,
    nonce: u128,
) -> VoidPrivateAccount {
    VoidPrivateAccount { owner: prior.owner, state_nonce: nonce, encrypted_state: ciphertexts }
}

/// Writes a verified result to `account`'s record and reports it; `NotFound`
/// if the record does not exist.
pub fn apply(
    store: &mut AccountStore,
    account: PublicKey,
    ciphertexts: Ciphertexts,
    nonce: u128,
) -> (r: Result<AccountCreatedEvent, ErrorCode>)
    requires
        old(store).wf(),
    ensures
        final(store).wf(),
        !old(store)@.contains_key(account) ==> r == Err::<AccountCreatedEvent, ErrorCode>(
            ErrorCode::NotFound,
        ) && final(store)@ == old(store)@,
        old(store)@.contains_key(account) ==> r == Ok::<AccountCreatedEvent, ErrorCode>(
            AccountCreatedEvent { account, owner: old(store)@[account].owner },
        ) && final(store)@ == old(store)@.insert(
            account,
            committed_record(old(store)@[account], ciphertexts, nonce),
        ),
{
    match store.commit(account, ciphertexts, nonce) {
        Err(e) => Err(e),
        Ok(rec) => Ok(AccountCreatedEvent { account, owner: rec.owner }),
    }
}

} // verus!
