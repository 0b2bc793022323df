//! Properties of the protocol that relate several operations, proved over the
//! state machine that the operations' contracts are stated in.
use vstd::prelude::*;
use crate::account::{is_fresh_record, Ciphertexts, PublicKey, VoidPrivateAccount};
use crate::committer::AccountCreatedEvent;
use crate::error::ErrorCode;
use crate::protocol::{
    callback_next, callback_result, is_requested, protocol_inv, request_init_next,
    request_init_result, status, AccountStatus, ProtocolState,
};
use crate::provenance::{provenance_valid, ComputationOutput, ComputationPayload};
use crate::tracker::ComputationRequest;

verus! {

/// An owner for whom no account was ever requested is `Uninitialized`, and
/// the record that a request gives it has zero blocks and nonce zero.
pub proof fn lemma_unrequested_owner_is_uninitialized(
    s: ProtocolState,
    owner: PublicKey,
    offset: u64,
    nonce: u128,
    t: ProtocolState,
)
    requires
        protocol_inv(s),
        !s.accounts.contains_key(owner),
        request_init_next(s, owner, offset, nonce, t),
    ensures
        status(s, owner) == AccountStatus::Uninitialized,
        request_init_result(s, owner, offset, nonce) is Ok ==> is_fresh_record(
            t.accounts[owner],
            owner,
        ),
{
}

/// Every record that does not hold a committed result, whether or not a
/// request for it is outstanding, has zero blocks and nonce zero.
pub proof fn lemma_uncommitted_record_is_zero(s: ProtocolState, owner: PublicKey)
    requires
        protocol_inv(s),
        s.accounts.contains_key(owner),
        status(s, owner) != AccountStatus::Committed,
    ensures
        is_fresh_record(s.accounts[owner], owner),
{
}

/// Once an account has been requested, a second request for the same owner,
/// under any offset, is refused with `AlreadyExists` and changes nothing.
pub proof fn lemma_second_request_for_owner_refused(
    s: ProtocolState,
    owner: PublicKey,
    offset: u64,
    nonce: u128,
    t: ProtocolState,
    offset2: u64,
    nonce2: u128,
    u: ProtocolState,
)
    requires
        protocol_inv(s),
        request_init_result(s, owner, offset, nonce) is Ok,
        request_init_next(s, owner, offset, nonce, t),
        request_init_next(t, owner, offset2, nonce2, u),
    ensures
        request_init_result(t, owner, offset2, nonce2) == Err::<ComputationRequest, ErrorCode>(
            ErrorCode::AlreadyExists,
        ),
        u == t,
{
    let key = (s.circuit_id, offset);
    assert(t.pending.contains_key(key) && t.pending[key].target == owner);
    assert(is_requested(t, owner));
}

/// An offset that is outstanding cannot be reused by a request for another,
/// uninitialized owner: it is refused with `DuplicateOffset`.
pub proof fn lemma_reused_offset_refused(
    s: ProtocolState,
    owner: PublicKey,
    offset: u64,
    nonce: u128,
    t: ProtocolState,
    other: PublicKey,
    nonce2: u128,
)
    requires
        protocol_inv(s),
        request_init_result(s, owner, offset, nonce) is Ok,
        request_init_next(s, owner, offset, nonce, t),
        other != owner,
        status(s, other) == AccountStatus::Uninitialized,
    ensures
        request_init_result(t, other, offset, nonce2) == Err::<ComputationRequest, ErrorCode>(
            ErrorCode::DuplicateOffset,
        ),
{
    let key = (s.circuit_id, offset);
    assert(t.pending.contains_key(key));
    if is_requested(t, other) {
        let k = choose|k: (u32, u64)| #[trigger]
            t.pending.contains_key(k) && t.pending[k].target == other;
        if k != key {
            assert(s.pending.contains_key(k));
        }
    }
    if s.accounts.contains_key(other) {
        assert(t.accounts[other] == s.accounts[other]);
    }
}

/// A verified success for an outstanding request commits its blocks and
/// nonce to the target record exactly once: a second delivery for the same
/// offset, whatever it holds, is refused with `NotFound` and changes nothing.
pub proof fn lemma_success_commits_once(
    s: ProtocolState,
    owner: PublicKey,
    offset: u64,
    output: ComputationOutput,
    ciphertexts: Ciphertexts,
    nonce: u128,
    output2: ComputationOutput,
    signature_verified2: bool,
)
    requires
        protocol_inv(s),
        s.pending.contains_key((s.circuit_id, offset)),
        s.pending[(s.circuit_id, offset)].target == owner,
        output.payload == (ComputationPayload::Success { ciphertexts, nonce }),
        provenance_valid(output, s.cluster, s.pending[(s.circuit_id, offset)], true),
    ensures
        ({
            let t = callback_next(s, offset, output, true);
            &&& callback_result(s, offset, output, true) == Ok::<AccountCreatedEvent, ErrorCode>(
                AccountCreatedEvent { account: owner, owner },
            )
            &&& t.accounts == s.accounts.insert(
                owner,
                VoidPrivateAccount { owner, state_nonce: nonce, encrypted_state: ciphertexts },
            )
            &&& status(s, owner) == AccountStatus::Requested
            &&& callback_result(t, offset, output2, signature_verified2) == Err::<
                AccountCreatedEvent,
                ErrorCode,
            >(ErrorCode::NotFound)
            &&& callback_next(t, offset, output2, signature_verified2) == t
        }),
{
    let key = (s.circuit_id, offset);
    assert(s.pending.contains_key(key) && s.pending[key].target == owner);
}

/// An output whose provenance does not check out is refused with
/// `VerificationFailed`; the record stays as it was, the owner is
/// `Uninitialized` again, and a new request for it is accepted.
pub proof fn lemma_unverified_output_rejected(
    s: ProtocolState,
    owner: PublicKey,
    offset: u64,
    output: ComputationOutput,
    signature_verified: bool,
    offset2: u64,
    nonce2: u128,
)
    requires
        protocol_inv(s),
        s.pending.contains_key((s.circuit_id, offset)),
        s.pending[(s.circuit_id, offset)].target == owner,
        !provenance_valid(output, s.cluster, s.pending[(s.circuit_id, offset)], signature_verified),
        offset2 == offset || !s.pending.contains_key((s.circuit_id, offset2)),
    ensures
        ({
            let t = callback_next(s, offset, output, signature_verified);
            &&& callback_result(s, offset, output, signature_verified) == Err::<
                AccountCreatedEvent,
                ErrorCode,
            >(ErrorCode::VerificationFailed)
            &&& t.accounts == s.accounts
            &&& status(t, owner) == AccountStatus::Uninitialized
            &&& request_init_result(t, owner, offset2, nonce2) is Ok
        }),
{
    lemma_settled_owner_uninitialized(s, owner, offset);
}

/// An output that reports an aborted computation is refused with
/// `AbortedComputation`; the record stays as it was and the owner is
/// `Uninitialized` again.
pub proof fn lemma_aborted_output_rejected(
    s: ProtocolState,
    owner: PublicKey,
    offset: u64,
    output: ComputationOutput,
    signature_verified: bool,
)
    requires
        protocol_inv(s),
        s.pending.contains_key((s.circuit_id, offset)),
        s.pending[(s.circuit_id, offset)].target == owner,
        provenance_valid(output, s.cluster, s.pending[(s.circuit_id, offset)], signature_verified),
        output.payload == ComputationPayload::Aborted,
    ensures
        ({
            let t = callback_next(s, offset, output, signature_verified);
            &&& callback_result(s, offset, output, signature_verified) == Err::<
                AccountCreatedEvent,
                ErrorCode,
            >(ErrorCode::AbortedComputation)
            &&& t.accounts == s.accounts
            &&& status(t, owner) == AccountStatus::Uninitialized
        }),
{
    lemma_settled_owner_uninitialized(s, owner, offset);
}

/// Settling the one outstanding request of `owner` without a commit leaves
/// it neither requested nor committed.
proof fn lemma_settled_owner_uninitialized(s: ProtocolState, owner: PublicKey, offset: u64)
    requires
        protocol_inv(s),
        s.pending.contains_key((s.circuit_id, offset)),
        s.pending[(s.circuit_id, offset)].target == owner,
    ensures
        ({
            let t = ProtocolState { pending: s.pending.remove((s.circuit_id, offset)), ..s };
            status(t, owner) == AccountStatus::Uninitialized
        }),
{
    let key = (s.circuit_id, offset);
    let t = ProtocolState { pending: s.pending.remove(key), ..s };
    if is_requested(t, owner) {
        let k = choose|k: (u32, u64)| #[trigger]
            t.pending.contains_key(k) && t.pending[k].target == owner;
        assert(s.pending.contains_key(k));
    }
}

} // verus!
