use vstd::prelude::*;
use crate::account::{is_fresh_record, is_zero_record, PublicKey, VoidPrivateAccount};
use crate::circuit::{init_account_circuit, init_account_circuit_id};
use crate::committer::{apply, committed_record, AccountCreatedEvent};
use crate::error::ErrorCode;
use crate::provenance::{verdict_of, verify_output, ComputationOutput, Verdict};
use crate::store::AccountStore;
use crate::tracker::{key_of, ComputationRequest, RequestTracker};

verus! {

/// The protocol's state as a mathematical value.
pub struct ProtocolState {
    /// The cluster whose signed outputs are accepted.
    pub cluster: PublicKey,
    /// The identifier of the account-initialization computation.
    pub circuit_id: u32,
    pub accounts: Map<PublicKey, VoidPrivateAccount>,
    pub pending: Map<(u32, u64), ComputationRequest>,
}

/// Where an owner's account stands.
#[derive(Clone, Copy, Debug, PartialEq, Eq, Structural)]
pub enum AccountStatus {
    Uninitialized,
    Requested,
    Committed,
}

/// Some outstanding request targets `owner`.
pub open spec fn is_requested(s: ProtocolState, owner: PublicKey) -> bool {
    exists|k: (u32, u64)| #[trigger] s.pending.contains_key(k) && s.pending[k].target == owner
}

/// `owner`'s record holds a committed computation result.
pub open spec fn is_committed(s: ProtocolState, owner: PublicKey) -> bool {
    s.accounts.contains_key(owner) && !is_zero_record(s.accounts[owner])
}

pub open spec fn status(s: ProtocolState, owner: PublicKey) -> AccountStatus {
    if is_requested(s, owner) {
        AccountStatus::Requested
    } else if is_committed(s, owner) {
        AccountStatus::Committed
    } else {
        AccountStatus::Uninitialized
    }
}

/// What holds of every state that the protocol reaches.
pub open spec fn protocol_inv(s: ProtocolState) -> bool {
    &&& forall|o: PublicKey| #[trigger] s.accounts.contains_key(o) ==> s.accounts[o].owner == o
    &&& forall|k: (u32, u64)| #[trigger] s.pending.contains_key(k) ==> key_of(s.pending[k]) == k
    &&& forall|k: (u32, u64)| #[trigger]
        s.pending.contains_key(k) ==> s.accounts.contains_key(s.pending[k].target)
            && is_zero_record(s.accounts[s.pending[k].target])
    &&& forall|k1: (u32, u64), k2: (u32, u64)|
        #[trigger] s.pending.contains_key(k1) && #[trigger] s.pending.contains_key(k2)
            && s.pending[k1].target == s.pending[k2].target ==> k1 == k2
}


/// The request recorded for `owner` under `offset`.
pub open spec fn init_request(
    s: ProtocolState,
    owner: PublicKey,
    offset: u64,
    nonce: u128,
) -> ComputationRequest {
    ComputationRequest {
        circuit_id: s.circuit_id,
        computation_offset: offset,
        nonce,
        target: owner,
    }
}

/// The outcome of asking for `owner`'s account to be initialized under
/// `offset`: the request recorded, or why there is none.
pub open spec fn request_init_result(
    s: ProtocolState,
    owner: PublicKey,
    offset: u64,
    nonce: u128,
) -> Result<ComputationRequest, ErrorCode> {
    if is_requested(s, owner) || is_committed(s, owner) {
        Err(ErrorCode::AlreadyExists)
    } else if s.pending.contains_key((s.circuit_id, offset)) {
        Err(ErrorCode::DuplicateOffset)
    } else {
        Ok(init_request(s, owner, offset, nonce))
    }
}

/// `t` is the state after that request: on success the owner has an
/// uninitialized record (the one it had, if any) and the request is
/// outstanding; on failure nothing changes.
pub open spec fn request_init_next(
    s: ProtocolState,
    owner: PublicKey,
    offset: u64,
    nonce: u128,
    t: ProtocolState,
) -> bool {
    if request_init_result(s, owner, offset, nonce) is Ok {
        &&& t.cluster == s.cluster
        &&& t.circuit_id == s.circuit_id
        &&& t.pending == s.pending.insert(
            (s.circuit_id, offset),
            init_request(s, owner, offset, nonce),
        )
        &&& t.accounts.contains_key(owner)
        &&& t.accounts == s.accounts.insert(owner, t.accounts[owner])
        &&& s.accounts.contains_key(owner) ==> t.accounts[owner] == s.accounts[owner]
        &&& is_fresh_record(t.accounts[owner], owner)
    } else {
        t == s
    }
}

/// The outcome of delivering `output` for `offset`.
pub open spec fn callback_result(
    s: ProtocolState,
    offset: u64,
    output: ComputationOutput,
    signature_verified: bool,
) -> Result<AccountCreatedEvent, ErrorCode> {
    let key = (s.circuit_id, offset);
    if !s.pending.contains_key(key) {
        Err(ErrorCode::NotFound)
    } else {
        let req = s.pending[key];
        match verdict_of(output, s.cluster, req, signature_verified) {
            Verdict::VerificationFailed => Err(ErrorCode::VerificationFailed),
            Verdict::AbortedComputation => Err(ErrorCode::AbortedComputation),
            Verdict::Success { .. } => if s.accounts.contains_key(req.target) {
                Ok(AccountCreatedEvent { account: req.target, owner: s.accounts[req.target].owner })
            } else {
                Err(ErrorCode::NotFound)
            },
        }
    }
}

/// The state after delivering `output` for `offset`: an outstanding request
/// is settled whatever the verdict, and only a verified success writes to
/// the record.
pub open spec fn callback_next(
    s: ProtocolState,
    offset: u64,
    output: ComputationOutput,
    signature_verified: bool,
) -> ProtocolState {
    let key = (s.circuit_id, offset);
    if !s.pending.contains_key(key) {
        s
    } else {
        let req = s.pending[key];
        let settled = ProtocolState { pending: s.pending.remove(key), ..s };
        match verdict_of(output, s.cluster, req, signature_verified) {
            Verdict::Success { ciphertexts, nonce } => if s.accounts.contains_key(req.target) {
                ProtocolState {
                    accounts: s.accounts.insert(
                        req.target,
                        committed_record(s.accounts[req.target], ciphertexts, nonce),
                    ),
                    ..settled
                }
            } else {
                settled
            },
            _ => settled,
        }
    }
}

/// Coordinates the record store, the request tracker, provenance checks and
/// commits for the one supported operation: initializing a confidential
/// account.
pub struct VoidProtocol {
    cluster: PublicKey,
    circuit_id: u32,
    store: AccountStore,
    tracker: RequestTracker,
}

impl View for VoidProtocol {
    type V = ProtocolState;

    closed spec fn view(&self) -> ProtocolState {
        ProtocolState {
            cluster: self.cluster,
            circuit_id: self.circuit_id,
            accounts: self.store@,
            pending: self.tracker@,
        }
    }
}

impl VoidProtocol {
    pub closed spec fn wf(&self) -> bool {
        &&& self.store.wf()
        &&& self.tracker.wf()
        &&& protocol_inv(self@)
        &&& self.circuit_id == init_account_circuit()
    }

    /// A well-formed protocol's state satisfies the invariant that the laws
    /// of the protocol assume.
    pub proof fn lemma_wf_inv(&self)
        requires
            self.wf(),
        ensures
            protocol_inv(self@),
            self@.circuit_id == init_account_circuit(),
    {
    }

    /// Defines the account-initialization computation and sets the protocol
    /// up with the cluster whose outputs it will accept; no account exists
    /// yet.
    pub fn init_account_comp_def(cluster: PublicKey) -> (r: VoidProtocol)
        ensures
            r.wf(),
            r@.cluster == cluster,
            r@.circuit_id == init_account_circuit(),
            r@.accounts == Map::<PublicKey, VoidPrivateAccount>::empty(),
            r@.pending == Map::<(u32, u64), ComputationRequest>::empty(),
    {
        VoidProtocol {
            cluster,
            circuit_id: init_account_circuit_id(),
            store: AccountStore::new(),
            tracker: RequestTracker::new(),
        }
    }

    pub fn cluster(&self) -> (r: PublicKey)
        ensures
            r == self@.cluster,
    {
        self.cluster
    }

    pub fn circuit_id(&self) -> (r: u32)
        ensures
            r == self@.circuit_id,
    {
        self.circuit_id
    }

    /// The record of `owner`, or `NotFound`.
    pub fn get(&self, owner: PublicKey) -> (r: Result<VoidPrivateAccount, ErrorCode>)
        requires
            self.wf(),
        ensures
            self@.accounts.contains_key(owner) ==> r == Ok::<VoidPrivateAccount, ErrorCode>(
                self@.accounts[owner],
            ),
            !self@.accounts.contains_key(owner) ==> r == Err::<VoidPrivateAccount, ErrorCode>(
                ErrorCode::NotFound,
            ),
    {
        self.store.get(owner)
    }

    fn is_committed_exec(&self, owner: PublicKey) -> (r: bool)
        requires
            self.wf(),
        ensures
            r == is_committed(self@, owner),
    {
        match self.store.get(owner) {
            Ok(rec) => !rec.is_uninitialized(),
            Err(_) => false,
        }
    }

    /// Asks for `owner`'s account to be initialized, correlated by
    /// `computation_offset`. Creates the uninitialized record if it does not
    /// exist and records the request; the returned request is the job to hand
    /// to the cluster (its computation, its plaintext nonce and its target).
    /// `AlreadyExists` if the account is requested or initialized already,
    /// else `DuplicateOffset` if the offset is outstanding.
    pub fn create_private_account(
        &mut self,
        owner: PublicKey,
        computation_offset: u64,
        nonce: u128,
    ) -> (r: Result<ComputationRequest, ErrorCode>)
        requires
            old(self).wf(),
        ensures
            final(self).wf(),
            r == request_init_result(old(self)@, owner, computation_offset, nonce),
            request_init_next(old(self)@, owner, computation_offset, nonce, final(self)@),
    {
        let ghost s = self@;
        let requested = self.tracker.targets(owner);
        assert(requested == is_requested(s, owner)) by {
            assert(s.pending == self.tracker@);
        }
        if requested || self.is_committed_exec(owner) {
            return Err(ErrorCode::AlreadyExists);
        }
        let circuit_id = self.circuit_id;
        match self.tracker.register(computation_offset, circuit_id, owner, nonce) {
            Err(e) => {
                return Err(e);
            },
            Ok(()) => {},
        }
        let had_record = match self.store.get(owner) {
            Ok(_) => true,
            Err(_) => false,
        };
        if !had_record {
            let _ = self.store.create(owner);
        }
        let req = ComputationRequest { circuit_id, computation_offset, nonce, target: owner };
        proof {
            let t = self@;
            let key = (circuit_id, computation_offset);
            assert(t.pending == s.pending.insert(key, req));
            assert(t.accounts.contains_key(owner));
            assert(t.accounts =~= s.accounts.insert(owner, t.accounts[owner]));
            assert(is_fresh_record(t.accounts[owner], owner));
            assert forall|o: PublicKey| #[trigger] t.accounts.contains_key(o)
                implies t.accounts[o].owner == o by {
                if o != owner {
                    assert(s.accounts.contains_key(o));
                }
            }
            assert forall|k: (u32, u64)| #[trigger] t.pending.contains_key(k)
                implies key_of(t.pending[k]) == k by {
                if k != key {
                    assert(s.pending.contains_key(k));
                }
            }
            assert forall|k: (u32, u64)| #[trigger] t.pending.contains_key(k)
                implies t.accounts.contains_key(t.pending[k].target)
                && is_zero_record(t.accounts[t.pending[k].target]) by {
                if k != key {
                    assert(s.pending.contains_key(k));
                    assert(s.pending[k].target != owner);
                }
            }
            assert forall|k1: (u32, u64), k2: (u32, u64)|
                #[trigger] t.pending.contains_key(k1) && #[trigger] t.pending.contains_key(k2)
                    && t.pending[k1].target == t.pending[k2].target implies k1 == k2 by {
                if k1 != key {
                    assert(s.pending.contains_key(k1));
                }
                if k2 != key {
                    assert(s.pending.contains_key(k2));
                }
            }
        }
        Ok(req)
    }

    /// Delivers the cluster's output for `computation_offset`.
    /// `signature_verified` is the outcome of checking the output's signature
    /// against the cluster's key. The outstanding request is settled first
    /// (`NotFound` if there is none); then the output's provenance is checked
    /// (`VerificationFailed`) and its tag read (`AbortedComputation`); only a
    /// verified success is written to the target record, and reported.
    pub fn init_account_callback(
        &mut self,
        computation_offset: u64,
        output: &ComputationOutput,
        signature_verified: bool,
    ) -> (r: Result<AccountCreatedEvent, ErrorCode>)
        requires
            old(self).wf(),
        ensures
            final(self).wf(),
            r == callback_result(old(self)@, computation_offset, *output, signature_verified),
            final(self)@ == callback_next(
                old(self)@,
                computation_offset,
                *output,
                signature_verified,
            ),
    {
        let ghost s = self@;
        let ghost key = (self.circuit_id, computation_offset);
        let req = match self.tracker.resolve(computation_offset, self.circuit_id) {
            Err(e) => {
                return Err(e);
            },
            Ok(req) => req,
        };
        proof {
            let t = self@;
            assert(t.pending == s.pending.remove(key));
            assert forall|k: (u32, u64)| #[trigger] t.pending.contains_key(k)
                implies s.pending.contains_key(k)
                && t.pending[k] == s.pending[k] && k != key by {}
        }
        let r = match verify_output(output, self.cluster, &req, signature_verified) {
            Verdict::VerificationFailed => Err(ErrorCode::VerificationFailed),
            Verdict::AbortedComputation => Err(ErrorCode::AbortedComputation),
            Verdict::Success { ciphertexts, nonce } => {
                apply(&mut self.store, req.target, ciphertexts, nonce)
            },
        };
        proof {
            let t = self@;
            assert forall|k: (u32, u64)| #[trigger] t.pending.contains_key(k)
                implies t.accounts.contains_key(t.pending[k].target)
                && is_zero_record(t.accounts[t.pending[k].target]) by {
                assert(s.pending.contains_key(k));
                assert(s.pending[k].target != req.target);
            }
            assert forall|o: PublicKey| #[trigger] t.accounts.contains_key(o)
                implies t.accounts[o].owner == o by {
                assert(s.accounts.contains_key(o));
            }
        }
        r
    }

    /// Where `owner`'s account stands.
    pub fn account_status(&self, owner: PublicKey) -> (r: AccountStatus)
        requires
            self.wf(),
        ensures
            r == status(self@, owner),
    {
        let requested = self.tracker.targets(owner);
        assert(requested == is_requested(self@, owner)) by {
            assert(self@.pending == self.tracker@);
        }
        if requested {
            AccountStatus::Requested
        } else if self.is_committed_exec(owner) {
            AccountStatus::Committed
        } else {
            AccountStatus::Uninitialized
        }
    }
}

} // verus!
