use void_protocol::{
    apply, init_account, init_account_circuit_id, verify_output, AccountCreatedEvent,
    AccountStatus, AccountStore, Ciphertexts, ComputationOutput, ComputationPayload,
    ComputationRequest, ErrorCode, PublicKey, RequestTracker, Verdict, VoidPrivateAccount,
    VoidProtocol,
};

fn cluster() -> PublicKey {
    PublicKey::new(0xc1, 0xc2)
}

fn owner_a() -> PublicKey {
    PublicKey::new(1, 2)
}

fn owner_b() -> PublicKey {
    PublicKey::new(3, 4)
}

fn blocks() -> Ciphertexts {
    let mut b = [[0u8; 32]; 4];
    for (i, block) in b.iter_mut().enumerate() {
        for (j, byte) in block.iter_mut().enumerate() {
            *byte = (i * 32 + j + 1) as u8;
        }
    }
    b
}

fn success(p: &VoidProtocol, offset: u64, nonce: u128) -> ComputationOutput {
    ComputationOutput {
        payload: ComputationPayload::Success { ciphertexts: blocks(), nonce },
        cluster: p.cluster(),
        circuit_id: p.circuit_id(),
        computation_offset: offset,
    }
}

fn aborted(p: &VoidProtocol, offset: u64) -> ComputationOutput {
    ComputationOutput {
        payload: ComputationPayload::Aborted,
        cluster: p.cluster(),
        circuit_id: p.circuit_id(),
        computation_offset: offset,
    }
}

#[test]
fn init_account_plaintext_is_zero() {
    let s = init_account();
    assert_eq!((s.owner_lo, s.owner_hi, s.balance, s.token_mint), (0, 0, 0, 0));
}

#[test]
fn circuit_id_is_derived_from_its_name() {
    assert_eq!(init_account_circuit_id(), arcium_anchor::comp_def_offset("init_account"));
    assert_ne!(init_account_circuit_id(), arcium_anchor::comp_def_offset("init_accounts"));
    let p = VoidProtocol::init_account_comp_def(cluster());
    assert_eq!(p.circuit_id(), init_account_circuit_id());
    assert_eq!(p.cluster(), cluster());
}

#[test]
fn unrequested_owner_is_uninitialized() {
    let p = VoidProtocol::init_account_comp_def(cluster());
    assert_eq!(p.account_status(owner_a()), AccountStatus::Uninitialized);
    assert_eq!(p.get(owner_a()), Err(ErrorCode::NotFound));
}

#[test]
fn requested_record_is_zero() {
    let mut p = VoidProtocol::init_account_comp_def(cluster());
    let req = p.create_private_account(owner_a(), 7, 42).unwrap();
    assert_eq!(
        req,
        ComputationRequest {
            circuit_id: p.circuit_id(),
            computation_offset: 7,
            nonce: 42,
            target: owner_a()
        }
    );
    let rec = p.get(owner_a()).unwrap();
    assert_eq!(rec.owner, owner_a());
    assert_eq!(rec.state_nonce, 0);
    assert_eq!(rec.encrypted_state, [[0u8; 32]; 4]);
    assert!(rec.is_uninitialized());
    assert_eq!(p.account_status(owner_a()), AccountStatus::Requested);
}

#[test]
fn second_request_for_owner_already_exists() {
    let mut p = VoidProtocol::init_account_comp_def(cluster());
    assert!(p.create_private_account(owner_a(), 7, 42).is_ok());
    let before = p.get(owner_a());
    assert_eq!(p.create_private_account(owner_a(), 8, 43), Err(ErrorCode::AlreadyExists));
    assert_eq!(p.get(owner_a()), before);
    // the refused offset was not recorded
    assert_eq!(p.init_account_callback(8, &success(&p, 8, 43), true), Err(ErrorCode::NotFound));
}

#[test]
fn same_offset_for_other_owner_is_duplicate() {
    let mut p = VoidProtocol::init_account_comp_def(cluster());
    assert!(p.create_private_account(owner_a(), 7, 42).is_ok());
    assert_eq!(p.create_private_account(owner_b(), 7, 5), Err(ErrorCode::DuplicateOffset));
    assert_eq!(p.get(owner_b()), Err(ErrorCode::NotFound));
    assert_eq!(p.account_status(owner_b()), AccountStatus::Uninitialized);
}

#[test]
fn success_commits_once_and_replay_is_not_found() {
    let mut p = VoidProtocol::init_account_comp_def(cluster());
    p.create_private_account(owner_a(), 7, 42).unwrap();
    let out = success(&p, 7, 42);
    assert_eq!(
        p.init_account_callback(7, &out, true),
        Ok(AccountCreatedEvent { account: owner_a(), owner: owner_a() })
    );
    let committed = p.get(owner_a()).unwrap();
    let replay = ComputationOutput {
        payload: ComputationPayload::Success { ciphertexts: [[9u8; 32]; 4], nonce: 1 },
        ..out
    };
    assert_eq!(p.init_account_callback(7, &replay, true), Err(ErrorCode::NotFound));
    assert_eq!(p.get(owner_a()), Ok(committed));
    assert_eq!(p.account_status(owner_a()), AccountStatus::Committed);
    assert_eq!(p.create_private_account(owner_a(), 9, 1), Err(ErrorCode::AlreadyExists));
}

#[test]
fn unverified_output_fails_and_owner_can_retry() {
    let mut p = VoidProtocol::init_account_comp_def(cluster());
    p.create_private_account(owner_a(), 7, 42).unwrap();
    let out = success(&p, 7, 42);
    assert_eq!(p.init_account_callback(7, &out, false), Err(ErrorCode::VerificationFailed));
    let rec = p.get(owner_a()).unwrap();
    assert!(rec.is_uninitialized());
    assert_eq!(p.account_status(owner_a()), AccountStatus::Uninitialized);
    assert!(p.create_private_account(owner_a(), 11, 42).is_ok());
    assert_eq!(p.get(owner_a()), Ok(rec));
    assert_eq!(p.account_status(owner_a()), AccountStatus::Requested);
}

#[test]
fn output_from_other_cluster_fails() {
    let mut p = VoidProtocol::init_account_comp_def(cluster());
    p.create_private_account(owner_a(), 7, 42).unwrap();
    let out = ComputationOutput { cluster: PublicKey::new(0xc1, 0xc3), ..success(&p, 7, 42) };
    assert_eq!(p.init_account_callback(7, &out, true), Err(ErrorCode::VerificationFailed));
    assert!(p.get(owner_a()).unwrap().is_uninitialized());
}

#[test]
fn output_for_other_offset_fails() {
    let mut p = VoidProtocol::init_account_comp_def(cluster());
    p.create_private_account(owner_a(), 7, 42).unwrap();
    p.create_private_account(owner_b(), 8, 43).unwrap();
    let out = success(&p, 8, 43);
    assert_eq!(p.init_account_callback(7, &out, true), Err(ErrorCode::VerificationFailed));
    assert!(p.get(owner_a()).unwrap().is_uninitialized());
    assert_eq!(p.account_status(owner_b()), AccountStatus::Requested);
}

#[test]
fn aborted_computation_leaves_owner_uninitialized() {
    let mut p = VoidProtocol::init_account_comp_def(cluster());
    p.create_private_account(owner_a(), 7, 42).unwrap();
    let out = aborted(&p, 7);
    assert_eq!(p.init_account_callback(7, &out, true), Err(ErrorCode::AbortedComputation));
    assert!(p.get(owner_a()).unwrap().is_uninitialized());
    assert_eq!(p.account_status(owner_a()), AccountStatus::Uninitialized);
}

#[test]
fn end_to_end_initialization() {
    let mut p = VoidProtocol::init_account_comp_def(cluster());
    p.create_private_account(owner_a(), 7, 42).unwrap();
    let out = success(&p, 7, 42);
    let event = p.init_account_callback(7, &out, true).unwrap();
    assert_eq!(event.account, owner_a());
    assert_eq!(
        p.get(owner_a()),
        Ok(VoidPrivateAccount { owner: owner_a(), state_nonce: 42, encrypted_state: blocks() })
    );
}

#[test]
fn callback_for_unknown_offset_is_not_found() {
    let mut p = VoidProtocol::init_account_comp_def(cluster());
    let out = success(&p, 3, 1);
    assert_eq!(p.init_account_callback(3, &out, true), Err(ErrorCode::NotFound));
    assert_eq!(p.get(owner_a()), Err(ErrorCode::NotFound));
}

#[test]
fn independent_offsets_settle_in_any_order() {
    let mut p = VoidProtocol::init_account_comp_def(cluster());
    p.create_private_account(owner_a(), 1, 10).unwrap();
    p.create_private_account(owner_b(), 2, 20).unwrap();
    assert!(p.init_account_callback(2, &success(&p, 2, 20), true).is_ok());
    assert_eq!(p.account_status(owner_a()), AccountStatus::Requested);
    assert!(p.init_account_callback(1, &success(&p, 1, 10), true).is_ok());
    assert_eq!(p.get(owner_a()).unwrap().state_nonce, 10);
    assert_eq!(p.get(owner_b()).unwrap().state_nonce, 20);
}

#[test]
fn store_create_get_commit() {
    let mut s = AccountStore::new();
    assert_eq!(s.get(owner_a()), Err(ErrorCode::NotFound));
    assert_eq!(s.commit(owner_a(), blocks(), 5), Err(ErrorCode::NotFound));
    let rec = s.create(owner_a()).unwrap();
    assert_eq!(rec, VoidPrivateAccount::uninitialized(owner_a()));
    assert_eq!(s.create(owner_a()), Err(ErrorCode::AlreadyExists));
    let new = s.commit(owner_a(), blocks(), 5).unwrap();
    assert_eq!(new.state_nonce, 5);
    assert_eq!(s.get(owner_a()), Ok(new));
    assert!(!new.is_uninitialized());
}

#[test]
fn single_nonzero_byte_is_initialized() {
    let mut rec = VoidPrivateAccount::uninitialized(owner_a());
    assert!(rec.is_uninitialized());
    rec.encrypted_state[3][31] = 1;
    assert!(!rec.is_uninitialized());
    let mut rec2 = VoidPrivateAccount::uninitialized(owner_a());
    rec2.state_nonce = 1;
    assert!(!rec2.is_uninitialized());
}

#[test]
fn tracker_register_and_resolve_once() {
    let mut t = RequestTracker::new();
    assert_eq!(t.register(7, 1, owner_a(), 42), Ok(()));
    assert_eq!(t.register(7, 1, owner_b(), 43), Err(ErrorCode::DuplicateOffset));
    assert_eq!(t.register(7, 2, owner_b(), 43), Ok(()));
    assert!(t.targets(owner_a()));
    let req = t.resolve(7, 1).unwrap();
    assert_eq!(req.target, owner_a());
    assert_eq!(req.nonce, 42);
    assert_eq!(t.resolve(7, 1), Err(ErrorCode::NotFound));
    assert!(!t.targets(owner_a()));
    assert!(t.targets(owner_b()));
}

#[test]
fn verify_output_classifies() {
    let req = ComputationRequest { circuit_id: 5, computation_offset: 7, nonce: 42, target: owner_a() };
    let ok = ComputationOutput {
        payload: ComputationPayload::Success { ciphertexts: blocks(), nonce: 42 },
        cluster: cluster(),
        circuit_id: 5,
        computation_offset: 7,
    };
    assert_eq!(
        verify_output(&ok, cluster(), &req, true),
        Verdict::Success { ciphertexts: blocks(), nonce: 42 }
    );
    assert_eq!(verify_output(&ok, cluster(), &req, false), Verdict::VerificationFailed);
    let other_circuit = ComputationOutput { circuit_id: 6, ..ok };
    assert_eq!(verify_output(&other_circuit, cluster(), &req, true), Verdict::VerificationFailed);
    let abort = ComputationOutput { payload: ComputationPayload::Aborted, ..ok };
    assert_eq!(verify_output(&abort, cluster(), &req, true), Verdict::AbortedComputation);
    assert_eq!(verify_output(&abort, owner_b(), &req, true), Verdict::VerificationFailed);
}

#[test]
fn apply_writes_and_reports() {
    let mut s = AccountStore::new();
    assert_eq!(apply(&mut s, owner_a(), blocks(), 3), Err(ErrorCode::NotFound));
    s.create(owner_a()).unwrap();
    assert_eq!(
        apply(&mut s, owner_a(), blocks(), 3),
        Ok(AccountCreatedEvent { account: owner_a(), owner: owner_a() })
    );
    assert_eq!(s.get(owner_a()).unwrap().encrypted_state, blocks());
}
