use vstd::prelude::*;
use crate::account::{Ciphertexts, PublicKey};
use crate::tracker::ComputationRequest;

verus! {

/// What the cluster returned for a computation.
#[derive(Clone, Copy, Debug, PartialEq, Eq)]
pub enum ComputationPayload {
    Success { ciphertexts: Ciphertexts, nonce: u128 },
    Aborted,
}

/// A computation output together with what it claims of its origin: the
/// cluster that signed it and the request it answers.
#[derive(Clone, Copy, Debug, PartialEq, Eq)]
pub struct ComputationOutput {
    pub payload: ComputationPayload,
    pub cluster: PublicKey,
    pub circuit_id: u32,
    pub computation_offset: u64,
}

/// How an output is classified.
#[derive(Clone, Copy, Debug, PartialEq, Eq)]
pub enum Verdict {
    Success { ciphertexts: Ciphertexts, nonce: u128 },
    AbortedComputation,
    VerificationFailed,
}

/// The output is signed by the expected cluster (`signature_verified` is the
/// outcome of checking its signature against that cluster's key) and claims
/// to answer the expected request.
pub open spec fn provenance_valid(
    output: ComputationOutput,
    cluster: PublicKey,
    request: ComputationRequest,
    signature_verified: bool,
) -> bool {
    &&& signature_verified
    &&& output.cluster == cluster
    &&& output.circuit_id == request.circuit_id
    &&& output.computation_offset == request.computation_offset
}

pub open spec fn verdict_of(
    output: ComputationOutput,
    cluster: PublicKey,
    request: ComputationRequest,
    signature_verified: bool,
) -> Verdict {
    if !provenance_valid(output, cluster, request, signature_verified) {
        Verdict::VerificationFailed
    } else {
        match output.payload {
            ComputationPayload::Aborted => Verdict::AbortedComputation,
            ComputationPayload::Success { ciphertexts, nonce } => Verdict::Success {
                ciphertexts,
                nonce,
            },
        }
    }
}

/// Checks provenance first, then the payload's tag.
pub fn verify_output(
    output: &ComputationOutput,
    cluster: PublicKey,
    request: &ComputationRequest,
    signature_verified: bool,
) -> (r: Verdict)
    ensures
        r == verdict_of(*output, cluster, *request, signature_verified),
{
    if !signature_verified || output.cluster != cluster || output.circuit_id != request.circuit_id
        || output.computation_offset != request.computation_offset {
        return Verdict::VerificationFailed;
    }
    match output.payload {
        ComputationPayload::Aborted => Verdict::AbortedComputation,
        ComputationPayload::Success { ciphertexts, nonce } => {
            Verdict::Success { ciphertexts, nonce }
        },
    }
}

} // verus!
