use vstd::prelude::*;

verus! {

/// Why a protocol operation was refused.
#[derive(Clone, Copy, Debug, PartialEq, Eq, Structural)]
pub enum ErrorCode {
    /// The account was already requested or initialized.
    AlreadyExists,
    /// The correlation offset is already outstanding for the computation.
    DuplicateOffset,
    /// No outstanding request, or no account record, for what was named.
    NotFound,
    /// The cluster reported that the computation was aborted.
    AbortedComputation,
    /// The output's provenance did not check out.
    VerificationFailed,
}

} // verus!
