//! Confidential account records whose contents are computed by an external
//! multi-party-computation cluster: the request / callback protocol that
//! records a pending computation, verifies its signed result and commits it.

pub mod account;
pub mod circuit;
pub mod committer;
pub mod error;
pub mod laws;
pub mod protocol;
pub mod provenance;
pub mod store;
pub mod tracker;

pub use account::{init_account, Ciphertexts, PrivateAccount, PublicKey, VoidPrivateAccount};
pub use circuit::init_account_circuit_id;
pub use committer::{apply, AccountCreatedEvent};
pub use error::ErrorCode;
pub use protocol::{AccountStatus, VoidProtocol};
pub use provenance::{verify_output, ComputationOutput, ComputationPayload, Verdict};
pub use store::AccountStore;
pub use tracker::{ComputationRequest, RequestTracker};
