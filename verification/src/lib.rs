//! Counter-backed event logging and relay of proofs to a pinned external
//! verifier, with the verifier's answer authenticated, decoded and dispatched.
//!
//! Every handler is a function from plain values to plain values: the caller
//! performs the nested invocation and the emission of logs, and hands this
//! library what came back.

pub mod counter;
pub mod decode;
pub mod emitter;
pub mod error;
pub mod identity;
pub mod payload;
pub mod relay;
pub mod text;
pub mod validator;
pub mod wire;

pub use crate::counter::{initialize, Initialize, LoggerAccount};
pub use crate::emitter::{log_key_value, log_key_value_swapped, LogKeyValue};
pub use crate::error::ErrorCode;
pub use crate::identity::{polymer_prover_id, Address, POLYMER_PROVER_ID};
pub use crate::payload::{EthAddress, EthEvent, ValidateEventResult};
pub use crate::relay::{load_proof, LoadProof, LoadProofCall};
pub use crate::validator::{request_validation, validate_proof, validate_returned};
pub use crate::validator::{CallOutcome, ValidateProof};
pub use crate::validator::{ValidateEventCall, ValidationLog};
