//! Relay of an opaque proof to the pinned verifier's ingestion entry point.

use crate::error::ErrorCode;
use crate::identity::{pinned_verifier, Address};
use vstd::prelude::*;

verus! {

/// The accounts that a request to load a proof names.
#[derive(Clone, Copy, Debug, PartialEq, Eq)]
pub struct LoadProof {
    /// The configured verifier; it must be the pinned one.
    pub polymer_prover: Address,
    /// The verifier's cache record, passed through and never inspected.
    pub cache_account: Address,
    /// The calling authority.
    pub authority: Address,
    /// The system program that the entry point asks for.
    pub system_program: Address,
}

/// The cross-call that loads a proof: its target, the accounts handed to it
/// and the proof itself.
#[derive(Clone, Debug, PartialEq, Eq)]
pub struct LoadProofCall {
    pub program: Address,
    pub cache_account: Address,
    pub authority: Address,
    pub system_program: Address,
    pub proof: Vec<u8>,
}

/// `call` targets the pinned verifier with the accounts of `ctx` and carries
/// exactly `proof`.
pub open spec fn relays(call: LoadProofCall, ctx: LoadProof, proof: Seq<u8>) -> bool {
    &&& call.program@ == pinned_verifier()
    &&& call.cache_account@ == ctx.cache_account@
    &&& call.authority@ == ctx.authority@
    &&& call.system_program@ == ctx.system_program@
    &&& call.proof@ == proof
}

/// Prepares the cross-call that hands `proof`, unexamined and unchanged, to
/// the verifier.
///
/// A request whose verifier is not the pinned one is rejected here, so that
/// no call is ever made on its behalf.
pub fn load_proof(ctx: &LoadProof, proof: Vec<u8>) -> (outcome: Result<LoadProofCall, ErrorCode>)
    ensures
        match outcome {
            Ok(call) => ctx.polymer_prover@ == pinned_verifier() && relays(call, *ctx, proof@),
            Err(error) => error == ErrorCode::ProgramIdMismatch && ctx.polymer_prover@
                != pinned_verifier(),
        },
{
    if !ctx.polymer_prover.is_pinned_verifier() {
        return Err(ErrorCode::ProgramIdMismatch);
    }
    Ok(
        LoadProofCall {
            program: ctx.polymer_prover,
            cache_account: ctx.cache_account,
            authority: ctx.authority,
            system_program: ctx.system_program,
            proof,
        },
    )
}

} // verus!
