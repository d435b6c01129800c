//! The persisted counter record and its one-time creation.

use crate::error::ErrorCode;
use vstd::prelude::*;

verus! {

/// The counter record: the number of events logged so far.
#[derive(Clone, Copy, Debug, PartialEq, Eq, Structural)]
pub struct LoggerAccount {
    pub nonce: u64,
}

/// What a request to create the counter record names: the slot at the
/// record's derived address, empty until the record is created.
#[derive(Clone, Copy, Debug, PartialEq, Eq)]
pub struct Initialize {
    pub logger_account: Option<LoggerAccount>,
}

/// Creation as a function of the slot: an empty slot receives a record whose
/// nonce is 0; an occupied slot is left as it is, and the request fails.
pub open spec fn initialized(pre: Initialize) -> (Initialize, Result<(), ErrorCode>) {
    match pre.logger_account {
        None => (Initialize { logger_account: Some(LoggerAccount { nonce: 0 }) }, Ok(())),
        Some(_) => (pre, Err(ErrorCode::AlreadyInitialized)),
    }
}

/// Creates the counter record with nonce 0, unless it already exists.
pub fn initialize(ctx: &mut Initialize) -> (outcome: Result<(), ErrorCode>)
    ensures
        (*final(ctx), outcome) == initialized(*old(ctx)),
{
    match ctx.logger_account {
        Some(_) => Err(ErrorCode::AlreadyInitialized),
        None => {
            ctx.logger_account = Some(LoggerAccount { nonce: 0 });
            Ok(())
        },
    }
}

/// Creation is not idempotent: whatever the slot held, a second request
/// right after a first one fails and leaves the record as the first left it;
/// and a first request that succeeded left the nonce at 0.
pub proof fn lemma_second_initialize_fails(ctx: Initialize)
    ensures
        ({
            let (first, first_outcome) = initialized(ctx);
            let (second, second_outcome) = initialized(first);
            &&& second_outcome == Err::<(), ErrorCode>(ErrorCode::AlreadyInitialized)
            &&& second == first
            &&& first_outcome is Ok ==> first.logger_account == Some(LoggerAccount { nonce: 0 })
        }),
{
}

} // verus!
