//! The named outcomes with which a handler fails.

use vstd::prelude::*;
use vstd::string::StringExecFns;

verus! {

/// Why a handler gave up. A handler that fails has changed nothing and has
/// produced nothing to emit.
#[derive(Clone, Copy, Debug, PartialEq, Eq, Structural)]
pub enum ErrorCode {
    /// The validation call returned without leaving a return payload.
    MissingReturn,
    /// The return payload was left by a program other than the pinned verifier.
    WrongProgram,
    /// The configured verifier address is not the pinned verifier.
    ProgramIdMismatch,
    /// The counter record already exists at its derived address.
    AlreadyInitialized,
    /// The nonce is at its largest value and cannot be incremented.
    NonceOverflow,
    /// A key or value is too long for the 32-bit length prefix of the binary
    /// event record.
    EventTooLarge,
    /// The nested call into the verifier aborted.
    NestedCallFailed,
    /// The return payload is not the encoding of any validation result.
    MalformedPayload,
}

impl ErrorCode {
    /// The message shown to callers for each outcome.
    pub open spec fn message_text(self) -> Seq<char> {
        match self {
            ErrorCode::MissingReturn => "Missing return data"@,
            ErrorCode::WrongProgram => "Wrong program returned data"@,
            ErrorCode::ProgramIdMismatch => "Program ID mismatch"@,
            ErrorCode::AlreadyInitialized => "Counter record already exists"@,
            ErrorCode::NonceOverflow => "Nonce overflow"@,
            ErrorCode::EventTooLarge => "Event field too large"@,
            ErrorCode::NestedCallFailed => "Nested call failed"@,
            ErrorCode::MalformedPayload => "Malformed return payload"@,
        }
    }

    pub fn message(&self) -> (text: String)
        ensures
            text@ == self.message_text(),
    {
        match self {
            ErrorCode::MissingReturn => String::from_str("Missing return data"),
            ErrorCode::WrongProgram => String::from_str("Wrong program returned data"),
            ErrorCode::ProgramIdMismatch => String::from_str("Program ID mismatch"),
            ErrorCode::AlreadyInitialized => String::from_str("Counter record already exists"),
            ErrorCode::NonceOverflow => String::from_str("Nonce overflow"),
            ErrorCode::EventTooLarge => String::from_str("Event field too large"),
            ErrorCode::NestedCallFailed => String::from_str("Nested call failed"),
            ErrorCode::MalformedPayload => String::from_str("Malformed return payload"),
        }
    }
}

} // verus!
