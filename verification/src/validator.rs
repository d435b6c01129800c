//! Validation of a proof by the pinned verifier: the request, and what to
//! make of the answer.

use crate::decode::{lemma_decoded_encodes, lemma_decoded_inverts_encoding};
use crate::error::ErrorCode;
use crate::identity::{pinned_verifier, Address};
use crate::payload::{decoded, encodes, topic_views};
use crate::payload::{EthAddress, ResultView, ValidateEventResult};
use crate::text::{decimal, decimal_text, hex, hex_text, list, list_text};
use crate::text::{nested_list, nested_list_text};
use anchor_lang::solana_program::program::get_return_data;
use vstd::prelude::*;
use vstd::string::StringExecFns;

verus! {

/// The accounts that a request to validate a proof names.
#[derive(Clone, Copy, Debug, PartialEq, Eq)]
pub struct ValidateProof {
    /// The configured verifier; it must be the pinned one.
    pub polymer_prover: Address,
    /// The verifier's cache record, passed through and never inspected.
    pub cache_account: Address,
    /// The calling authority.
    pub authority: Address,
    /// The verifier's bookkeeping account.
    pub internal: Address,
    /// The instruction-introspection account that the verifier asks for.
    pub instructions: Address,
}

/// The cross-call that asks the verifier to validate the cached proof.
#[derive(Clone, Copy, Debug, PartialEq, Eq)]
pub struct ValidateEventCall {
    pub program: Address,
    pub cache_account: Address,
    pub authority: Address,
    pub internal: Address,
    pub instructions: Address,
}

/// How the nested call ended.
#[derive(Clone, Debug, PartialEq, Eq)]
pub enum CallOutcome {
    /// The call aborted.
    Aborted,
    /// The call completed and left no return payload.
    NoPayload,
    /// The call completed; `origin` is the program that left the payload.
    Payload { origin: Address, data: Vec<u8> },
}

/// What a completed validation has to log.
#[derive(Clone, Debug, PartialEq, Eq)]
pub enum ValidationLog {
    /// The verifier found the proof valid.
    ProofValidated {
        chain_id: u32,
        /// The emitting contract in hexadecimal.
        emitting_contract: String,
        topics: Vec<Vec<u8>>,
        unindexed_data: Vec<u8>,
    },
    /// The verifier answered with a rejection.
    ProverError { description: String },
}

/// A log as mathematics.
pub enum LogView {
    ProofValidated {
        chain_id: u32,
        emitting_contract: Seq<char>,
        topics: Seq<Seq<u8>>,
        unindexed_data: Seq<u8>,
    },
    ProverError { description: Seq<char> },
}

impl View for ValidationLog {
    type V = LogView;

    open spec fn view(&self) -> LogView {
        match self {
            ValidationLog::ProofValidated {
                chain_id,
                emitting_contract,
                topics,
                unindexed_data,
            } => LogView::ProofValidated {
                chain_id: *chain_id,
                emitting_contract: emitting_contract@,
                topics: topic_views(topics@),
                unindexed_data: unindexed_data@,
            },
            ValidationLog::ProverError { description } => LogView::ProverError {
                description: description@,
            },
        }
    }
}

impl ResultView {
    /// The verifier's answer in words.
    pub open spec fn description(self) -> Seq<char> {
        match self {
            ResultView::Valid(_, _) => "proof is valid"@,
            ResultView::ProofNotLoaded => "no proof is loaded"@,
            ResultView::InvalidProof => "proof is invalid"@,
            ResultView::InvalidEvent => "proven event is malformed"@,
        }
    }
}

impl EthAddress {
    /// The address as 40 hexadecimal digits.
    pub fn to_hex(&self) -> (text: String)
        ensures
            text@ == hex_text(self@),
    {
        hex(self.bytes.as_slice())
    }
}

impl ValidateEventResult {
    /// The verifier's answer in words.
    pub fn describe(&self) -> (text: String)
        ensures
            text@ == self@.description(),
    {
        match self {
            ValidateEventResult::Valid(_, _) => String::from_str("proof is valid"),
            ValidateEventResult::ProofNotLoaded => String::from_str("no proof is loaded"),
            ValidateEventResult::InvalidProof => String::from_str("proof is invalid"),
            ValidateEventResult::InvalidEvent => String::from_str("proven event is malformed"),
        }
    }
}

/// The line of text that a log is emitted as.
pub open spec fn log_text(log: LogView) -> Seq<char> {
    match log {
        LogView::ProofValidated { chain_id, emitting_contract, topics, unindexed_data } =>
            "Proof validated: chain_id: "@ + decimal_text(chain_id as nat) + ", emitting_contract: "@
                + emitting_contract + ", topics: "@ + nested_list_text(topics)
                + ", unindexed_data: "@ + list_text(unindexed_data),
        LogView::ProverError { description } => "Prover returned error: "@ + description,
    }
}

impl ValidationLog {
    /// The line of text to emit for this log.
    pub fn line(&self) -> (text: String)
        ensures
            text@ == log_text(self@),
    {
        match self {
            ValidationLog::ProofValidated {
                chain_id,
                emitting_contract,
                topics,
                unindexed_data,
            } => {
                let mut text = String::from_str("Proof validated: chain_id: ");
                let chain = decimal(*chain_id as u64);
                text.append(chain.as_str());
                text.append(", emitting_contract: ");
                text.append(emitting_contract.as_str());
                text.append(", topics: ");
                let topics_text = nested_list(topics);
                text.append(topics_text.as_str());
                text.append(", unindexed_data: ");
                let data_text = list(unindexed_data.as_slice());
                text.append(data_text.as_str());
                text
            },
            ValidationLog::ProverError { description } => {
                let mut text = String::from_str("Prover returned error: ");
                text.append(description.as_str());
                text
            },
        }
    }
}

/// `call` targets the pinned verifier with the accounts of `ctx`.
pub open spec fn requests(call: ValidateEventCall, ctx: ValidateProof) -> bool {
    &&& call.program@ == pinned_verifier()
    &&& call.cache_account@ == ctx.cache_account@
    &&& call.authority@ == ctx.authority@
    &&& call.internal@ == ctx.internal@
    &&& call.instructions@ == ctx.instructions@
}

/// The log that a decoded answer calls for: for `Valid`, its fields as they
/// came, the address in hexadecimal; for anything else, the answer in words.
pub open spec fn dispatched(result: ResultView) -> LogView {
    match result {
        ResultView::Valid(chain_id, event) => LogView::ProofValidated {
            chain_id,
            emitting_contract: hex_text(event.emitting_contract),
            topics: event.topics,
            unindexed_data: event.unindexed_data,
        },
        _ => LogView::ProverError { description: result.description() },
    }
}

/// What a validation comes to, step by step: the configured verifier must be
/// the pinned one; the call must have completed; it must have left a payload;
/// the payload must come from the pinned verifier; its bytes must carry a
/// result; and the result decides the log.
pub open spec fn validation(ctx: ValidateProof, outcome: CallOutcome) -> Result<LogView, ErrorCode> {
    if ctx.polymer_prover@ != pinned_verifier() {
        Err(ErrorCode::ProgramIdMismatch)
    } else {
        match outcome {
            CallOutcome::Aborted => Err(ErrorCode::NestedCallFailed),
            CallOutcome::NoPayload => Err(ErrorCode::MissingReturn),
            CallOutcome::Payload { origin, data } => if origin@ != pinned_verifier() {
                Err(ErrorCode::WrongProgram)
            } else {
                match decoded(data@) {
                    None => Err(ErrorCode::MalformedPayload),
                    Some(result) => Ok(dispatched(result)),
                }
            },
        }
    }
}

/// `concluded` is what the validation of `outcome` comes to: the failure that
/// it ends in, or a log that reads as the one it calls for.
pub open spec fn concludes(
    ctx: ValidateProof,
    outcome: CallOutcome,
    concluded: Result<ValidationLog, ErrorCode>,
) -> bool {
    match concluded {
        Ok(log) => validation(ctx, outcome) == Ok::<LogView, ErrorCode>(log@),
        Err(error) => validation(ctx, outcome) == Err::<LogView, ErrorCode>(error),
    }
}

/// Prepares the cross-call that asks the verifier to validate the cached
/// proof, and refuses to where the configured verifier is not the pinned one.
pub fn request_validation(ctx: &ValidateProof) -> (outcome: Result<ValidateEventCall, ErrorCode>)
    ensures
        match outcome {
            Ok(call) => ctx.polymer_prover@ == pinned_verifier() && requests(call, *ctx),
            Err(error) => error == ErrorCode::ProgramIdMismatch && ctx.polymer_prover@
                != pinned_verifier(),
        },
{
    if !ctx.polymer_prover.is_pinned_verifier() {
        return Err(ErrorCode::ProgramIdMismatch);
    }
    Ok(
        ValidateEventCall {
            program: ctx.polymer_prover,
            cache_account: ctx.cache_account,
            authority: ctx.authority,
            internal: ctx.internal,
            instructions: ctx.instructions,
        },
    )
}

/// Turns a decoded answer into the log it calls for.
pub fn dispatch(result: ValidateEventResult) -> (log: ValidationLog)
    ensures
        log@ == dispatched(result@),
{
    match result {
        ValidateEventResult::Valid(chain_id, event) => {
            let emitting_contract = event.emitting_contract.to_hex();
            ValidationLog::ProofValidated {
                chain_id,
                emitting_contract,
                topics: event.topics,
                unindexed_data: event.unindexed_data,
            }
        },
        other => ValidationLog::ProverError { description: other.describe() },
    }
}

/// Concludes a validation from how the nested call ended.
///
/// Nothing is decoded unless a payload is present and comes from the pinned
/// verifier, and nothing is logged unless the payload decodes.
pub fn validate_proof(ctx: &ValidateProof, outcome: CallOutcome) -> (concluded: Result<
    ValidationLog,
    ErrorCode,
>)
    ensures
        concludes(*ctx, outcome, concluded),
{
    if !ctx.polymer_prover.is_pinned_verifier() {
        return Err(ErrorCode::ProgramIdMismatch);
    }
    match outcome {
        CallOutcome::Aborted => Err(ErrorCode::NestedCallFailed),
        CallOutcome::NoPayload => Err(ErrorCode::MissingReturn),
        CallOutcome::Payload { origin, data } => {
            if !origin.is_pinned_verifier() {
                return Err(ErrorCode::WrongProgram);
            }
            match ValidateEventResult::try_from_slice(data.as_slice()) {
                Err(error) => Err(error),
                Ok(result) => Ok(dispatch(result)),
            }
        },
    }
}

/// Calls `get_return_data`, which hands out the return payload that the
/// runtime holds at this moment, with the program that left it, or nothing
/// where no program has left one. What comes back is the runtime's to
/// decide, so nothing is claimed of it.
#[verifier::external_body]
fn last_return_payload() -> (payload: Option<(Address, Vec<u8>)>) {
    match get_return_data() {
        Some((origin, data)) => Some((Address { bytes: origin.to_bytes() }, data)),
        None => None,
    }
}

/// Concludes a validation whose nested call has completed, from the return
/// payload that the runtime holds.
///
/// Whatever the runtime holds, the conclusion is the one that
/// [`validate_proof`] draws from it.
pub fn validate_returned(ctx: &ValidateProof) -> (concluded: Result<ValidationLog, ErrorCode>)
    ensures
        exists|outcome: CallOutcome|
            !(outcome is Aborted) && #[trigger] concludes(*ctx, outcome, concluded),
        ctx.polymer_prover@ != pinned_verifier() ==> concluded == Err::<ValidationLog, ErrorCode>(
            ErrorCode::ProgramIdMismatch,
        ),
{
    let outcome = match last_return_payload() {
        None => CallOutcome::NoPayload,
        Some((origin, data)) => CallOutcome::Payload { origin, data },
    };
    let ghost held = outcome;
    let concluded = validate_proof(ctx, outcome);
    assert(!(held is Aborted) && concludes(*ctx, held, concluded));
    concluded
}

/// A success log is never made up: it comes only from a payload that the
/// pinned verifier left and that is the encoding of a `Valid` result, and it
/// is the log that this result calls for, so that its chain identifier,
/// topics and unindexed data are those in the payload and its address is the
/// payload's 20 bytes in hexadecimal.
pub proof fn lemma_success_log_is_faithful(ctx: ValidateProof, outcome: CallOutcome)
    requires
        validation(ctx, outcome) matches Ok(LogView::ProofValidated { .. }),
    ensures
        outcome matches CallOutcome::Payload { origin, data } && origin@ == pinned_verifier()
            && exists|result: ResultView|
            {
                &&& #[trigger] encodes(result, data@)
                &&& result is Valid
                &&& validation(ctx, outcome) == Ok::<LogView, ErrorCode>(dispatched(result))
            },
{
    match outcome {
        CallOutcome::Payload { origin, data } => {
            lemma_decoded_encodes(data@);
            let result = decoded(data@)->0;
            assert(encodes(result, data@));
            assert(result is Valid);
        },
        _ => {},
    }
}

/// Every well-formed answer that the pinned verifier leaves is acted on as
/// it stands: its bytes lead to the log that the answer calls for.
pub proof fn lemma_answer_decides_log(ctx: ValidateProof, origin: Address, data: Vec<u8>, result: ResultView)
    requires
        ctx.polymer_prover@ == pinned_verifier(),
        origin@ == pinned_verifier(),
        encodes(result, data@),
    ensures
        validation(ctx, CallOutcome::Payload { origin, data }) == Ok::<LogView, ErrorCode>(
            dispatched(result),
        ),
{
    lemma_decoded_inverts_encoding(result);
}

} // verus!
