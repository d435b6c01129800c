//! The verifier's answer: a tagged union carried as bytes.
//!
//! The layout is a one-byte tag followed by the fields of the tagged variant
//! in declared order, with no padding. A number is little-endian; a byte
//! string stands behind the 32-bit count of its bytes; a sequence stands
//! behind the 32-bit count of its items. Tag 0 is `Valid`: a 32-bit chain
//! identifier, the 20 bytes of the emitting contract, the sequence of topics,
//! the unindexed data. Tags 1 to 3 are the rejections and carry no field.

use crate::wire::{le_bytes, prefixed};
use vstd::prelude::*;

verus! {

/// The 20-byte address of a contract on the proven chain.
#[derive(Clone, Copy, Debug, PartialEq, Eq)]
pub struct EthAddress {
    pub bytes: [u8; 20],
}

impl View for EthAddress {
    type V = Seq<u8>;

    open spec fn view(&self) -> Seq<u8> {
        self.bytes@
    }
}

/// An event that the verifier has proven to have been emitted.
#[derive(Clone, Debug, PartialEq, Eq)]
pub struct EthEvent {
    pub emitting_contract: EthAddress,
    pub topics: Vec<Vec<u8>>,
    pub unindexed_data: Vec<u8>,
}

/// What the verifier answers to a validation request.
#[derive(Clone, Debug, PartialEq, Eq)]
pub enum ValidateEventResult {
    /// The proof holds: the chain it speaks of, and the proven event.
    Valid(u32, EthEvent),
    /// No proof is loaded in the cache.
    ProofNotLoaded,
    /// The proof does not verify.
    InvalidProof,
    /// The proof verifies, but what it proves is not a well-formed event.
    InvalidEvent,
}

/// An event as mathematics: its fields as sequences.
pub struct EventView {
    pub emitting_contract: Seq<u8>,
    pub topics: Seq<Seq<u8>>,
    pub unindexed_data: Seq<u8>,
}

/// A validation result as mathematics.
pub enum ResultView {
    Valid(u32, EventView),
    ProofNotLoaded,
    InvalidProof,
    InvalidEvent,
}

/// The contents of each topic, in order.
pub open spec fn topic_views(topics: Seq<Vec<u8>>) -> Seq<Seq<u8>> {
    topics.map_values(|topic: Vec<u8>| topic@)
}

impl View for EthEvent {
    type V = EventView;

    open spec fn view(&self) -> EventView {
        EventView {
            emitting_contract: self.emitting_contract@,
            topics: topic_views(self.topics@),
            unindexed_data: self.unindexed_data@,
        }
    }
}

impl View for ValidateEventResult {
    type V = ResultView;

    open spec fn view(&self) -> ResultView {
        match self {
            ValidateEventResult::Valid(chain_id, event) => ResultView::Valid(*chain_id, event@),
            ValidateEventResult::ProofNotLoaded => ResultView::ProofNotLoaded,
            ValidateEventResult::InvalidProof => ResultView::InvalidProof,
            ValidateEventResult::InvalidEvent => ResultView::InvalidEvent,
        }
    }
}

/// The largest count that a 32-bit prefix can carry.
pub open spec fn fits_prefix(count: nat) -> bool {
    count <= 0xffff_ffff
}

impl EventView {
    /// The address has its 20 bytes and every count fits its prefix.
    pub open spec fn well_formed(self) -> bool {
        &&& self.emitting_contract.len() == 20
        &&& fits_prefix(self.topics.len())
        &&& forall|i: int| 0 <= i < self.topics.len() ==> fits_prefix(#[trigger] self.topics[i].len())
        &&& fits_prefix(self.unindexed_data.len())
    }
}

impl ResultView {
    pub open spec fn well_formed(self) -> bool {
        match self {
            ResultView::Valid(_, event) => event.well_formed(),
            _ => true,
        }
    }

    /// The byte that announces the variant.
    pub open spec fn tag(self) -> u8 {
        match self {
            ResultView::Valid(_, _) => 0,
            ResultView::ProofNotLoaded => 1,
            ResultView::InvalidProof => 2,
            ResultView::InvalidEvent => 3,
        }
    }
}

/// Each topic behind its count, one after the other.
pub open spec fn topic_items(topics: Seq<Seq<u8>>) -> Seq<u8>
    decreases topics.len(),
{
    if topics.len() == 0 {
        Seq::empty()
    } else {
        topic_items(topics.drop_last()) + prefixed(topics.last())
    }
}

/// The fields of an event in declared order.
pub open spec fn event_bytes(event: EventView) -> Seq<u8> {
    event.emitting_contract + le_bytes(event.topics.len(), 4) + topic_items(event.topics)
        + prefixed(event.unindexed_data)
}

/// The bytes that carry a validation result.
pub open spec fn result_bytes(result: ResultView) -> Seq<u8> {
    match result {
        ResultView::Valid(chain_id, event) => seq![0u8] + le_bytes(chain_id as nat, 4)
            + event_bytes(event),
        _ => seq![result.tag()],
    }
}

/// `bytes` are the whole encoding of the well-formed `result`.
pub open spec fn encodes(result: ResultView, bytes: Seq<u8>) -> bool {
    result.well_formed() && result_bytes(result) == bytes
}

/// The result that `bytes` carry, where they carry one.
pub open spec fn decoded(bytes: Seq<u8>) -> Option<ResultView> {
    if exists|result: ResultView| encodes(result, bytes) {
        Some(choose|result: ResultView| encodes(result, bytes))
    } else {
        None
    }
}

} // verus!
