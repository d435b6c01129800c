//! Decoding of the verifier's answer from the bytes it returned.

use crate::error::ErrorCode;
use crate::payload::{decoded, encodes, event_bytes, fits_prefix, result_bytes, topic_items, topic_views};
use crate::payload::{EthAddress, EthEvent, EventView, ResultView, ValidateEventResult};
use crate::wire::{le_bytes, le_value, prefixed, read_u32};
use crate::wire::{lemma_byte_range_widths, lemma_le_bytes_len, lemma_le_bytes_of_le_value, lemma_le_value_of_le_bytes};
use vstd::prelude::*;
use vstd::slice::{slice_subrange, slice_to_vec};

verus! {

/// Splits a counted byte string off the front of `input`.
pub closed spec fn take_prefixed(input: Seq<u8>) -> Option<(Seq<u8>, Seq<u8>)> {
    if input.len() < 4 {
        None
    } else {
        let count = le_value(input.subrange(0, 4));
        if input.len() - 4 < count {
            None
        } else {
            Some((input.subrange(4, 4 + count as int), input.skip(4 + count as int)))
        }
    }
}

/// Splits `count` counted byte strings off the front of `input`.
pub closed spec fn take_topics(input: Seq<u8>, count: nat) -> Option<(Seq<Seq<u8>>, Seq<u8>)>
    decreases count,
{
    if count == 0 {
        Some((Seq::empty(), input))
    } else {
        match take_topics(input, (count - 1) as nat) {
            Some((topics, rest)) => match take_prefixed(rest) {
                Some((topic, after)) => Some((topics.push(topic), after)),
                None => None,
            },
            None => None,
        }
    }
}

/// The rejection that a tag announces.
pub closed spec fn rejection_of(tag: u8) -> Option<ResultView> {
    if tag == 1 {
        Some(ResultView::ProofNotLoaded)
    } else if tag == 2 {
        Some(ResultView::InvalidProof)
    } else if tag == 3 {
        Some(ResultView::InvalidEvent)
    } else {
        None
    }
}

/// Reads a whole validation result, front to back, leaving nothing over.
pub closed spec fn parse_result(input: Seq<u8>) -> Option<ResultView> {
    if input.len() == 0 {
        None
    } else if input[0] == 0 {
        let body = input.skip(1);
        if body.len() < 28 {
            None
        } else {
            let chain_id = le_value(body.subrange(0, 4));
            let count = le_value(body.subrange(24, 28));
            match take_topics(body.skip(28), count) {
                Some((topics, rest)) => match take_prefixed(rest) {
                    Some((unindexed_data, tail)) => if tail.len() == 0 {
                        Some(
                            ResultView::Valid(
                                chain_id as u32,
                                EventView {
                                    emitting_contract: body.subrange(4, 24),
                                    topics,
                                    unindexed_data,
                                },
                            ),
                        )
                    } else {
                        None
                    },
                    None => None,
                },
                None => None,
            }
        }
    } else if input.len() == 1 {
        rejection_of(input[0])
    } else {
        None
    }
}

proof fn lemma_take_prefixed_sound(input: Seq<u8>)
    requires
        take_prefixed(input) is Some,
    ensures
        ({
            let (field, rest) = take_prefixed(input)->0;
            fits_prefix(field.len()) && input == prefixed(field) + rest
        }),
{
    let (field, rest) = take_prefixed(input)->0;
    let head = input.subrange(0, 4);
    lemma_le_bytes_of_le_value(head);
    lemma_byte_range_widths();
    assert(input =~= head + field + rest);
}

proof fn lemma_take_prefixed_complete(field: Seq<u8>, rest: Seq<u8>)
    requires
        fits_prefix(field.len()),
    ensures
        take_prefixed(prefixed(field) + rest) == Some((field, rest)),
{
    let input = prefixed(field) + rest;
    lemma_le_bytes_len(field.len(), 4);
    lemma_byte_range_widths();
    lemma_le_value_of_le_bytes(field.len(), 4);
    assert(input.subrange(0, 4) =~= le_bytes(field.len(), 4));
    assert(input.subrange(4, 4 + field.len() as int) =~= field);
    assert(input.skip(4 + field.len() as int) =~= rest);
}

proof fn lemma_take_topics_sound(input: Seq<u8>, count: nat)
    requires
        take_topics(input, count) is Some,
    ensures
        ({
            let (topics, rest) = take_topics(input, count)->0;
            &&& topics.len() == count
            &&& forall|i: int| 0 <= i < topics.len() ==> fits_prefix(#[trigger] topics[i].len())
            &&& input == topic_items(topics) + rest
        }),
    decreases count,
{
    if count == 0 {
        assert(input =~= topic_items(Seq::empty()) + input);
    } else {
        let (before, middle) = take_topics(input, (count - 1) as nat)->0;
        let (topic, after) = take_prefixed(middle)->0;
        lemma_take_topics_sound(input, (count - 1) as nat);
        lemma_take_prefixed_sound(middle);
        let topics = before.push(topic);
        assert(topics.drop_last() =~= before);
        assert(topics.last() == topic);
        assert(input =~= topic_items(topics) + after);
    }
}

proof fn lemma_take_topics_complete(topics: Seq<Seq<u8>>, rest: Seq<u8>)
    requires
        forall|i: int| 0 <= i < topics.len() ==> fits_prefix(#[trigger] topics[i].len()),
    ensures
        take_topics(topic_items(topics) + rest, topics.len()) == Some((topics, rest)),
    decreases topics.len(),
{
    let input = topic_items(topics) + rest;
    if topics.len() == 0 {
        assert(input =~= rest);
        assert(topics =~= Seq::empty());
    } else {
        let before = topics.drop_last();
        let middle = prefixed(topics.last()) + rest;
        lemma_take_topics_complete(before, middle);
        assert(input =~= topic_items(before) + middle);
        lemma_take_prefixed_complete(topics.last(), rest);
        assert(before.push(topics.last()) =~= topics);
    }
}

/// Once a counted string is missing, asking for more of them does not help.
proof fn lemma_take_topics_fails_on(input: Seq<u8>, short: nat, count: nat)
    requires
        take_topics(input, short) is None,
        short <= count,
    ensures
        take_topics(input, count) is None,
    decreases count,
{
    if short < count {
        lemma_take_topics_fails_on(input, short, (count - 1) as nat);
    }
}

proof fn lemma_parse_sound(input: Seq<u8>)
    requires
        parse_result(input) is Some,
    ensures
        encodes(parse_result(input)->0, input),
{
    let result = parse_result(input)->0;
    if input[0] == 0 {
        let body = input.skip(1);
        let count = le_value(body.subrange(24, 28));
        let (topics, rest) = take_topics(body.skip(28), count)->0;
        let (unindexed_data, tail) = take_prefixed(rest)->0;
        lemma_take_topics_sound(body.skip(28), count);
        lemma_take_prefixed_sound(rest);
        lemma_le_bytes_of_le_value(body.subrange(0, 4));
        lemma_le_bytes_of_le_value(body.subrange(24, 28));
        lemma_byte_range_widths();
        assert(tail =~= Seq::empty());
        assert(body =~= body.subrange(0, 4) + body.subrange(4, 24) + body.subrange(24, 28)
            + body.skip(28));
        assert(input =~= seq![0u8] + body);
        assert(result_bytes(result) =~= input);
    } else {
        assert(input =~= seq![input[0]]);
    }
}

proof fn lemma_parse_complete(result: ResultView)
    requires
        result.well_formed(),
    ensures
        parse_result(result_bytes(result)) == Some(result),
{
    let input = result_bytes(result);
    match result {
        ResultView::Valid(chain_id, event) => {
            let body = input.skip(1);
            let trailer = prefixed(event.unindexed_data);
            lemma_le_bytes_len(chain_id as nat, 4);
            lemma_le_bytes_len(event.topics.len(), 4);
            lemma_byte_range_widths();
            lemma_le_value_of_le_bytes(chain_id as nat, 4);
            lemma_le_value_of_le_bytes(event.topics.len(), 4);
            assert(body =~= le_bytes(chain_id as nat, 4) + event_bytes(event));
            assert(body.subrange(0, 4) =~= le_bytes(chain_id as nat, 4));
            assert(body.subrange(4, 24) =~= event.emitting_contract);
            assert(body.subrange(24, 28) =~= le_bytes(event.topics.len(), 4));
            assert(body.skip(28) =~= topic_items(event.topics) + trailer);
            lemma_take_topics_complete(event.topics, trailer);
            lemma_take_prefixed_complete(event.unindexed_data, Seq::empty());
            assert(trailer + Seq::<u8>::empty() =~= trailer);
        },
        _ => {},
    }
}

/// Bytes carry the result that reading them front to back gives, and no
/// other.
proof fn lemma_decoded_is_parsed(input: Seq<u8>)
    ensures
        decoded(input) == parse_result(input),
{
    if exists|result: ResultView| encodes(result, input) {
        let result = choose|result: ResultView| encodes(result, input);
        lemma_parse_complete(result);
    } else {
        if parse_result(input) is Some {
            lemma_parse_sound(input);
        }
    }
}

/// Reads the counted byte string that starts at `at`: its content, and the
/// place where the next field starts.
fn read_prefixed(bytes: &[u8], at: usize) -> (field: Option<(Vec<u8>, usize)>)
    requires
        at <= bytes@.len(),
    ensures
        match field {
            Some((content, next)) => at <= next <= bytes@.len() && take_prefixed(
                bytes@.skip(at as int),
            ) == Some((content@, bytes@.skip(next as int))),
            None => take_prefixed(bytes@.skip(at as int)) is None,
        },
{
    let len = bytes.len();
    let ghost input = bytes@.skip(at as int);
    if len - at < 4 {
        return None;
    }
    let count = read_u32(bytes, at) as usize;
    assert(input.subrange(0, 4) =~= bytes@.subrange(at as int, at + 4));
    if len - at - 4 < count {
        return None;
    }
    let start = at + 4;
    let end = start + count;
    let content = slice_to_vec(slice_subrange(bytes, start, end));
    assert(input.subrange(4, 4 + count as int) =~= bytes@.subrange(start as int, end as int));
    assert(input.skip(4 + count as int) =~= bytes@.skip(end as int));
    Some((content, end))
}

impl ValidateEventResult {
    /// Decodes the verifier's answer from the whole of `bytes`.
    ///
    /// Succeeds exactly when `bytes` are the encoding of a well-formed result,
    /// and then returns that result; bytes with an unknown tag, with a field
    /// cut short, or with anything left over after the last field are
    /// malformed.
    pub fn try_from_slice(bytes: &[u8]) -> (outcome: Result<ValidateEventResult, ErrorCode>)
        ensures
            match outcome {
                Ok(result) => decoded(bytes@) == Some(result@),
                Err(error) => error == ErrorCode::MalformedPayload && decoded(bytes@) is None,
            },
    {
        proof {
            lemma_decoded_is_parsed(bytes@);
        }
        let len = bytes.len();
        if len == 0 {
            return Err(ErrorCode::MalformedPayload);
        }
        let tag = bytes[0];
        if tag != 0 {
            if len != 1 {
                return Err(ErrorCode::MalformedPayload);
            }
            return if tag == 1 {
                Ok(ValidateEventResult::ProofNotLoaded)
            } else if tag == 2 {
                Ok(ValidateEventResult::InvalidProof)
            } else if tag == 3 {
                Ok(ValidateEventResult::InvalidEvent)
            } else {
                Err(ErrorCode::MalformedPayload)
            };
        }
        if len - 1 < 28 {
            return Err(ErrorCode::MalformedPayload);
        }
        let ghost body = bytes@.skip(1);
        let chain_id = read_u32(bytes, 1);
        let mut contract = [0u8; 20];
        let mut copied: usize = 0;
        while copied < 20
            invariant
                copied <= 20,
                29 <= bytes@.len(),
                forall|j: int| 0 <= j < copied ==> contract@[j] == bytes@[5 + j],
            decreases 20 - copied,
        {
            contract[copied] = bytes[5 + copied];
            copied += 1;
        }
        let count = read_u32(bytes, 25);
        assert(body.subrange(0, 4) =~= bytes@.subrange(1, 5));
        assert(body.subrange(4, 24) =~= contract@);
        assert(body.subrange(24, 28) =~= bytes@.subrange(25, 29));
        assert(body.skip(28) =~= bytes@.skip(29));
        let mut topics: Vec<Vec<u8>> = Vec::new();
        let mut at: usize = 29;
        let mut taken: u32 = 0;
        assert(topic_views(topics@) =~= Seq::empty());
        while taken < count
            invariant
                taken <= count,
                at <= bytes@.len(),
                29 <= bytes@.len(),
                bytes@[0] == 0,
                body == bytes@.skip(1),
                body.skip(28) == bytes@.skip(29),
                count as nat == le_value(body.subrange(24, 28)),
                decoded(bytes@) == parse_result(bytes@),
                take_topics(bytes@.skip(29), taken as nat) == Some(
                    (topic_views(topics@), bytes@.skip(at as int)),
                ),
            decreases count - taken,
        {
            match read_prefixed(bytes, at) {
                None => {
                    proof {
                        assert(take_topics(bytes@.skip(29), (taken + 1) as nat) is None);
                        lemma_take_topics_fails_on(
                            bytes@.skip(29),
                            (taken + 1) as nat,
                            count as nat,
                        );
                    }
                    return Err(ErrorCode::MalformedPayload);
                },
                Some((topic, next)) => {
                    let ghost before = topic_views(topics@);
                    topics.push(topic);
                    assert(topic_views(topics@) =~= before.push(topic@));
                    at = next;
                    taken += 1;
                },
            }
        }
        match read_prefixed(bytes, at) {
            None => Err(ErrorCode::MalformedPayload),
            Some((unindexed_data, end)) => {
                if end != len {
                    Err(ErrorCode::MalformedPayload)
                } else {
                    Ok(
                        ValidateEventResult::Valid(
                            chain_id,
                            EthEvent {
                                emitting_contract: EthAddress { bytes: contract },
                                topics,
                                unindexed_data,
                            },
                        ),
                    )
                }
            },
        }
    }
}

/// Encoding and decoding are inverse to each other on well-formed results:
/// the bytes of a result carry that result.
pub proof fn lemma_decoded_inverts_encoding(result: ResultView)
    requires
        result.well_formed(),
    ensures
        decoded(result_bytes(result)) == Some(result),
{
    lemma_decoded_is_parsed(result_bytes(result));
    lemma_parse_complete(result);
}

/// Bytes that carry a result are the encoding of that result, so no two
/// results share their bytes.
pub proof fn lemma_decoded_encodes(bytes: Seq<u8>)
    requires
        decoded(bytes) is Some,
    ensures
        encodes(decoded(bytes)->0, bytes),
        forall|other: ResultView| encodes(other, bytes) ==> other == decoded(bytes)->0,
{
    assert forall|other: ResultView| encodes(other, bytes) implies other == decoded(bytes)->0 by {
        lemma_decoded_inverts_encoding(other);
    }
}

} // verus!
