//! Logging of key-value events against the counter record.
//!
//! Each logged event comes in three forms that carry the same key, value and
//! nonce: a line of text, a binary record and a structured event.

use crate::counter::{initialized, Initialize, LoggerAccount};
use crate::error::ErrorCode;
use crate::identity::{base58_text, Address};
use crate::text::{decimal, decimal_text};
use crate::wire::{le_bytes, prefixed, write_le};
use vstd::prelude::*;
use vstd::string::StringExecFns;
use vstd::utf8::encode_utf8;

verus! {

/// The tag under which an event is logged.
#[derive(Clone, Copy, Debug, PartialEq, Eq, Structural)]
pub enum EventTag {
    /// The event as the caller gave it.
    KeyValue,
    /// The event of the second pass, key and value exchanged.
    Swapped,
}

/// The structured form of a logged event.
#[derive(Clone, Debug, PartialEq, Eq)]
pub struct LoggedEvent {
    pub tag: EventTag,
    pub key: String,
    pub value: String,
    pub nonce: u64,
}

/// The three forms of one logged event, in the order of their emission.
#[derive(Clone, Debug, PartialEq, Eq)]
pub struct Emission {
    pub line: String,
    pub record: Vec<u8>,
    pub event: LoggedEvent,
}

/// What a request to log names: the counter record, and the identity of the
/// program that logs.
#[derive(Clone, Copy, Debug, PartialEq, Eq)]
pub struct LogKeyValue {
    pub logger_account: LoggerAccount,
    pub program_id: Address,
}

/// A logged event as mathematics.
pub struct EventFacts {
    pub tag: EventTag,
    pub key: Seq<char>,
    pub value: Seq<char>,
    pub nonce: u64,
}

/// An emission as mathematics.
pub struct EmissionView {
    pub line: Seq<char>,
    pub record: Seq<u8>,
    pub event: EventFacts,
}

impl View for LoggedEvent {
    type V = EventFacts;

    open spec fn view(&self) -> EventFacts {
        EventFacts { tag: self.tag, key: self.key@, value: self.value@, nonce: self.nonce }
    }
}

impl View for Emission {
    type V = EmissionView;

    open spec fn view(&self) -> EmissionView {
        EmissionView { line: self.line@, record: self.record@, event: self.event@ }
    }
}

impl EventTag {
    /// The event name that the line of text shows.
    pub open spec fn name_text(self) -> Seq<char> {
        match self {
            EventTag::KeyValue => "KEY_VALUE_LOG"@,
            EventTag::Swapped => "SWAPPED_KEY_VALUE_LOG"@,
        }
    }

    pub fn name(&self) -> (text: &'static str)
        ensures
            text@ == self.name_text(),
    {
        match self {
            EventTag::KeyValue => "KEY_VALUE_LOG",
            EventTag::Swapped => "SWAPPED_KEY_VALUE_LOG",
        }
    }
}

/// The line of text for an event logged by the program that `program` names.
pub open spec fn line_text(program: Seq<char>, event: EventFacts) -> Seq<char> {
    "Prove: program: "@ + program + ", EVENT_NAME: "@ + event.tag.name_text() + ", Key: "@
        + event.key + ", Value: "@ + event.value + ", Nonce: "@ + decimal_text(event.nonce as nat)
}

/// The binary record of an event: key and value in UTF-8, each behind the
/// count of its bytes, then the nonce in eight bytes.
pub open spec fn record_bytes(event: EventFacts) -> Seq<u8> {
    prefixed(encode_utf8(event.key)) + prefixed(encode_utf8(event.value)) + le_bytes(
        event.nonce as nat,
        8,
    )
}

/// The UTF-8 form of `text` is short enough for a 32-bit count.
pub open spec fn fits_record(text: Seq<char>) -> bool {
    encode_utf8(text).len() <= 0xffff_ffff
}

/// The three forms of `event`.
pub open spec fn emission_of(program: Seq<char>, event: EventFacts) -> EmissionView {
    EmissionView { line: line_text(program, event), record: record_bytes(event), event }
}

/// Logging as a function of the state before it: the nonce goes up by one and
/// the event is emitted under the new nonce, unless the nonce cannot go up or
/// a field is too long for the binary record.
pub open spec fn logged(pre: LogKeyValue, tag: EventTag, key: Seq<char>, value: Seq<char>) -> Result<
    (LogKeyValue, EmissionView),
    ErrorCode,
> {
    if pre.logger_account.nonce == u64::MAX {
        Err(ErrorCode::NonceOverflow)
    } else if !(fits_record(key) && fits_record(value)) {
        Err(ErrorCode::EventTooLarge)
    } else {
        let nonce = (pre.logger_account.nonce + 1) as u64;
        Ok(
            (
                LogKeyValue { logger_account: LoggerAccount { nonce }, program_id: pre.program_id },
                emission_of(
                    base58_text(pre.program_id@),
                    EventFacts { tag, key, value, nonce },
                ),
            ),
        )
    }
}

/// Logging in two passes: the event as given, then the event with key and
/// value exchanged under the tag `Swapped`. Both passes happen or neither.
pub open spec fn logged_twice(pre: LogKeyValue, key: Seq<char>, value: Seq<char>) -> Result<
    (LogKeyValue, EmissionView, EmissionView),
    ErrorCode,
> {
    match logged(pre, EventTag::KeyValue, key, value) {
        Err(error) => Err(error),
        Ok((between, first)) => match logged(between, EventTag::Swapped, value, key) {
            Err(error) => Err(error),
            Ok((post, second)) => Ok((post, first, second)),
        },
    }
}

fn append_bytes(out: &mut Vec<u8>, bytes: &[u8])
    ensures
        final(out)@ == old(out)@ + bytes@,
{
    let mut done: usize = 0;
    assert(out@ =~= old(out)@ + bytes@.subrange(0, 0));
    while done < bytes.len()
        invariant
            done <= bytes@.len(),
            out@ == old(out)@ + bytes@.subrange(0, done as int),
        decreases bytes@.len() - done,
    {
        out.push(bytes[done]);
        done += 1;
        assert(out@ =~= old(out)@ + bytes@.subrange(0, done as int));
    }
    assert(bytes@.subrange(0, done as int) =~= bytes@);
}

/// Produces the three forms of one event for the program whose identity
/// reads `program`.
pub fn emit(program: &str, tag: EventTag, key: String, value: String, nonce: u64) -> (outcome:
    Result<Emission, ErrorCode>)
    ensures
        match outcome {
            Ok(emission) => fits_record(key@) && fits_record(value@) && emission@ == emission_of(
                program@,
                EventFacts { tag, key: key@, value: value@, nonce },
            ),
            Err(error) => error == ErrorCode::EventTooLarge && !(fits_record(key@) && fits_record(
                value@,
            )),
        },
{
    let key_bytes = key.as_str().as_bytes();
    let value_bytes = value.as_str().as_bytes();
    if key_bytes.len() > 0xffff_ffff || value_bytes.len() > 0xffff_ffff {
        return Err(ErrorCode::EventTooLarge);
    }
    let mut line = String::from_str("Prove: program: ");
    line.append(program);
    line.append(", EVENT_NAME: ");
    line.append(tag.name());
    line.append(", Key: ");
    line.append(key.as_str());
    line.append(", Value: ");
    line.append(value.as_str());
    line.append(", Nonce: ");
    let digits = decimal(nonce);
    line.append(digits.as_str());

    let mut record: Vec<u8> = Vec::new();
    write_le(&mut record, key_bytes.len() as u64, 4);
    append_bytes(&mut record, key_bytes);
    write_le(&mut record, value_bytes.len() as u64, 4);
    append_bytes(&mut record, value_bytes);
    write_le(&mut record, nonce, 8);
    assert(record@ =~= record_bytes(EventFacts { tag, key: key@, value: value@, nonce }));

    Ok(Emission { line, record, event: LoggedEvent { tag, key, value, nonce } })
}

/// One pass of logging under `tag`.
fn log_pass(ctx: &mut LogKeyValue, tag: EventTag, key: String, value: String) -> (outcome: Result<
    Emission,
    ErrorCode,
>)
    ensures
        match outcome {
            Ok(emission) => logged(*old(ctx), tag, key@, value@) == Ok::<
                (LogKeyValue, EmissionView),
                ErrorCode,
            >((*final(ctx), emission@)),
            Err(error) => *final(ctx) == *old(ctx) && logged(*old(ctx), tag, key@, value@) == Err::<
                (LogKeyValue, EmissionView),
                ErrorCode,
            >(error),
        },
{
    if ctx.logger_account.nonce == u64::MAX {
        return Err(ErrorCode::NonceOverflow);
    }
    let nonce = ctx.logger_account.nonce + 1;
    let program = ctx.program_id.to_base58();
    match emit(program.as_str(), tag, key, value, nonce) {
        Err(error) => Err(error),
        Ok(emission) => {
            ctx.logger_account.nonce = nonce;
            Ok(emission)
        },
    }
}

/// Logs one event: increments the nonce and emits the event under the new
/// nonce. A call that fails leaves the counter record as it was.
pub fn log_key_value(ctx: &mut LogKeyValue, key: String, value: String) -> (outcome: Result<
    Emission,
    ErrorCode,
>)
    ensures
        match outcome {
            Ok(emission) => logged(*old(ctx), EventTag::KeyValue, key@, value@) == Ok::<
                (LogKeyValue, EmissionView),
                ErrorCode,
            >((*final(ctx), emission@)),
            Err(error) => *final(ctx) == *old(ctx) && logged(
                *old(ctx),
                EventTag::KeyValue,
                key@,
                value@,
            ) == Err::<(LogKeyValue, EmissionView), ErrorCode>(error),
        },
{
    log_pass(ctx, EventTag::KeyValue, key, value)
}

/// Logs one event in two passes, as a unit: first as given, then with key and
/// value exchanged under the tag `Swapped`. A call that fails in either pass
/// leaves the counter record as it was before the first.
pub fn log_key_value_swapped(ctx: &mut LogKeyValue, key: String, value: String) -> (outcome:
    Result<(Emission, Emission), ErrorCode>)
    ensures
        match outcome {
            Ok((first, second)) => logged_twice(*old(ctx), key@, value@) == Ok::<
                (LogKeyValue, EmissionView, EmissionView),
                ErrorCode,
            >((*final(ctx), first@, second@)),
            Err(error) => *final(ctx) == *old(ctx) && logged_twice(*old(ctx), key@, value@) == Err::<
                (LogKeyValue, EmissionView, EmissionView),
                ErrorCode,
            >(error),
        },
{
    let mut working = *ctx;
    let first = match log_pass(&mut working, EventTag::KeyValue, key.clone(), value.clone()) {
        Err(error) => { return Err(error); },
        Ok(emission) => emission,
    };
    let second = match log_pass(&mut working, EventTag::Swapped, value, key) {
        Err(error) => { return Err(error); },
        Ok(emission) => emission,
    };
    *ctx = working;
    Ok((first, second))
}

/// A run of single-pass calls that all succeed: `states[i]` is the context
/// before call `i`, which logs `keys[i]` with `values[i]`, and `states[i + 1]`
/// the context after it.
pub open spec fn single_pass_run(
    states: Seq<LogKeyValue>,
    keys: Seq<Seq<char>>,
    values: Seq<Seq<char>>,
) -> bool {
    &&& states.len() == keys.len() + 1
    &&& values.len() == keys.len()
    &&& forall|i: int|
        0 <= i < keys.len() ==> (#[trigger] logged(
            states[i],
            EventTag::KeyValue,
            keys[i],
            values[i],
        ) matches Ok((post, _)) && post == states[i + 1])
}

/// A run of dual-pass calls that all succeed, laid out as a single-pass run.
pub open spec fn dual_pass_run(
    states: Seq<LogKeyValue>,
    keys: Seq<Seq<char>>,
    values: Seq<Seq<char>>,
) -> bool {
    &&& states.len() == keys.len() + 1
    &&& values.len() == keys.len()
    &&& forall|i: int|
        0 <= i < keys.len() ==> (#[trigger] logged_twice(states[i], keys[i], values[i]) matches Ok(
            (post, _, _),
        ) && post == states[i + 1])
}

/// Starting from a freshly created record, the nonce after any number of
/// successful single-pass calls is that number: it goes up by one with each
/// call, and each call emits its event under the nonce it leaves behind.
pub proof fn lemma_nonce_counts_calls(
    states: Seq<LogKeyValue>,
    keys: Seq<Seq<char>>,
    values: Seq<Seq<char>>,
)
    requires
        single_pass_run(states, keys, values),
        initialized(Initialize { logger_account: None }).0.logger_account == Some(
            states[0].logger_account,
        ),
    ensures
        forall|i: int| 0 <= i < states.len() ==> (#[trigger] states[i]).logger_account.nonce == i,
        forall|i: int|
            0 <= i < keys.len() ==> (#[trigger] logged(
                states[i],
                EventTag::KeyValue,
                keys[i],
                values[i],
            ))->Ok_0.1.event.nonce == i + 1,
    decreases keys.len(),
{
    if keys.len() > 0 {
        let last = keys.len() - 1;
        lemma_nonce_counts_calls(states.drop_last(), keys.drop_last(), values.drop_last());
        assert(states.drop_last()[last] == states[last]);
        assert(logged(states[last], EventTag::KeyValue, keys[last], values[last]) is Ok);
        assert forall|i: int| 0 <= i < states.len() implies (#[trigger] states[i]).logger_account.nonce
            == i by {
            if i < states.len() - 1 {
                assert(states.drop_last()[i] == states[i]);
            }
        }
        assert forall|i: int| 0 <= i < keys.len() implies (#[trigger] logged(
            states[i],
            EventTag::KeyValue,
            keys[i],
            values[i],
        ))->Ok_0.1.event.nonce == i + 1 by {
            assert(logged(states[i], EventTag::KeyValue, keys[i], values[i]) is Ok);
        }
    }
}

/// Starting from a freshly created record, the nonce after any number of
/// successful dual-pass calls is twice that number, and the two events of
/// each call are emitted under the two nonces that the call passes through.
pub proof fn lemma_nonce_counts_passes(
    states: Seq<LogKeyValue>,
    keys: Seq<Seq<char>>,
    values: Seq<Seq<char>>,
)
    requires
        dual_pass_run(states, keys, values),
        initialized(Initialize { logger_account: None }).0.logger_account == Some(
            states[0].logger_account,
        ),
    ensures
        forall|i: int|
            0 <= i < states.len() ==> (#[trigger] states[i]).logger_account.nonce == 2 * i,
        forall|i: int|
            0 <= i < keys.len() ==> {
                let passes = (#[trigger] logged_twice(states[i], keys[i], values[i]))->Ok_0;
                passes.1.event.nonce == 2 * i + 1 && passes.2.event.nonce == 2 * i + 2
            },
    decreases keys.len(),
{
    if keys.len() > 0 {
        let last = keys.len() - 1;
        lemma_nonce_counts_passes(states.drop_last(), keys.drop_last(), values.drop_last());
        assert(states.drop_last()[last] == states[last]);
        assert(logged_twice(states[last], keys[last], values[last]) is Ok);
        assert forall|i: int| 0 <= i < states.len() implies (#[trigger] states[i]).logger_account.nonce
            == 2 * i by {
            if i < states.len() - 1 {
                assert(states.drop_last()[i] == states[i]);
            }
        }
        assert forall|i: int| 0 <= i < keys.len() implies {
            let passes = (#[trigger] logged_twice(states[i], keys[i], values[i]))->Ok_0;
            passes.1.event.nonce == 2 * i + 1 && passes.2.event.nonce == 2 * i + 2
        } by {
            assert(logged_twice(states[i], keys[i], values[i]) is Ok);
        }
    }
}

} // verus!
