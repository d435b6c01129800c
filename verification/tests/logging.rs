use proof_relay::emitter::{emit, EventTag};
use proof_relay::{log_key_value, log_key_value_swapped, Address, ErrorCode};
use proof_relay::{LogKeyValue, LoggerAccount};

const LOGGER_PROGRAM: [u8; 32] = [
    254, 127, 67, 79, 171, 122, 4, 146, 253, 143, 150, 154, 10, 122, 32, 161, 54, 188, 188, 61,
    55, 48, 121, 30, 99, 64, 175, 50, 236, 187, 28, 211,
];

fn fresh() -> LogKeyValue {
    LogKeyValue {
        logger_account: LoggerAccount { nonce: 0 },
        program_id: Address::new(LOGGER_PROGRAM),
    }
}

fn at(nonce: u64) -> LogKeyValue {
    LogKeyValue { logger_account: LoggerAccount { nonce }, program_id: Address::new(LOGGER_PROGRAM) }
}

#[test]
fn first_log_on_fresh_record() {
    let mut ctx = fresh();
    let emission = log_key_value(&mut ctx, "foo".to_string(), "bar".to_string()).unwrap();
    assert_eq!(ctx.logger_account.nonce, 1);
    assert_eq!(
        emission.line,
        "Prove: program: J8T7Dg51zWifVfd4H4G61AaVtmW7GqegHx3h7a59hKSa, \
         EVENT_NAME: KEY_VALUE_LOG, Key: foo, Value: bar, Nonce: 1"
    );
    assert_eq!(
        emission.record,
        vec![3, 0, 0, 0, b'f', b'o', b'o', 3, 0, 0, 0, b'b', b'a', b'r', 1, 0, 0, 0, 0, 0, 0, 0]
    );
    assert_eq!(emission.event.tag, EventTag::KeyValue);
    assert_eq!(emission.event.key, "foo");
    assert_eq!(emission.event.value, "bar");
    assert_eq!(emission.event.nonce, 1);
    assert_eq!(ctx.program_id, Address::new(LOGGER_PROGRAM));
}

#[test]
fn dual_pass_log_on_fresh_record() {
    let mut ctx = fresh();
    let (first, second) =
        log_key_value_swapped(&mut ctx, "foo".to_string(), "bar".to_string()).unwrap();
    assert_eq!(ctx.logger_account.nonce, 2);
    assert_eq!(first.event.tag, EventTag::KeyValue);
    assert_eq!(first.event.key, "foo");
    assert_eq!(first.event.value, "bar");
    assert_eq!(first.event.nonce, 1);
    assert_eq!(
        first.line,
        "Prove: program: J8T7Dg51zWifVfd4H4G61AaVtmW7GqegHx3h7a59hKSa, \
         EVENT_NAME: KEY_VALUE_LOG, Key: foo, Value: bar, Nonce: 1"
    );
    assert_eq!(second.event.tag, EventTag::Swapped);
    assert_eq!(second.event.key, "bar");
    assert_eq!(second.event.value, "foo");
    assert_eq!(second.event.nonce, 2);
    assert_eq!(
        second.line,
        "Prove: program: J8T7Dg51zWifVfd4H4G61AaVtmW7GqegHx3h7a59hKSa, \
         EVENT_NAME: SWAPPED_KEY_VALUE_LOG, Key: bar, Value: foo, Nonce: 2"
    );
    assert_eq!(
        second.record,
        vec![3, 0, 0, 0, b'b', b'a', b'r', 3, 0, 0, 0, b'f', b'o', b'o', 2, 0, 0, 0, 0, 0, 0, 0]
    );
}

#[test]
fn nonce_counts_single_pass_calls() {
    let mut ctx = fresh();
    for call in 1..=25u64 {
        let before = ctx.logger_account.nonce;
        let emission = log_key_value(&mut ctx, format!("k{}", call), "v".to_string()).unwrap();
        assert_eq!(ctx.logger_account.nonce, before + 1);
        assert_eq!(ctx.logger_account.nonce, call);
        assert_eq!(emission.event.nonce, call);
    }
}

#[test]
fn nonce_counts_dual_pass_calls_twice() {
    let mut ctx = fresh();
    for call in 1..=25u64 {
        let (first, second) =
            log_key_value_swapped(&mut ctx, "k".to_string(), "v".to_string()).unwrap();
        assert_eq!(ctx.logger_account.nonce, 2 * call);
        assert_eq!(first.event.nonce, 2 * call - 1);
        assert_eq!(second.event.nonce, 2 * call);
    }
}

#[test]
fn three_forms_carry_the_same_fields() {
    let mut ctx = at(299);
    let emission = log_key_value(&mut ctx, "héllo".to_string(), "".to_string()).unwrap();
    assert_eq!(ctx.logger_account.nonce, 300);
    assert!(emission.line.ends_with("Key: héllo, Value: , Nonce: 300"));
    let mut record = vec![6, 0, 0, 0];
    record.extend_from_slice("héllo".as_bytes());
    record.extend_from_slice(&[0, 0, 0, 0]);
    record.extend_from_slice(&[44, 1, 0, 0, 0, 0, 0, 0]);
    assert_eq!(emission.record, record);
    assert_eq!(emission.event.key, "héllo");
    assert_eq!(emission.event.value, "");
    assert_eq!(emission.event.nonce, 300);
}

#[test]
fn log_at_largest_nonce_is_refused() {
    let mut ctx = at(u64::MAX);
    let outcome = log_key_value(&mut ctx, "foo".to_string(), "bar".to_string());
    assert_eq!(outcome, Err(ErrorCode::NonceOverflow));
    assert_eq!(ctx, at(u64::MAX));
}

#[test]
fn log_reaches_largest_nonce() {
    let mut ctx = at(u64::MAX - 1);
    let emission = log_key_value(&mut ctx, "a".to_string(), "b".to_string()).unwrap();
    assert_eq!(ctx.logger_account.nonce, u64::MAX);
    assert!(emission.line.ends_with("Nonce: 18446744073709551615"));
    assert_eq!(&emission.record[10..], &[255u8; 8]);
}

#[test]
fn dual_pass_is_all_or_nothing() {
    let mut ctx = at(u64::MAX - 1);
    let outcome = log_key_value_swapped(&mut ctx, "foo".to_string(), "bar".to_string());
    assert_eq!(outcome, Err(ErrorCode::NonceOverflow));
    assert_eq!(ctx, at(u64::MAX - 1));

    let mut ctx = at(u64::MAX);
    let outcome = log_key_value_swapped(&mut ctx, "foo".to_string(), "bar".to_string());
    assert_eq!(outcome, Err(ErrorCode::NonceOverflow));
    assert_eq!(ctx, at(u64::MAX));
}

#[test]
fn emit_takes_the_program_text_as_given() {
    let emission = emit("someone", EventTag::Swapped, "k".to_string(), "v".to_string(), 7).unwrap();
    assert_eq!(
        emission.line,
        "Prove: program: someone, EVENT_NAME: SWAPPED_KEY_VALUE_LOG, Key: k, Value: v, Nonce: 7"
    );
    assert_eq!(emission.record, vec![1, 0, 0, 0, b'k', 1, 0, 0, 0, b'v', 7, 0, 0, 0, 0, 0, 0, 0]);
    assert_eq!(emission.event.tag, EventTag::Swapped);
    assert_eq!(EventTag::KeyValue.name(), "KEY_VALUE_LOG");
    assert_eq!(EventTag::Swapped.name(), "SWAPPED_KEY_VALUE_LOG");
}
