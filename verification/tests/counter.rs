use proof_relay::{initialize, ErrorCode, Initialize, LoggerAccount};

#[test]
fn initialize_creates_record_with_nonce_zero() {
    let mut ctx = Initialize { logger_account: None };
    assert_eq!(initialize(&mut ctx), Ok(()));
    assert_eq!(ctx.logger_account, Some(LoggerAccount { nonce: 0 }));
}

#[test]
fn initialize_twice_fails_the_second_time() {
    let mut ctx = Initialize { logger_account: None };
    assert_eq!(initialize(&mut ctx), Ok(()));
    assert_eq!(initialize(&mut ctx), Err(ErrorCode::AlreadyInitialized));
    assert_eq!(ctx.logger_account, Some(LoggerAccount { nonce: 0 }));
}

#[test]
fn initialize_never_resets_a_record_in_use() {
    let mut ctx = Initialize { logger_account: Some(LoggerAccount { nonce: 41 }) };
    assert_eq!(initialize(&mut ctx), Err(ErrorCode::AlreadyInitialized));
    assert_eq!(ctx.logger_account, Some(LoggerAccount { nonce: 41 }));
    assert_eq!(initialize(&mut ctx), Err(ErrorCode::AlreadyInitialized));
    assert_eq!(ctx.logger_account, Some(LoggerAccount { nonce: 41 }));
}

#[test]
fn error_messages_name_each_outcome() {
    assert_eq!(ErrorCode::MissingReturn.message(), "Missing return data");
    assert_eq!(ErrorCode::WrongProgram.message(), "Wrong program returned data");
    assert_eq!(ErrorCode::ProgramIdMismatch.message(), "Program ID mismatch");
    assert_eq!(ErrorCode::AlreadyInitialized.message(), "Counter record already exists");
    assert_eq!(ErrorCode::NonceOverflow.message(), "Nonce overflow");
    assert_eq!(ErrorCode::EventTooLarge.message(), "Event field too large");
    assert_eq!(ErrorCode::NestedCallFailed.message(), "Nested call failed");
    assert_eq!(ErrorCode::MalformedPayload.message(), "Malformed return payload");
}
