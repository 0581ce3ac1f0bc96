use brokerx::mfa::{
    email_body, otp_code, EmailConfig, EmailOtpProvider, MfaError, MfaProvider, MfaService,
    MfaServiceFactory, MockMfaProvider, OtpChallenge,
};

const HOUR_MICROS: i64 = 3_600_000_000;
const FIVE_MINUTES_MICROS: i64 = 300_000_000;

fn now_micros() -> i64 {
    std::time::SystemTime::now()
        .duration_since(std::time::UNIX_EPOCH)
        .unwrap()
        .as_micros() as i64
}

#[test]
fn test_generate_otp_code() {
    let provider = EmailOtpProvider::new(EmailConfig::for_testing());
    let code = provider.generate_otp_code();

    assert_eq!(code.len(), 6);
    assert!(code.chars().all(|c| c.is_ascii_digit()));

    let code_num: u32 = code.parse().unwrap();
    assert!((100_000..1_000_000).contains(&code_num));
}

#[test]
fn test_challenge_expiry() {
    let provider = EmailOtpProvider::new(EmailConfig::for_testing());

    // A challenge that expires a millisecond after it is issued.
    let mut provider_with_short_expiry = provider;
    provider_with_short_expiry.set_challenge_duration(1_000);
    assert_eq!(provider_with_short_expiry.challenge_duration(), 1_000);

    let id = provider_with_short_expiry
        .send_otp_with("user@example.com", 7, 123_456, 1_000_000)
        .unwrap();
    let at_expiry = provider_with_short_expiry.get_challenge_at(&id, 1_001_000).unwrap();
    assert_eq!(at_expiry.expires_at, 1_001_000);
    assert!(matches!(
        provider_with_short_expiry.get_challenge_at(&id, 1_001_001),
        Err(MfaError::ChallengeExpired)
    ));
    assert!(matches!(
        provider_with_short_expiry.verify_otp_at(&id, "123456", 1_001_001),
        Err(MfaError::ChallengeExpired)
    ));
    // Verifying an expired challenge withdraws it.
    assert!(matches!(
        provider_with_short_expiry.get_challenge_at(&id, 1_000_000),
        Err(MfaError::ChallengeNotFound)
    ));
}

#[test]
fn initiate_mfa_creates_challenge() {
    let provider = MockMfaProvider::new();
    let mut service = MfaService::new(provider);

    let challenge_id = service.initiate_mfa("test@example.com").unwrap();
    assert!(!challenge_id.is_empty());
}

#[test]
fn initiate_mfa_handles_send_failure() {
    let provider = MockMfaProvider::new().with_send_failure();
    let mut service = MfaService::new(provider);

    let result = service.initiate_mfa("test@example.com");
    assert!(matches!(result, Err(MfaError::SendingFailed(_))));
}

#[test]
fn verify_mfa_succeeds_with_correct_code() {
    let provider = MockMfaProvider::new();
    let mut service = MfaService::new(provider);

    let challenge_id = service.initiate_mfa("test@example.com").unwrap();

    let result = service.verify_mfa(&challenge_id, "123456").unwrap();
    assert!(result);
}

#[test]
fn verify_mfa_fails_with_wrong_code() {
    let provider = MockMfaProvider::new();
    let mut service = MfaService::new(provider);

    let challenge_id = service.initiate_mfa("test@example.com").unwrap();

    let result = service.verify_mfa(&challenge_id, "wrong").unwrap_err();
    assert!(matches!(result, MfaError::InvalidCode));
}

#[test]
fn verify_mfa_fails_with_missing_challenge() {
    let provider = MockMfaProvider::new();
    let mut service = MfaService::new(provider);

    let result = service.verify_mfa("nonexistent", "123456").unwrap_err();
    assert!(matches!(result, MfaError::ChallengeNotFound));
}

#[test]
fn verify_mfa_handles_service_failure() {
    let provider = MockMfaProvider::new().with_verify_failure();
    let mut service = MfaService::new(provider);

    let result = service.verify_mfa("any", "123456").unwrap_err();
    assert!(matches!(result, MfaError::ServiceUnavailable));
}

#[test]
fn get_challenge_returns_challenge_info() {
    let provider = MockMfaProvider::new();
    let mut service = MfaService::new(provider);

    let challenge_id = service.initiate_mfa("test@example.com").unwrap();

    let challenge = service.get_challenge(&challenge_id).unwrap();
    assert_eq!(challenge.user_email, "test@example.com");
    assert_eq!(challenge.code, "123456");
    assert!(!challenge.verified);
}

#[test]
fn get_challenge_fails_for_missing_challenge() {
    let provider = MockMfaProvider::new();
    let service = MfaService::new(provider);

    let result = service.get_challenge("nonexistent").unwrap_err();
    assert!(matches!(result, MfaError::ChallengeNotFound));
}

#[test]
fn challenge_expires_after_time() {
    let mut provider = MockMfaProvider::new();

    // An expired challenge, filed by hand.
    let challenge_id = "0b0e7f1c-5f0a-4d2e-9d38-2d1c9f3a7e11".to_string();
    let past_time = now_micros() - HOUR_MICROS;
    let challenge = OtpChallenge {
        id: challenge_id.clone(),
        user_email: "test@example.com".to_string(),
        code: "123456".to_string(),
        verified: false,
        created_at: past_time,
        expires_at: past_time + FIVE_MINUTES_MICROS,
    };

    provider.insert_challenge(challenge);

    let result = provider.verify_otp(&challenge_id, "123456").unwrap_err();
    assert!(matches!(result, MfaError::ChallengeExpired));
}

#[test]
fn challenge_verification_updates_status() {
    let provider = MockMfaProvider::new();
    let mut service = MfaService::new(provider);

    let challenge_id = service.initiate_mfa("test@example.com").unwrap();

    let challenge = service.get_challenge(&challenge_id).unwrap();
    assert!(!challenge.verified);

    service.verify_mfa(&challenge_id, "123456").unwrap();

    let challenge = service.get_challenge(&challenge_id).unwrap();
    assert!(challenge.verified);
}

#[test]
fn mock_provider_creates_valid_challenges() {
    let mut provider = MockMfaProvider::new();

    let challenge_id = provider.send_otp("user@test.com").unwrap();

    let challenge = provider.get_challenge(&challenge_id).unwrap();
    assert_eq!(challenge.user_email, "user@test.com");
    assert_eq!(challenge.code, "123456");
    assert!(!challenge.verified);
    assert!(challenge.expires_at > challenge.created_at);
}

#[test]
fn mock_provider_get_last_challenge_works() {
    let mut provider = MockMfaProvider::new();

    provider.send_otp("first@test.com").unwrap();
    provider.send_otp("second@test.com").unwrap();

    let last_challenge = provider.get_last_challenge().unwrap();
    assert_eq!(last_challenge.user_email, "second@test.com");
}

#[test]
fn mock_challenge_has_the_identifier_as_text() {
    let mut provider = MockMfaProvider::new();
    let id = provider
        .send_otp_with("user@test.com", 0xa1a2a3a4_b1b2_c1c2_d1d2_d3d4d5d6d7d8, 1_000)
        .unwrap();
    assert_eq!(id, "a1a2a3a4-b1b2-c1c2-d1d2-d3d4d5d6d7d8");
    let challenge = provider.find_challenge(&id).unwrap();
    assert_eq!(challenge.created_at, 1_000);
    assert_eq!(challenge.expires_at, 300_001_000);
}

#[test]
fn expiry_saturates_at_the_end_of_time() {
    let mut provider = MockMfaProvider::new();
    let id = provider.send_otp_with("user@test.com", 1, i64::MAX - 5).unwrap();
    let challenge = provider.find_challenge(&id).unwrap();
    assert_eq!(challenge.expires_at, i64::MAX);
}

#[test]
fn a_second_challenge_under_one_identifier_replaces_the_first() {
    let mut provider = MockMfaProvider::new();
    let a = provider.send_otp_with("first@test.com", 5, 10).unwrap();
    provider.send_otp_with("other@test.com", 6, 20).unwrap();
    let b = provider.send_otp_with("second@test.com", 5, 30).unwrap();
    assert_eq!(a, b);
    assert_eq!(provider.find_challenge(&a).unwrap().user_email, "second@test.com");
    assert_eq!(provider.get_last_challenge().unwrap().user_email, "second@test.com");
}

#[test]
fn otp_codes_have_six_digits() {
    assert_eq!(otp_code(0), "000000");
    assert_eq!(otp_code(42), "000042");
    assert_eq!(otp_code(100_000), "100000");
    assert_eq!(otp_code(999_998), "999998");
    assert_eq!(otp_code(1_234_567), "1234567");
}

#[test]
fn email_provider_files_a_challenge_and_a_message() {
    let mut provider = EmailOtpProvider::new(EmailConfig::for_testing());
    let id = provider.send_otp_with("user@example.com", 9, 654_321, 50).unwrap();
    assert_eq!(id, "00000000-0000-0000-0000-000000000009");

    let challenge = provider.get_challenge_at(&id, 50).unwrap();
    assert_eq!(challenge.code, "654321");
    assert_eq!(challenge.user_email, "user@example.com");
    assert_eq!(challenge.expires_at, 300_000_050);
    assert!(!challenge.verified);

    let messages = provider.take_outbox();
    assert_eq!(messages.len(), 1);
    assert_eq!(messages[0].challenge_id, id);
    assert_eq!(messages[0].to, "user@example.com");
    assert_eq!(messages[0].subject, "BrokerX - Your Verification Code");
    assert_eq!(messages[0].body, email_body("654321"));
    assert!(messages[0].body.contains("<div class=\"code\">654321</div>"));
    assert!(provider.take_outbox().is_empty());
}

#[test]
fn the_test_address_gets_the_fixed_code() {
    let mut provider = EmailOtpProvider::new(EmailConfig::for_testing());
    let id = provider.send_otp_with("test@test.com", 3, 654_321, 0).unwrap();
    assert_eq!(provider.get_challenge_at(&id, 0).unwrap().code, "000000");
}

#[test]
fn email_provider_verifies_codes() {
    let mut provider = EmailOtpProvider::new(EmailConfig::for_testing());
    let id = provider.send_otp_with("user@example.com", 9, 654_321, 50).unwrap();

    assert!(matches!(
        provider.verify_otp_at("missing", "654321", 60),
        Err(MfaError::ChallengeNotFound)
    ));
    assert!(matches!(
        provider.verify_otp_at(&id, "111111", 60),
        Err(MfaError::InvalidCode)
    ));
    assert!(!provider.get_challenge_at(&id, 60).unwrap().verified);
    assert!(provider.verify_otp_at(&id, "654321", 60).unwrap());
    assert!(provider.get_challenge_at(&id, 60).unwrap().verified);
    // Once verified, the challenge stays so whatever code is given.
    assert!(provider.verify_otp_at(&id, "111111", 70).unwrap());
}

#[test]
fn a_failed_sending_withdraws_the_challenge() {
    let mut service = MfaServiceFactory::create_email_mfa_service(EmailConfig::for_testing());
    let id = service.initiate_mfa("user@example.com").unwrap();
    assert!(service.get_challenge(&id).is_ok());

    let error = service.send_failed(&id, "Failed to send email: refused".to_string());
    assert_eq!(error.message(), "Failed to send OTP: Failed to send email: refused");
    assert!(matches!(
        service.get_challenge(&id),
        Err(MfaError::ChallengeNotFound)
    ));
    assert_eq!(service.take_outbox().len(), 1);
}

#[test]
fn mfa_messages_read_as_documented() {
    assert_eq!(MfaError::ChallengeNotFound.message(), "Challenge not found");
    assert_eq!(MfaError::ChallengeExpired.message(), "Challenge has expired");
    assert_eq!(MfaError::InvalidCode.message(), "Invalid verification code");
    assert_eq!(
        MfaError::ServiceUnavailable.message(),
        "MFA service is temporarily unavailable"
    );
}

#[test]
fn the_sender_is_name_and_address() {
    let config = EmailConfig::for_testing();
    assert_eq!(config.sender(), "BrokerX Security <test@test.com>");
    assert_eq!(config.smtp_server, "localhost");
    assert_eq!(config.smtp_port, 25);
}
