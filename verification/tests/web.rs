use brokerx::broker::BrokerX;
use brokerx::money::{Money, Price};
use brokerx::mfa::MfaError;
use brokerx::order::{OrderSide, OrderType};
use brokerx::pre_trade::PreTradeError;
use brokerx::text::{parse_decimal, parse_u64};
use brokerx::user::{AuthError, UserRepoExt};
use brokerx::web::{
    challenge_failed, check_code, cookie_token, create_auth_cookie, create_logout_cookie,
    deposit_failed, explain, extract_token, login_path, login_step, mfa_redirect, order_refused,
    parse_user_id, registration_redirect, registration_refused, registration_sending_failed,
    registration_step, resending_failed, sending_failed, session_owner, signed_in_user,
    verification_error, Claims, DepositForm, LoginForm, LoginStep, PlaceOrderForm, RegisterForm,
    RegistrationStep,
};

#[test]
fn the_auth_cookie_lasts_a_day() {
    assert_eq!(
        create_auth_cookie("abc.def.ghi"),
        "token=abc.def.ghi; HttpOnly; Secure; SameSite=Strict; Max-Age=86400; Path=/"
    );
    assert_eq!(
        create_logout_cookie(),
        "token=; HttpOnly; Secure; SameSite=Strict; Max-Age=0; Path=/"
    );
}

#[test]
fn the_bearer_token_comes_first() {
    assert_eq!(
        extract_token(Some("Bearer abc"), Some("token=xyz")),
        Some("abc".to_string())
    );
    assert_eq!(extract_token(Some("Bearer "), None), Some(String::new()));
    assert_eq!(
        extract_token(Some("Basic abc"), Some("token=xyz")),
        Some("xyz".to_string())
    );
    assert_eq!(extract_token(Some("bearer abc"), None), None);
    assert_eq!(extract_token(None, None), None);
}

#[test]
fn the_cookie_token_is_the_first_token_cookie() {
    assert_eq!(cookie_token("token=xyz"), Some("xyz".to_string()));
    assert_eq!(
        cookie_token("theme=dark;  token=xyz ; token=second"),
        Some("xyz".to_string())
    );
    assert_eq!(cookie_token("theme=dark; lang=en"), None);
    assert_eq!(cookie_token(""), None);
    assert_eq!(cookie_token("atoken=1;token="), Some(String::new()));
    assert_eq!(cookie_token("\t token=a b \u{a0}"), Some("a b".to_string()));
    assert_eq!(cookie_token("Token=xyz"), None);
    assert_eq!(cookie_token(";;token=z"), Some("z".to_string()));
}

#[test]
fn claims_last_a_day() {
    let c = Claims::new_at(0xa1a2a3a4_b1b2_c1c2_d1d2_d3d4d5d6d7d8, "ann@example.com".to_string(), 1_000);
    assert_eq!(c.sub, "a1a2a3a4-b1b2-c1c2-d1d2-d3d4d5d6d7d8");
    assert_eq!(c.email, "ann@example.com");
    assert_eq!(c.iat, 1_000);
    assert_eq!(c.exp, 87_400);
    let now = Claims::new(1, "ann@example.com".to_string());
    assert_eq!(now.exp - now.iat, 86_400);
    assert!(now.iat > 1_600_000_000);
    assert_eq!(now.sub, "00000000-0000-0000-0000-000000000001");
}

#[test]
fn unsigned_numbers_are_read_in_decimal() {
    assert_eq!(parse_u64("0"), Some(0));
    assert_eq!(parse_u64("007"), Some(7));
    assert_eq!(parse_u64("+15"), Some(15));
    assert_eq!(parse_u64("18446744073709551615"), Some(u64::MAX));
    assert_eq!(parse_u64("18446744073709551616"), None);
    assert_eq!(parse_u64(""), None);
    assert_eq!(parse_u64("+"), None);
    assert_eq!(parse_u64("-1"), None);
    assert_eq!(parse_u64("1 "), None);
    assert_eq!(parse_u64("1.0"), None);
    assert_eq!(parse_u64("++1"), None);
}

#[test]
fn decimals_are_read_in_ten_thousandths() {
    assert_eq!(parse_decimal("150.50"), Some(1_505_000));
    assert_eq!(parse_decimal("150.505"), Some(1_505_050));
    assert_eq!(parse_decimal("0.0001"), Some(1));
    assert_eq!(parse_decimal("12"), Some(120_000));
    assert_eq!(parse_decimal("12."), Some(120_000));
    assert_eq!(parse_decimal("0"), Some(0));
    assert_eq!(parse_decimal("0.00001"), None);
    assert_eq!(parse_decimal(".5"), None);
    assert_eq!(parse_decimal(""), None);
    assert_eq!(parse_decimal("1.2.3"), None);
    assert_eq!(parse_decimal("1e3"), None);
    assert_eq!(parse_decimal("-1"), None);
    assert_eq!(parse_decimal("1,5"), None);
    assert_eq!(
        parse_decimal("34028236692093846346337460743176821.1455"),
        Some(u128::MAX)
    );
    assert_eq!(parse_decimal("34028236692093846346337460743176821.1456"), None);
    assert_eq!(parse_decimal("340282366920938463463374607431768211456"), None);
}

#[test]
fn the_login_form_needs_both_fields() {
    let ok = LoginForm { email: "a@b.c".to_string(), password: "x".to_string() };
    assert_eq!(ok.check(), None);
    let no_email = LoginForm { email: String::new(), password: "x".to_string() };
    assert_eq!(no_email.check(), Some("Email and password are required".to_string()));
    let no_password = LoginForm { email: "a@b.c".to_string(), password: String::new() };
    assert_eq!(no_password.check(), Some("Email and password are required".to_string()));
}

fn register_form(password: &str, confirm: &str, email: &str) -> RegisterForm {
    RegisterForm {
        firstname: "Ann".to_string(),
        surname: "Example".to_string(),
        email: email.to_string(),
        password: password.to_string(),
        confirm_password: confirm.to_string(),
    }
}

#[test]
fn the_registration_form_is_checked_in_order() {
    assert_eq!(register_form("secret1", "secret1", "a@b.c").check(), None);
    assert_eq!(
        register_form("secret1", "secret2", "").check(),
        Some("Passwords do not match".to_string())
    );
    assert_eq!(
        register_form("abc", "abc", "").check(),
        Some("All fields are required".to_string())
    );
    assert_eq!(
        register_form("", "", "a@b.c").check(),
        Some("All fields are required".to_string())
    );
    assert_eq!(
        register_form("abcde", "abcde", "a@b.c").check(),
        Some("Password must be at least 6 characters long".to_string())
    );
    assert_eq!(register_form("abcdef", "abcdef", "a@b.c").check(), None);
}

#[test]
fn a_code_has_six_bytes() {
    assert_eq!(check_code("123456"), None);
    assert_eq!(check_code("abcdef"), None);
    assert_eq!(check_code(""), Some("Please enter a valid 6-digit code".to_string()));
    assert_eq!(check_code("12345"), Some("Please enter a valid 6-digit code".to_string()));
    assert_eq!(check_code("1234567"), Some("Please enter a valid 6-digit code".to_string()));
}

#[test]
fn a_deposit_is_a_positive_amount() {
    let parse = |text: &str| DepositForm { amount: text.to_string() }.parse();
    assert_eq!(parse("12.5"), Ok(Money::from_units(125_000)));
    assert_eq!(parse("0.0001"), Ok(Money::from_units(1)));
    for bad in ["0", "0.0", "", "abc", "-5", "1.23456"] {
        assert_eq!(parse(bad), Err("Please enter a valid positive amount".to_string()));
    }
}

fn order_form(side: &str, kind: &str, quantity: &str, price: &str) -> PlaceOrderForm {
    PlaceOrderForm {
        symbol: "AAPL".to_string(),
        side: side.to_string(),
        order_type: kind.to_string(),
        quantity: quantity.to_string(),
        price: price.to_string(),
    }
}

#[test]
fn the_order_form_is_read_field_by_field() {
    let o = order_form("buy", "limit", "100", "150.50").parse().unwrap();
    assert_eq!(o.symbol, "AAPL");
    assert_eq!(o.quantity, 100);
    assert_eq!(o.order_side, OrderSide::Buy);
    assert_eq!(o.order_type, OrderType::Limit(Price::from_units(1_505_000)));
    let o = order_form("sell", "market", "3", "").parse().unwrap();
    assert_eq!(o.order_side, OrderSide::Sell);
    assert_eq!(o.order_type, OrderType::Market);

    let error = |f: PlaceOrderForm| f.parse().unwrap_err();
    assert_eq!(
        error(order_form("hold", "swap", "0", "x")),
        "Please enter a valid positive quantity"
    );
    assert_eq!(
        error(order_form("hold", "swap", "-3", "x")),
        "Please enter a valid positive quantity"
    );
    assert_eq!(error(order_form("hold", "swap", "1", "x")), "Invalid order side");
    assert_eq!(error(order_form("Buy", "limit", "1", "1")), "Invalid order side");
    assert_eq!(error(order_form("buy", "swap", "1", "x")), "Invalid order type");
    assert_eq!(
        error(order_form("buy", "limit", "1", "x")),
        "Please enter a valid positive price"
    );
    assert_eq!(
        error(order_form("buy", "limit", "1", "0")),
        "Please enter a valid positive price"
    );
    assert_eq!(
        error(order_form("buy", "limit", "1", "1844674407370956")),
        "Please enter a valid positive price"
    );
    assert!(order_form("buy", "limit", "1", "1844674407370955.1615").parse().is_ok());
}

#[test]
fn the_first_factor_decides_the_next_step() {
    assert!(matches!(login_step(&Ok(true)), LoginStep::SendCode));
    assert!(matches!(login_step(&Ok(false)), LoginStep::SendCode));
    match login_step(&Err(AuthError::NotVerified(77))) {
        LoginStep::ConfirmRegistration(id) => assert_eq!(id, 77),
        other => panic!("unexpected step: {:?}", other),
    }
    for refusal in [AuthError::UserNotFound, AuthError::InvalidPassword] {
        match login_step(&Err(refusal)) {
            LoginStep::Refuse(m) => assert_eq!(m, "Invalid email or password"),
            other => panic!("unexpected step: {:?}", other),
        }
    }
}

#[test]
fn redirects_carry_the_challenge() {
    assert_eq!(mfa_redirect("abc"), "/verify-mfa?challenge_id=abc");
    assert_eq!(
        registration_redirect("abc", 0x10),
        "/verify-registration?challenge_id=abc&user_id=00000000-0000-0000-0000-000000000010"
    );
}

#[test]
fn errors_are_explained() {
    assert_eq!(explain("a: ", "b"), "a: b");
    assert_eq!(verification_error(&Ok(true)), None);
    assert_eq!(verification_error(&Ok(false)), Some("Invalid verification code".to_string()));
    assert_eq!(
        verification_error(&Err(MfaError::ChallengeExpired)),
        Some("Verification failed: Challenge has expired".to_string())
    );
    assert_eq!(
        order_refused(&PreTradeError::InvalidQuantity),
        "Order placement failed: Invalid quantity: must be greater than 0"
    );
    assert_eq!(
        registration_refused(&AuthError::UserAlreadyExists),
        "Registration failed: User already exists"
    );
    assert_eq!(
        sending_failed(&MfaError::ServiceUnavailable),
        "Failed to send verification code: MFA service is temporarily unavailable"
    );
    assert_eq!(
        registration_sending_failed(&MfaError::SendingFailed("no route".to_string())),
        "Failed to send verification email: Failed to send OTP: no route"
    );
    assert_eq!(
        resending_failed(&MfaError::ChallengeNotFound),
        "Failed to resend verification code: Challenge not found"
    );
    assert_eq!(challenge_failed(&MfaError::InvalidCode), "Challenge error: Invalid verification code");
    assert_eq!(deposit_failed(&AuthError::UserNotFound), "Deposit failed: User not found");
}

#[test]
fn a_session_names_a_stored_user() {
    let mut broker = BrokerX::new_for_testing();
    let id = broker
        .processing_pool
        .shared_state
        .user_repo
        .create_user(
            "ann@example.com".to_string(),
            "correct horse".to_string(),
            "Ann".to_string(),
            "Example".to_string(),
            Money::from_units(0),
        )
        .unwrap();
    let claims = Claims::new_at(id, "ann@example.com".to_string(), 0);
    assert_eq!(signed_in_user(&broker, &claims).unwrap().id, Some(id));
    // The subject may be written in any form that names the identifier.
    let mut upper = Claims::new_at(id, "ann@example.com".to_string(), 0);
    upper.sub = upper.sub.to_uppercase().replace('-', "");
    assert_eq!(signed_in_user(&broker, &upper).unwrap().id, Some(id));
    let stranger = Claims::new_at(id ^ 1, "ann@example.com".to_string(), 0);
    assert!(signed_in_user(&broker, &stranger).is_none());
    let mut garbled = Claims::new_at(id, "ann@example.com".to_string(), 0);
    garbled.sub = "not an identifier".to_string();
    assert!(signed_in_user(&broker, &garbled).is_none());
    assert_eq!(login_path(), "/login");
}

fn stored_user(id: Option<u128>, verified: bool) -> brokerx::user::User {
    let mut user = brokerx::user::User::with_password_hash(
        "ann@example.com".to_string(),
        Some(String::new()),
        "Ann".to_string(),
        "Example".to_string(),
        Money::from_units(0),
        0,
    )
    .unwrap();
    user.id = id;
    user.is_verified = verified;
    user
}

#[test]
fn a_registration_resumes_or_is_refused() {
    assert!(matches!(registration_step(&None), RegistrationStep::Create));
    match registration_step(&Some(stored_user(Some(7), false))) {
        RegistrationStep::Resume(id) => assert_eq!(id, 7),
        other => panic!("unexpected step: {:?}", other),
    }
    match registration_step(&Some(stored_user(Some(7), true))) {
        RegistrationStep::Refuse(m) => assert_eq!(m, "Email already exists"),
        other => panic!("unexpected step: {:?}", other),
    }
    match registration_step(&Some(stored_user(None, false))) {
        RegistrationStep::Refuse(m) => assert_eq!(m, "User ID not found"),
        other => panic!("unexpected step: {:?}", other),
    }
}

#[test]
fn a_session_begins_for_the_user_of_the_challenge() {
    assert_eq!(session_owner(&None), Err("User account not found".to_string()));
    assert_eq!(
        session_owner(&Some(stored_user(None, true))),
        Err("User ID not found".to_string())
    );
    assert_eq!(
        session_owner(&Some(stored_user(Some(9), true))),
        Ok((9, "ann@example.com".to_string()))
    );
    assert_eq!(parse_user_id("00000000-0000-0000-0000-00000000000a"), Ok(10));
    assert_eq!(parse_user_id("ten"), Err("Invalid user ID".to_string()));
}
