use brokerx::mfa::{MfaError, MfaService, MockMfaProvider};
use brokerx::money::{Money, Price};
use brokerx::order::OrderSide;
use brokerx::user::{AuthError, NotEnoughMoneyError, User, UserRepo, UserRepoExt};

fn price(whole: u64, frac: u64) -> Price {
    Price::from_parts(whole, frac).unwrap()
}

fn money(whole: u64, frac: u64) -> Money {
    Money::from_parts(whole, frac).unwrap()
}

fn user(balance: Money) -> User {
    User::new(
        "ann@example.com".to_string(),
        "correct horse".to_string(),
        "Ann".to_string(),
        "Example".to_string(),
        balance,
    )
    .unwrap()
}

#[test]
fn a_short_password_is_weak() {
    let r = User::new(
        "ann@example.com".to_string(),
        "12345".to_string(),
        "Ann".to_string(),
        "Example".to_string(),
        money(0, 0),
    );
    assert!(matches!(r, Err(AuthError::WeakPassword)));
    // Six bytes are enough.
    assert!(User::new(
        "ann@example.com".to_string(),
        "123456".to_string(),
        "Ann".to_string(),
        "Example".to_string(),
        money(0, 0),
    )
    .is_ok());
}

#[test]
fn a_new_user_is_unverified_and_holds_nothing() {
    let u = user(money(250, 5000));
    assert_eq!(u.id, None);
    assert_eq!(u.email, "ann@example.com");
    assert_eq!(u.firstname, "Ann");
    assert_eq!(u.surname, "Example");
    assert_eq!(u.get_balance(), money(250, 5000));
    assert!(!u.is_verified);
    assert!(u.holdings.is_empty());
    assert!(u.get_holdings_list().is_empty());
}

#[test]
fn the_password_is_hashed_with_a_salt() {
    let a = user(money(0, 0));
    let b = user(money(0, 0));
    assert!(a.password_hash.starts_with("$argon2id$"));
    assert_ne!(a.password_hash, "correct horse");
    // Two hashes of one password differ by their salt.
    assert_ne!(a.password_hash, b.password_hash);
    assert!(a.verify_password("correct horse"));
    assert!(b.verify_password("correct horse"));
    assert!(!a.verify_password("correct horsf"));
    assert!(!a.verify_password(""));
}

#[test]
fn update_password_replaces_the_hash() {
    let mut u = user(money(0, 0));
    assert!(matches!(u.update_password("short"), Err(AuthError::WeakPassword)));
    assert!(u.verify_password("correct horse"));
    u.update_password("battery staple").unwrap();
    assert!(u.verify_password("battery staple"));
    assert!(!u.verify_password("correct horse"));
}

#[test]
fn deposit_and_withdraw_move_the_balance() {
    let mut u = user(money(100, 0));
    u.deposit(money(50, 2500));
    assert_eq!(u.get_balance(), money(150, 2500));
    assert_eq!(u.withdraw(money(150, 2501)), Err(NotEnoughMoneyError));
    assert_eq!(u.get_balance(), money(150, 2500));
    assert_eq!(u.withdraw(money(150, 2500)), Ok(()));
    assert_eq!(u.get_balance(), money(0, 0));
}

#[test]
fn verify_email_is_one_way() {
    let mut u = user(money(0, 0));
    u.verify_email();
    assert!(u.is_verified);
    u.verify_email();
    assert!(u.is_verified);
}

#[test]
fn a_first_buy_opens_the_holding_at_the_price() {
    let mut u = user(money(0, 0));
    u.update_holding_at("AAPL", 10, price(100, 0), 7);
    let h = u.holdings.get("AAPL").unwrap();
    assert_eq!(h.symbol, "AAPL");
    assert_eq!(h.quantity, 10);
    assert_eq!(h.average_cost, price(100, 0));
    assert_eq!(h.last_updated, 7);
}

#[test]
fn a_second_buy_takes_the_weighted_average() {
    let mut u = user(money(0, 0));
    u.update_holding_at("AAPL", 10, price(100, 0), 1);
    u.update_holding_at("AAPL", 30, price(110, 0), 2);
    let h = u.holdings.get("AAPL").unwrap();
    assert_eq!(h.quantity, 40);
    // (100 * 10 + 110 * 30) / 40 = 107.50
    assert_eq!(h.average_cost, price(107, 5000));
    assert_eq!(h.last_updated, 2);
    // new_avg * new_qty == old_avg * old_qty + p * q
    assert_eq!(
        h.average_cost.notional(40),
        Money::from_units(price(100, 0).notional(10).units + price(110, 0).notional(30).units)
    );
}

#[test]
fn the_average_is_rounded_down_by_less_than_a_unit_per_share() {
    let mut u = user(money(0, 0));
    u.update_holding_at("AAPL", 1, Price::from_units(10_000), 1);
    u.update_holding_at("AAPL", 2, Price::from_units(10_001), 2);
    let h = u.holdings.get("AAPL").unwrap();
    // (10000 + 20002) / 3 = 10000.67
    assert_eq!(h.average_cost, Price::from_units(10_000));
    let basis = 10_000u128 + 20_002;
    let booked = h.average_cost.notional(3).units;
    assert!(booked <= basis && basis < booked + 3);
}

#[test]
fn a_sale_keeps_the_average_cost() {
    let mut u = user(money(0, 0));
    u.update_holding_at("AAPL", 10, price(100, 0), 1);
    u.update_holding_at("AAPL", -4, price(250, 0), 2);
    let h = u.holdings.get("AAPL").unwrap();
    assert_eq!(h.quantity, 6);
    assert_eq!(h.average_cost, price(100, 0));
    assert_eq!(h.last_updated, 2);
}

#[test]
fn a_sale_of_everything_removes_the_holding() {
    let mut u = user(money(0, 0));
    u.update_holding_at("AAPL", 10, price(100, 0), 1);
    u.update_holding_at("MSFT", 5, price(400, 0), 1);
    u.update_holding_at("AAPL", -10, price(100, 0), 2);
    assert!(u.holdings.get("AAPL").is_none());
    assert_eq!(u.holdings.len(), 1);
    // More than is held removes the holding too.
    u.update_holding_at("MSFT", -6, price(100, 0), 3);
    assert!(u.holdings.is_empty());
}

#[test]
fn a_sale_of_what_is_not_held_changes_nothing() {
    let mut u = user(money(0, 0));
    u.update_holding_at("AAPL", -3, price(100, 0), 1);
    assert!(u.holdings.is_empty());
    u.update_holding_at("AAPL", 0, price(100, 0), 1);
    assert!(u.holdings.is_empty());
}

#[test]
fn a_change_of_nothing_only_stamps_the_holding() {
    let mut u = user(money(0, 0));
    u.update_holding_at("AAPL", 10, price(100, 0), 1);
    u.update_holding_at("AAPL", 0, price(999, 0), 9);
    let h = u.holdings.get("AAPL").unwrap();
    assert_eq!(h.quantity, 10);
    assert_eq!(h.average_cost, price(100, 0));
    assert_eq!(h.last_updated, 9);
}

#[test]
fn update_holding_stamps_with_the_clock() {
    let mut u = user(money(0, 0));
    u.update_holding("AAPL", 2, price(100, 0));
    let h = u.holdings.get("AAPL").unwrap();
    assert_eq!(h.quantity, 2);
    assert!(h.last_updated > 1_600_000_000_000_000);
}

#[test]
fn holdings_are_listed_in_the_order_of_opening() {
    let mut u = user(money(0, 0));
    u.update_holding_at("TSLA", 1, price(245, 0), 1);
    u.update_holding_at("AAPL", 2, price(150, 0), 2);
    u.update_holding_at("TSLA", 1, price(245, 0), 3);
    let listed: Vec<&str> = u.get_holdings_list().iter().map(|h| h.symbol.as_str()).collect();
    assert_eq!(listed, vec!["TSLA", "AAPL"]);
    // 2 * 245 + 2 * 150 = 790
    assert_eq!(u.get_portfolio_value(), Some(money(790, 0)));
    assert_eq!(u.get_total_gain_loss(), money(0, 0));
    assert_eq!(u.get_gain_loss_percentage(), money(0, 0));
}

#[test]
fn the_portfolio_value_may_not_fit() {
    let mut u = user(money(0, 0));
    u.update_holding_at("A", i64::MAX, Price::from_units(u64::MAX), 1);
    u.update_holding_at("B", i64::MAX, Price::from_units(u64::MAX), 1);
    u.update_holding_at("C", i64::MAX, Price::from_units(u64::MAX), 1);
    assert_eq!(u.get_portfolio_value(), None);
}

#[test]
fn settle_books_a_buy_or_refuses_it() {
    let mut u = user(money(1_000, 0));
    assert!(!u.settle(OrderSide::Buy, "AAPL", 11, price(100, 0), 1));
    assert_eq!(u.get_balance(), money(1_000, 0));
    assert!(u.holdings.is_empty());
    assert!(u.settle(OrderSide::Buy, "AAPL", 10, price(100, 0), 2));
    assert_eq!(u.get_balance(), money(0, 0));
    assert_eq!(u.holdings.get("AAPL").unwrap().quantity, 10);
    assert!(u.settle(OrderSide::Sell, "AAPL", 3, price(120, 0), 3));
    assert_eq!(u.get_balance(), money(360, 0));
    assert_eq!(u.holdings.get("AAPL").unwrap().quantity, 7);
}

#[test]
fn settle_refuses_what_the_ledger_cannot_hold() {
    let mut u = user(Money::from_units(u128::MAX - 5));
    assert!(!u.settle(OrderSide::Sell, "AAPL", 1, Price::from_units(6), 1));
    assert_eq!(u.get_balance(), Money::from_units(u128::MAX - 5));
    assert!(u.settle(OrderSide::Sell, "AAPL", 1, Price::from_units(5), 1));
    assert_eq!(u.get_balance(), Money::from_units(u128::MAX));

    let mut v = user(money(10, 0));
    assert!(v.settle(OrderSide::Buy, "AAPL", u64::MAX, Price::from_units(0), 1));
    assert!(!v.settle(OrderSide::Buy, "AAPL", 1, Price::from_units(0), 2));
    assert_eq!(v.holdings.get("AAPL").unwrap().quantity, u64::MAX);
}

fn repo_with(email: &str, balance: Money) -> (UserRepo, u128) {
    let mut repo = UserRepo::new();
    let id = repo
        .create_user(
            email.to_string(),
            "correct horse".to_string(),
            "Ann".to_string(),
            "Example".to_string(),
            balance,
        )
        .unwrap();
    (repo, id)
}

#[test]
fn create_user_refuses_a_taken_address() {
    let (mut repo, id) = repo_with("ann@example.com", money(0, 0));
    let again = repo.create_user(
        "ann@example.com".to_string(),
        "another password".to_string(),
        "Anna".to_string(),
        "Other".to_string(),
        money(0, 0),
    );
    assert!(matches!(again, Err(AuthError::UserAlreadyExists)));
    assert_eq!(repo.len(), 1);
    // A taken address is refused before a weak password.
    let weak = repo.create_user(
        "ann@example.com".to_string(),
        "x".to_string(),
        "Anna".to_string(),
        "Other".to_string(),
        money(0, 0),
    );
    assert!(matches!(weak, Err(AuthError::UserAlreadyExists)));
    let weak = repo.create_user(
        "bob@example.com".to_string(),
        "x".to_string(),
        "Bob".to_string(),
        "Other".to_string(),
        money(0, 0),
    );
    assert!(matches!(weak, Err(AuthError::WeakPassword)));
    assert_eq!(repo.len(), 1);
    let stored = repo.get_user_by_id(&id).unwrap().unwrap();
    assert_eq!(stored.id, Some(id));
    assert_eq!(stored.firstname, "Ann");
}

#[test]
fn register_refuses_a_taken_identifier() {
    let (mut repo, id) = repo_with("ann@example.com", money(0, 0));
    let other = User::new(
        "bob@example.com".to_string(),
        "correct horse".to_string(),
        "Bob".to_string(),
        "Example".to_string(),
        money(0, 0),
    )
    .unwrap();
    match repo.register(id, other) {
        Err(AuthError::UserRepo(e)) => assert_eq!(
            e.message(),
            "Database error: duplicate key value violates unique constraint"
        ),
        other => panic!("unexpected outcome: {:?}", other),
    }
    assert_eq!(repo.get_user_by_id(&id).unwrap().unwrap().email, "ann@example.com");
}

#[test]
fn authentication_tells_its_refusals_apart() {
    let (mut repo, id) = repo_with("ann@example.com", money(0, 0));
    assert!(matches!(
        repo.authenticate_user("bob@example.com", "correct horse"),
        Err(AuthError::UserNotFound)
    ));
    match repo.authenticate_user("ann@example.com", "correct horse") {
        Err(AuthError::NotVerified(who)) => assert_eq!(who, id),
        other => panic!("unexpected outcome: {:?}", other),
    }
    assert_eq!(repo.is_user_verified(&id).unwrap(), false);
    assert_eq!(repo.is_verified("ann@example.com").unwrap(), false);
    repo.verify_user_email(&id).unwrap();
    assert_eq!(repo.is_user_verified(&id).unwrap(), true);
    assert_eq!(repo.is_verified("ann@example.com").unwrap(), true);
    assert_eq!(repo.authenticate_user("ann@example.com", "correct horse").unwrap(), true);
    assert!(matches!(
        repo.authenticate_user("ann@example.com", "wrong"),
        Err(AuthError::InvalidPassword)
    ));
    assert!(matches!(repo.is_verified("bob@example.com"), Err(AuthError::UserNotFound)));
    assert!(matches!(repo.verify_user_email(&1), Err(AuthError::UserNotFound)));
    assert!(matches!(repo.is_user_verified(&1), Err(AuthError::UserNotFound)));
}

#[test]
fn lookups_by_address() {
    let (repo, id) = repo_with("ann@example.com", money(3, 0));
    assert_eq!(repo.email_exists("ann@example.com").unwrap(), true);
    assert_eq!(repo.email_exists("Ann@example.com").unwrap(), false);
    let found = repo.get_user_by_email("ann@example.com").unwrap().unwrap();
    assert_eq!(found.id, Some(id));
    assert!(repo.get_user_by_email("bob@example.com").unwrap().is_none());
    assert!(repo.get_user_by_id(&(id ^ 1)).unwrap().is_none());
}

#[test]
fn the_ledger_of_a_stored_user() {
    let (mut repo, id) = repo_with("ann@example.com", money(100, 0));
    repo.deposit_to_user(&id, money(25, 0)).unwrap();
    assert_eq!(repo.get_user_balance(&id).unwrap(), money(125, 0));
    assert!(matches!(
        repo.withdraw_from_user(&id, money(125, 1)),
        Err(AuthError::NotEnoughMoneyError)
    ));
    assert_eq!(repo.get_user_balance(&id).unwrap(), money(125, 0));
    repo.withdraw_from_user(&id, money(125, 0)).unwrap();
    assert_eq!(repo.get_user_balance(&id).unwrap(), money(0, 0));
    assert!(matches!(repo.deposit_to_user(&1, money(1, 0)), Err(AuthError::UserNotFound)));
    assert!(matches!(repo.withdraw_from_user(&1, money(1, 0)), Err(AuthError::UserNotFound)));
    assert!(matches!(repo.get_user_balance(&1), Err(AuthError::UserNotFound)));
    repo.deposit_to_user(&id, Money::from_units(u128::MAX)).unwrap();
    assert!(matches!(
        repo.deposit_to_user(&id, Money::from_units(1)),
        Err(AuthError::BalanceOverflow)
    ));
    assert_eq!(repo.get_user_balance(&id).unwrap(), Money::from_units(u128::MAX));
}

#[test]
fn the_second_factor_of_a_stored_user() {
    let (repo, _) = repo_with("ann@example.com", money(0, 0));
    let mut service = MfaService::new(MockMfaProvider::new());
    assert!(matches!(
        repo.initiate_mfa("bob@example.com", &mut service),
        Err(AuthError::UserNotFound)
    ));
    assert!(service.provider().get_last_challenge().is_none());
    let challenge = repo.initiate_mfa("ann@example.com", &mut service).unwrap();
    assert_eq!(
        service.provider().get_last_challenge().unwrap().user_email,
        "ann@example.com"
    );
    assert!(matches!(
        repo.complete_mfa_authentication(&challenge, "654321", &mut service),
        Err(AuthError::MfaFailed(MfaError::InvalidCode))
    ));
    assert_eq!(
        repo.complete_mfa_authentication(&challenge, "123456", &mut service).unwrap(),
        true
    );
    let mut failing = MfaService::new(MockMfaProvider::new().with_send_failure());
    match repo.initiate_mfa("ann@example.com", &mut failing) {
        Err(e @ AuthError::MfaFailed(_)) => {
            assert_eq!(e.message(), "MFA failed: Failed to send OTP: Mock failure")
        }
        other => panic!("unexpected outcome: {:?}", other),
    }
}

#[test]
fn auth_messages_read_as_documented() {
    assert_eq!(AuthError::UserNotFound.message(), "User not found");
    assert_eq!(AuthError::InvalidPassword.message(), "Invalid password");
    assert_eq!(AuthError::UserAlreadyExists.message(), "User already exists");
    assert_eq!(AuthError::WeakPassword.message(), "Password is too weak");
    assert_eq!(AuthError::MfaRequired.message(), "Multi-factor authentication required");
    assert_eq!(AuthError::NotVerified(3).message(), "User email not verified");
    assert_eq!(AuthError::NotEnoughMoneyError.message(), "Not enough money in account");
}

#[test]
fn a_password_that_cannot_be_hashed_makes_no_user() {
    let r = User::with_password_hash(
        "ann@example.com".to_string(),
        None,
        "Ann".to_string(),
        "Example".to_string(),
        money(0, 0),
        5,
    );
    match r {
        Err(e @ AuthError::PasswordHashFailed) => {
            assert_eq!(e.message(), "Password could not be hashed")
        }
        other => panic!("unexpected outcome: {:?}", other),
    }
    let u = User::with_password_hash(
        "ann@example.com".to_string(),
        Some("no hash".to_string()),
        "Ann".to_string(),
        "Example".to_string(),
        money(1, 0),
        5,
    )
    .unwrap();
    assert_eq!(u.created_at, 5);
    assert_eq!(u.password_hash, "no hash");
    // A string that is no hash accepts no password.
    assert!(!u.verify_password("no hash"));
    assert_eq!(AuthError::BalanceOverflow.message(), "Balance out of range");
}
