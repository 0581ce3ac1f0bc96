use brokerx::broker::BrokerX;
use brokerx::display::{date_text, round_to_cent, HoldingDisplayData, OrderDisplayData};
use brokerx::money::{Money, Price, SignedMoney};
use brokerx::order::{Order, OrderSide, OrderStatus, OrderType};
use brokerx::portfolio::Holding;
use brokerx::session::{authenticate_user, create_session_store, register_user, RegisterForm};
use brokerx::slo::{setup_test_users, BenchmarkMetrics};
use brokerx::user::{AuthError, UserRepoExt};
use brokerx::text::digit;

// 2022-09-11 18:34:48 UTC
const SEPTEMBER: i64 = 1_662_921_288_000_000;

fn order(status: OrderStatus, order_type: OrderType, side: OrderSide) -> Order {
    Order {
        client_id: 1,
        date: SEPTEMBER,
        symbol: "AAPL".to_string(),
        quantity: 100,
        status,
        order_type,
        order_side: side,
    }
}

#[test]
fn dates_show_the_minute_in_utc() {
    assert_eq!(date_text(SEPTEMBER), "2022-09-11 18:34");
    assert_eq!(date_text(0), "1970-01-01 00:00");
    assert_eq!(date_text(-1), "1969-12-31 23:59");
    assert_eq!(date_text(i64::MAX), "");
}

#[test]
fn a_limit_order_is_shown_with_its_total() {
    let row = OrderDisplayData::from_order(
        0xa1a2a3a4_b1b2_c1c2_d1d2_d3d4d5d6d7d8,
        order(
            OrderStatus::Filled { date: 0 },
            OrderType::Limit(Price::from_units(1_505_000)),
            OrderSide::Buy,
        ),
    );
    assert_eq!(row.id, "a1a2a3a4-b1b2-c1c2-d1d2-d3d4d5d6d7d8");
    assert_eq!(row.symbol, "AAPL");
    assert_eq!(row.quantity, 100);
    assert_eq!(row.price, Price::from_units(1_505_000));
    assert_eq!(row.order_type, "Buy");
    assert_eq!(row.order_kind, "Limit");
    assert_eq!(row.status, "Filled");
    assert_eq!(row.date, "2022-09-11 18:34");
    assert_eq!(row.total, Money::from_units(150_500_000));
    assert_eq!(
        row.status_tooltip,
        Some("Order was completely filled on 1970-01-01 00:00".to_string())
    );
}

#[test]
fn every_status_has_a_name_and_a_tooltip() {
    let shown = |status: OrderStatus| {
        let row = OrderDisplayData::from_order(1, order(status, OrderType::Market, OrderSide::Sell));
        assert_eq!(row.order_type, "Sell");
        assert_eq!(row.order_kind, "Market");
        assert_eq!(row.price, Price::from_units(0));
        assert_eq!(row.total, Money::from_units(0));
        (row.status, row.status_tooltip.unwrap())
    };
    assert_eq!(
        shown(OrderStatus::Queued),
        ("Queued".to_string(), "Order is waiting to be processed by the system".to_string())
    );
    assert_eq!(
        shown(OrderStatus::Pending),
        (
            "Pending".to_string(),
            "Order has been sent to the exchange but not yet executed".to_string()
        )
    );
    assert_eq!(
        shown(OrderStatus::PendingCancel),
        ("Pending Cancel".to_string(), "Order cancellation is being processed".to_string())
    );
    assert_eq!(
        shown(OrderStatus::Cancelled),
        ("Cancelled".to_string(), "Order was cancelled by the user".to_string())
    );
    assert_eq!(
        shown(OrderStatus::Expired { date: SEPTEMBER }),
        ("Expired".to_string(), "Order expired on 2022-09-11 18:34".to_string())
    );
    assert_eq!(
        shown(OrderStatus::Rejected { date: SEPTEMBER }),
        (
            "Rejected".to_string(),
            "Order was rejected by the system on 2022-09-11 18:34".to_string()
        )
    );
}

#[test]
fn amounts_are_rounded_to_the_cent() {
    assert_eq!(round_to_cent(Money::from_units(1_049)), Some(Money::from_units(1_000)));
    assert_eq!(round_to_cent(Money::from_units(1_050)), Some(Money::from_units(1_100)));
    assert_eq!(round_to_cent(Money::from_units(1_099)), Some(Money::from_units(1_100)));
    assert_eq!(round_to_cent(Money::from_units(0)), Some(Money::from_units(0)));
    assert_eq!(round_to_cent(Money::from_units(u128::MAX)), None);
}

#[test]
fn a_holding_is_shown_at_cost() {
    let holding = Holding {
        symbol: "MSFT".to_string(),
        quantity: 3,
        average_cost: Price::from_units(4_201_250),
        last_updated: 0,
    };
    let row = HoldingDisplayData::from_holding(&holding);
    assert_eq!(row.symbol, "MSFT");
    assert_eq!(row.quantity, 3);
    // 420.125 shows as 420.13, the value 1260.375 as 1260.38.
    assert_eq!(row.average_cost, Money::from_units(4_201_300));
    assert_eq!(row.current_price, Money::from_units(4_201_300));
    assert_eq!(row.total_value, Money::from_units(12_603_800));
    assert_eq!(row.gain_loss, SignedMoney { negative: false, units: 0 });
    assert_eq!(row.gain_loss_percentage, SignedMoney { negative: false, units: 0 });
}

#[test]
fn amounts_are_written_with_two_digits() {
    let text = |units: u128| Money::from_units(units).to_text_2dp();
    assert_eq!(text(0), "0.00");
    assert_eq!(text(150_500_000), "15050.00");
    assert_eq!(text(1_250), "0.12");
    assert_eq!(text(1_251), "0.13");
    assert_eq!(text(3_750), "0.38");
    assert_eq!(text(9_950), "1.00");
    assert_eq!(text(9_949), "0.99");
    assert_eq!(text(1_234_567), "123.46");
    assert_eq!(Price::from_units(1_505_050).to_text_2dp(), "150.50");
    assert_eq!(Price::from_units(1_505_150).to_text_2dp(), "150.52");
    assert_eq!(digit(7), '7');
    assert_eq!(digit(10), '0');
}

#[test]
fn prices_are_made_from_parts() {
    assert_eq!(Price::from_parts(150, 5000), Some(Price::from_units(1_505_000)));
    assert_eq!(Price::from_parts(150, 10_000), None);
    assert_eq!(Price::from_parts(u64::MAX, 0), None);
    assert_eq!(Price::from_parts(1_844_674_407_370_955, 1615), Some(Price::from_units(u64::MAX)));
    assert_eq!(Price::from_parts(1_844_674_407_370_955, 1616), None);
    assert_eq!(Money::from_parts(u64::MAX, 9999).unwrap().units, u64::MAX as u128 * 10_000 + 9999);
    assert_eq!(Money::from_parts(1, 10_000), None);
    assert_eq!(Price::from_units(1_505_000).notional(100), Money::from_units(150_500_000));
    assert_eq!(
        Price::from_units(u64::MAX).notional(u64::MAX).units,
        (u64::MAX as u128) * (u64::MAX as u128)
    );
    assert_eq!(Price::from_units(7).to_money(), Money::from_units(7));
    assert_eq!(Money::zero().checked_add(Money::from_units(5)), Some(Money::from_units(5)));
    assert_eq!(Money::from_units(u128::MAX).checked_add(Money::from_units(1)), None);
    assert_eq!(Money::from_units(5).checked_sub(Money::from_units(6)), None);
    assert_eq!(Money::from_units(5).checked_sub(Money::from_units(5)), Some(Money::zero()));
    assert_eq!(
        SignedMoney::difference(Money::from_units(3), Money::from_units(5)),
        SignedMoney { negative: true, units: 2 }
    );
}

#[test]
fn the_stand_in_knows_one_user() {
    let demo = authenticate_user("demo", "password").unwrap();
    assert_eq!(demo.id, 1);
    assert_eq!(demo.username, "demo");
    assert_eq!(demo.email, "demo@example.com");
    assert!(authenticate_user("demo", "Password").is_none());
    assert!(authenticate_user("Demo", "password").is_none());
    assert_eq!(create_session_store().len(), 0);

    let form = |password: &str, confirm: &str, username: &str| RegisterForm {
        username: username.to_string(),
        email: "ann@example.com".to_string(),
        password: password.to_string(),
        confirm_password: confirm.to_string(),
    };
    let made = register_user(&form("secret1", "secret1", "ann")).unwrap();
    assert_eq!(made.id, 2);
    assert_eq!(made.username, "ann");
    assert_eq!(made.email, "ann@example.com");
    assert_eq!(
        register_user(&form("secret1", "secret2", "ann")).unwrap_err(),
        "Passwords don't match"
    );
    assert_eq!(register_user(&form("short", "short", "ann")).unwrap_err(), "Invalid form data");
    assert_eq!(register_user(&form("secret1", "secret1", "")).unwrap_err(), "Invalid form data");
}

#[test]
fn a_run_is_held_to_the_service_levels() {
    let mut m = BenchmarkMetrics::new();
    assert!(m.latency_ok());
    assert!(!m.throughput_ok());
    assert!(!m.availability_ok());
    assert!(!m.meets_requirements());
    assert_eq!(m.get_throughput(), 0);

    m.orders_submitted = 10_000;
    m.orders_acknowledged = 9_000;
    m.orders_failed = 1_000;
    m.elapsed_micros = 30_000_000;
    m.p95_latency_ms = 500;
    // 300 orders a second, 90 %, 500 ms: each level is just met.
    assert_eq!(m.get_throughput(), 30_000);
    assert!(m.throughput_ok() && m.availability_ok() && m.latency_ok());
    assert!(m.meets_requirements());

    m.p95_latency_ms = 501;
    assert!(!m.latency_ok());
    assert!(!m.meets_requirements());
    m.p95_latency_ms = 1;
    m.orders_acknowledged = 8_999;
    assert!(!m.throughput_ok());
    assert!(!m.availability_ok());
    m.elapsed_micros = 29_000_000;
    assert!(m.throughput_ok());
    assert!(!m.meets_requirements());
}

#[test]
fn a_load_run_registers_its_users() {
    let mut broker = BrokerX::new_for_testing();
    let users = setup_test_users(&mut broker, 3, 1_700_000_000).unwrap();
    assert_eq!(users.len(), 3);
    assert_eq!(broker.get_user_repo().len(), 3);
    let second = broker.get_user_repo().get_user_by_id(&users[1].id).unwrap().unwrap();
    assert_eq!(second.email, "test_user_1700000000_1@benchmark.test");
    assert_eq!(second.firstname, "User1");
    assert_eq!(second.surname, "Test");
    assert_eq!(second.balance, Money::from_units(100_000_000_000));
    assert!(second.is_verified);
    assert!(second.verify_password("password123"));
    // A second setup under the same stamp finds the addresses taken.
    assert!(matches!(
        setup_test_users(&mut broker, 1, 1_700_000_000),
        Err(AuthError::UserAlreadyExists)
    ));
    assert!(setup_test_users(&mut broker, 0, 5).unwrap().is_empty());

    let mut m = BenchmarkMetrics::new();
    m.record_submission();
    m.record_submission();
    m.record_acknowledgment();
    m.record_failure();
    assert_eq!((m.orders_submitted, m.orders_acknowledged, m.orders_failed), (2, 1, 1));
    m.orders_failed = u64::MAX;
    m.record_failure();
    assert_eq!(m.orders_failed, 0);
}
