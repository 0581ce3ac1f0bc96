use brokerx::money::{Money, Price};
use brokerx::order::{OrderSide, OrderType};
use brokerx::pre_trade::{PreTradeConfig, PreTradeError, PreTradeValidator};

fn price(whole: u64, frac: u64) -> Price {
    Price::from_parts(whole, frac).unwrap()
}

fn money(whole: u64, frac: u64) -> Money {
    Money::from_parts(whole, frac).unwrap()
}

#[test]
fn test_valid_limit_buy_order() {
    let validator = PreTradeValidator::with_default_config();
    let result = validator.validate_order(
        &OrderSide::Buy,
        &OrderType::Limit(price(150, 5000)),
        "AAPL",
        100,
        money(20000, 0),
    );
    assert!(result.is_ok());
}

#[test]
fn test_insufficient_buying_power() {
    let validator = PreTradeValidator::with_default_config();
    let result = validator.validate_order(
        &OrderSide::Buy,
        &OrderType::Limit(price(150, 5000)),
        "AAPL",
        100,
        money(1000, 0),
    );
    assert!(matches!(
        result,
        Err(PreTradeError::InsufficientBuyingPower { .. })
    ));
}

#[test]
fn test_invalid_quantity() {
    let validator = PreTradeValidator::with_default_config();
    let result = validator.validate_order(
        &OrderSide::Buy,
        &OrderType::Limit(price(150, 5000)),
        "AAPL",
        0,
        money(20000, 0),
    );
    assert!(matches!(result, Err(PreTradeError::InvalidQuantity)));
}

#[test]
fn test_inactive_instrument() {
    let validator = PreTradeValidator::with_default_config();
    let result = validator.validate_order(
        &OrderSide::Buy,
        &OrderType::Limit(price(50, 0)),
        "INVALID",
        100,
        money(20000, 0),
    );
    assert!(matches!(
        result,
        Err(PreTradeError::InactiveInstrument { .. })
    ));
}

#[test]
fn test_price_outside_bands() {
    let validator = PreTradeValidator::with_default_config();
    let result = validator.validate_order(
        &OrderSide::Buy,
        &OrderType::Limit(price(2000, 0)),
        "AAPL",
        100,
        money(300_000, 0),
    );
    assert!(matches!(result, Err(PreTradeError::InvalidPrice { .. })));
}

#[test]
fn insufficient_funds_names_required_and_available() {
    let validator = PreTradeValidator::with_default_config();
    let result = validator.validate_order(
        &OrderSide::Buy,
        &OrderType::Limit(price(150, 5000)),
        "AAPL",
        100,
        money(1000, 0),
    );
    match result {
        Err(PreTradeError::InsufficientBuyingPower { required, available }) => {
            assert_eq!(required, money(15050, 0));
            assert_eq!(available, money(1000, 0));
        }
        other => panic!("unexpected outcome: {:?}", other),
    }
}

#[test]
fn tick_misalignment_is_refused() {
    let validator = PreTradeValidator::with_default_config();
    let result = validator.validate_order(
        &OrderSide::Buy,
        &OrderType::Limit(price(150, 5050)),
        "AAPL",
        10,
        money(20000, 0),
    );
    match result {
        Err(PreTradeError::InvalidTickSize { symbol, price: p, tick_size }) => {
            assert_eq!(symbol, "AAPL");
            assert_eq!(p, price(150, 5050));
            assert_eq!(tick_size, price(0, 100));
        }
        other => panic!("unexpected outcome: {:?}", other),
    }
}

#[test]
fn unknown_symbol_is_inactive() {
    let validator = PreTradeValidator::with_default_config();
    let result = validator.validate_order(
        &OrderSide::Buy,
        &OrderType::Limit(price(50, 0)),
        "XYZQ",
        100,
        money(20000, 0),
    );
    match result {
        Err(PreTradeError::InactiveInstrument { symbol }) => assert_eq!(symbol, "XYZQ"),
        other => panic!("unexpected outcome: {:?}", other),
    }
}

#[test]
fn position_limit_comes_before_price_rules() {
    let validator = PreTradeValidator::with_default_config();
    let result = validator.validate_order(
        &OrderSide::Buy,
        &OrderType::Limit(price(5000, 0)),
        "AAPL",
        10_001,
        money(20000, 0),
    );
    match result {
        Err(PreTradeError::ExceedsPositionLimit { limit, requested }) => {
            assert_eq!(limit, 10_000);
            assert_eq!(requested, 10_001);
        }
        other => panic!("unexpected outcome: {:?}", other),
    }
}

#[test]
fn notional_limit_comes_before_buying_power() {
    let validator = PreTradeValidator::with_default_config();
    let result = validator.validate_order(
        &OrderSide::Buy,
        &OrderType::Limit(price(500, 0)),
        "AAPL",
        201,
        money(0, 0),
    );
    match result {
        Err(PreTradeError::ExceedsNotionalLimit { limit, requested }) => {
            assert_eq!(limit, money(100_000, 0));
            assert_eq!(requested, money(100_500, 0));
        }
        other => panic!("unexpected outcome: {:?}", other),
    }
}

#[test]
fn sell_needs_no_buying_power() {
    let validator = PreTradeValidator::with_default_config();
    let result = validator.validate_order(
        &OrderSide::Sell,
        &OrderType::Limit(price(150, 5000)),
        "AAPL",
        100,
        money(0, 0),
    );
    assert!(result.is_ok());
}

#[test]
fn market_order_uses_estimated_price() {
    let validator = PreTradeValidator::with_default_config();
    // GOOGL is estimated at 2800.00: 10 shares need 28 000.00.
    let short = validator.validate_order(
        &OrderSide::Buy,
        &OrderType::Market,
        "GOOGL",
        10,
        money(27_999, 9999),
    );
    match short {
        Err(PreTradeError::InsufficientBuyingPower { required, available }) => {
            assert_eq!(required, money(28_000, 0));
            assert_eq!(available, money(27_999, 9999));
        }
        other => panic!("unexpected outcome: {:?}", other),
    }
    let exact = validator.validate_order(
        &OrderSide::Buy,
        &OrderType::Market,
        "GOOGL",
        10,
        money(28_000, 0),
    );
    assert!(exact.is_ok());
    // 36 shares are 100 800.00, over the notional limit.
    let large = validator.validate_order(
        &OrderSide::Sell,
        &OrderType::Market,
        "GOOGL",
        36,
        money(0, 0),
    );
    assert!(matches!(
        large,
        Err(PreTradeError::ExceedsNotionalLimit { .. })
    ));
}

#[test]
fn band_edges_are_inside() {
    let validator = PreTradeValidator::with_default_config();
    let low = validator.validate_order(
        &OrderSide::Sell,
        &OrderType::Limit(price(1, 0)),
        "AAPL",
        1,
        money(0, 0),
    );
    assert!(low.is_ok());
    let high = validator.validate_order(
        &OrderSide::Sell,
        &OrderType::Limit(price(1000, 0)),
        "AAPL",
        1,
        money(0, 0),
    );
    assert!(high.is_ok());
    let below = validator.validate_order(
        &OrderSide::Sell,
        &OrderType::Limit(price(0, 9900)),
        "AAPL",
        1,
        money(0, 0),
    );
    match below {
        Err(PreTradeError::InvalidPrice { reason }) => {
            assert_eq!(reason, "Price 0.99 outside allowed band [1.00, 1000.00]");
        }
        other => panic!("unexpected outcome: {:?}", other),
    }
}

#[test]
fn validation_is_repeatable() {
    let validator = PreTradeValidator::with_default_config();
    let run = || {
        validator.validate_order(
            &OrderSide::Buy,
            &OrderType::Limit(price(150, 5050)),
            "AAPL",
            10,
            money(20000, 0),
        )
    };
    let first = run().unwrap_err().message();
    let second = run().unwrap_err().message();
    assert_eq!(first, second);
    assert_eq!(
        first,
        "Invalid tick size for AAPL: price 150.5050 not aligned to tick size 0.0100"
    );
}

#[test]
fn messages_read_as_documented() {
    let e = PreTradeError::InsufficientBuyingPower {
        required: money(15050, 0),
        available: money(1000, 0),
    };
    assert_eq!(
        e.message(),
        "Insufficient buying power: required $15050.00, available $1000.00"
    );
    let e = PreTradeError::ExceedsPositionLimit { limit: 10_000, requested: 10_001 };
    assert_eq!(e.message(), "Exceeds position limit: limit 10000, requested 10001");
    let e = PreTradeError::ExceedsNotionalLimit {
        limit: money(100_000, 0),
        requested: money(100_500, 1250),
    };
    assert_eq!(
        e.message(),
        "Exceeds notional limit: limit $100000.00, requested $100500.12"
    );
    assert_eq!(
        PreTradeError::InvalidQuantity.message(),
        "Invalid quantity: must be greater than 0"
    );
    assert_eq!(PreTradeError::ShortSellNotAllowed.message(), "Short selling not allowed");
    let e = PreTradeError::InactiveInstrument { symbol: "XYZQ".to_string() };
    assert_eq!(e.message(), "Instrument XYZQ is not active");
}

#[test]
fn zero_tick_has_no_multiple_but_zero() {
    let mut config = PreTradeConfig::default();
    config.tick_sizes.clear();
    config.tick_sizes.push(brokerx::pre_trade::SymbolPrice {
        symbol: "AAPL".to_string(),
        price: price(0, 0),
    });
    let validator = PreTradeValidator::new(config);
    let result = validator.validate_order(
        &OrderSide::Sell,
        &OrderType::Limit(price(150, 5000)),
        "AAPL",
        1,
        money(0, 0),
    );
    match result {
        Err(PreTradeError::InvalidTickSize { symbol, price: p, tick_size }) => {
            assert_eq!(symbol, "AAPL");
            assert_eq!(p, price(150, 5000));
            assert_eq!(tick_size, price(0, 0));
        }
        other => panic!("expected InvalidTickSize, got {:?}", other),
    }
}
