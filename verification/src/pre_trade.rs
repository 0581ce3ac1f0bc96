//! Pre-trade validation: the stateless rules an order must pass before it
//! is accepted.

use crate::db::{DbError, DbErrorView};
use crate::money::{spec_notional, Money, Price};
use crate::order::{OrderSide, OrderType};
use crate::text::{
    chars_to_string, push_2dp, push_4dp, push_decimal, push_str, spec_decimal, spec_text_2dp,
    spec_text_4dp,
};
use vstd::prelude::*;
use vstd::string::StringExecFns;

verus! {

/// The market-price estimate, in fixed-point units, of a symbol that the
/// table of estimates does not list: 100.00.
pub const DEFAULT_ESTIMATE_UNITS: u64 = 1_000_000;

/// A price attached to a symbol: a tick size or a market-price estimate.
#[derive(Debug)]
pub struct SymbolPrice {
    pub symbol: String,
    pub price: Price,
}

/// The inclusive interval of admissible limit prices of a symbol.
#[derive(Debug)]
pub struct PriceBand {
    pub symbol: String,
    pub min: Price,
    pub max: Price,
}

/// The rules that orders are held to. In each table the first entry of a
/// symbol counts.
#[derive(Debug)]
pub struct PreTradeConfig {
    pub max_position_size: u64,
    pub max_notional_per_order: Money,
    pub active_instruments: Vec<String>,
    pub tick_sizes: Vec<SymbolPrice>,
    pub price_bands: Vec<PriceBand>,
    pub estimated_prices: Vec<SymbolPrice>,
}

/// The mathematical value of a [`PreTradeConfig`].
pub struct PreTradeConfigView {
    pub max_position_size: u64,
    pub max_notional_per_order: Money,
    pub active_instruments: Seq<Seq<char>>,
    pub tick_sizes: Seq<(Seq<char>, Price)>,
    pub price_bands: Seq<(Seq<char>, Price, Price)>,
    pub estimated_prices: Seq<(Seq<char>, Price)>,
}

/// The symbols of a list of strings.
pub open spec fn spec_symbols(v: Seq<String>) -> Seq<Seq<char>> {
    Seq::new(v.len(), |i: int| v[i]@)
}

/// A table of prices by symbol, as plain values.
pub open spec fn spec_price_table(v: Seq<SymbolPrice>) -> Seq<(Seq<char>, Price)> {
    Seq::new(v.len(), |i: int| (v[i].symbol@, v[i].price))
}

/// A table of bands by symbol, as plain values.
pub open spec fn spec_band_table(v: Seq<PriceBand>) -> Seq<(Seq<char>, Price, Price)> {
    Seq::new(v.len(), |i: int| (v[i].symbol@, v[i].min, v[i].max))
}

impl View for PreTradeConfig {
    type V = PreTradeConfigView;

    open spec fn view(&self) -> PreTradeConfigView {
        PreTradeConfigView {
            max_position_size: self.max_position_size,
            max_notional_per_order: self.max_notional_per_order,
            active_instruments: spec_symbols(self.active_instruments@),
            tick_sizes: spec_price_table(self.tick_sizes@),
            price_bands: spec_band_table(self.price_bands@),
            estimated_prices: spec_price_table(self.estimated_prices@),
        }
    }
}

/// Why an order was refused before it entered the system.
#[derive(Debug)]
#[allow(inconsistent_fields)]
pub enum PreTradeError {
    InsufficientBuyingPower { required: Money, available: Money },
    InvalidPrice { reason: String },
    ShortSellNotAllowed,
    ExceedsPositionLimit { limit: u64, requested: u64 },
    ExceedsNotionalLimit { limit: Money, requested: Money },
    InvalidQuantity,
    InactiveInstrument { symbol: String },
    InvalidTickSize { symbol: String, price: Price, tick_size: Price },
    DbError(DbError),
}

/// The mathematical value of a [`PreTradeError`].
#[allow(inconsistent_fields)]
pub enum PreTradeErrorView {
    InsufficientBuyingPower { required: Money, available: Money },
    InvalidPrice { reason: Seq<char> },
    ShortSellNotAllowed,
    ExceedsPositionLimit { limit: u64, requested: u64 },
    ExceedsNotionalLimit { limit: Money, requested: Money },
    InvalidQuantity,
    InactiveInstrument { symbol: Seq<char> },
    InvalidTickSize { symbol: Seq<char>, price: Price, tick_size: Price },
    DbError(DbErrorView),
}

impl View for PreTradeError {
    type V = PreTradeErrorView;

    open spec fn view(&self) -> PreTradeErrorView {
        match self {
            PreTradeError::InsufficientBuyingPower { required, available } => {
                PreTradeErrorView::InsufficientBuyingPower {
                    required: *required,
                    available: *available,
                }
            },
            PreTradeError::InvalidPrice { reason } => PreTradeErrorView::InvalidPrice {
                reason: reason@,
            },
            PreTradeError::ShortSellNotAllowed => PreTradeErrorView::ShortSellNotAllowed,
            PreTradeError::ExceedsPositionLimit { limit, requested } => {
                PreTradeErrorView::ExceedsPositionLimit { limit: *limit, requested: *requested }
            },
            PreTradeError::ExceedsNotionalLimit { limit, requested } => {
                PreTradeErrorView::ExceedsNotionalLimit { limit: *limit, requested: *requested }
            },
            PreTradeError::InvalidQuantity => PreTradeErrorView::InvalidQuantity,
            PreTradeError::InactiveInstrument { symbol } => PreTradeErrorView::InactiveInstrument {
                symbol: symbol@,
            },
            PreTradeError::InvalidTickSize { symbol, price, tick_size } => {
                PreTradeErrorView::InvalidTickSize {
                    symbol: symbol@,
                    price: *price,
                    tick_size: *tick_size,
                }
            },
            PreTradeError::DbError(e) => PreTradeErrorView::DbError(e@),
        }
    }
}

impl PreTradeErrorView {
    /// The text shown to the client for this refusal.
    pub open spec fn message(self) -> Seq<char> {
        match self {
            PreTradeErrorView::InsufficientBuyingPower { required, available } => {
                "Insufficient buying power: required $"@ + spec_text_2dp(required.units as nat)
                    + ", available $"@ + spec_text_2dp(available.units as nat)
            },
            PreTradeErrorView::InvalidPrice { reason } => "Invalid price: "@ + reason,
            PreTradeErrorView::ShortSellNotAllowed => "Short selling not allowed"@,
            PreTradeErrorView::ExceedsPositionLimit { limit, requested } => {
                "Exceeds position limit: limit "@ + spec_decimal(limit as nat) + ", requested "@
                    + spec_decimal(requested as nat)
            },
            PreTradeErrorView::ExceedsNotionalLimit { limit, requested } => {
                "Exceeds notional limit: limit $"@ + spec_text_2dp(limit.units as nat)
                    + ", requested $"@ + spec_text_2dp(requested.units as nat)
            },
            PreTradeErrorView::InvalidQuantity => "Invalid quantity: must be greater than 0"@,
            PreTradeErrorView::InactiveInstrument { symbol } => {
                "Instrument "@ + symbol + " is not active"@
            },
            PreTradeErrorView::InvalidTickSize { symbol, price, tick_size } => {
                "Invalid tick size for "@ + symbol + ": price "@ + spec_text_4dp(
                    price.units as nat,
                ) + " not aligned to tick size "@ + spec_text_4dp(tick_size.units as nat)
            },
            PreTradeErrorView::DbError(e) => "Database error: "@ + e.message(),
        }
    }
}

impl PreTradeError {
    /// The text shown to the client for this refusal.
    pub fn message(&self) -> (s: String)
        ensures
            s@ == self@.message(),
    {
        let mut out: Vec<char> = Vec::new();
        match self {
            PreTradeError::InsufficientBuyingPower { required, available } => {
                push_str("Insufficient buying power: required $", &mut out);
                push_2dp(required.units, &mut out);
                push_str(", available $", &mut out);
                push_2dp(available.units, &mut out);
            },
            PreTradeError::InvalidPrice { reason } => {
                push_str("Invalid price: ", &mut out);
                push_str(reason.as_str(), &mut out);
            },
            PreTradeError::ShortSellNotAllowed => {
                push_str("Short selling not allowed", &mut out);
            },
            PreTradeError::ExceedsPositionLimit { limit, requested } => {
                push_str("Exceeds position limit: limit ", &mut out);
                push_decimal(*limit as u128, &mut out);
                push_str(", requested ", &mut out);
                push_decimal(*requested as u128, &mut out);
            },
            PreTradeError::ExceedsNotionalLimit { limit, requested } => {
                push_str("Exceeds notional limit: limit $", &mut out);
                push_2dp(limit.units, &mut out);
                push_str(", requested $", &mut out);
                push_2dp(requested.units, &mut out);
            },
            PreTradeError::InvalidQuantity => {
                push_str("Invalid quantity: must be greater than 0", &mut out);
            },
            PreTradeError::InactiveInstrument { symbol } => {
                push_str("Instrument ", &mut out);
                push_str(symbol.as_str(), &mut out);
                push_str(" is not active", &mut out);
            },
            PreTradeError::InvalidTickSize { symbol, price, tick_size } => {
                push_str("Invalid tick size for ", &mut out);
                push_str(symbol.as_str(), &mut out);
                push_str(": price ", &mut out);
                push_4dp(price.units as u128, &mut out);
                push_str(" not aligned to tick size ", &mut out);
                push_4dp(tick_size.units as u128, &mut out);
            },
            PreTradeError::DbError(e) => {
                push_str("Database error: ", &mut out);
                let inner = e.message();
                push_str(inner.as_str(), &mut out);
            },
        }
        assert(out@ =~= self@.message());
        chars_to_string(&out)
    }
}

/// Whether `symbol` is listed among the active instruments.
pub open spec fn spec_is_active(active: Seq<Seq<char>>, symbol: Seq<char>) -> bool {
    exists|i: int| 0 <= i < active.len() && active[i] == symbol
}

/// The price of the first entry of `symbol` in `table`, if there is one.
pub open spec fn spec_find_price(table: Seq<(Seq<char>, Price)>, symbol: Seq<char>) -> Option<
    Price,
>
    decreases table.len(),
{
    if table.len() == 0 {
        None
    } else if table[0].0 == symbol {
        Some(table[0].1)
    } else {
        spec_find_price(table.drop_first(), symbol)
    }
}

/// The band of the first entry of `symbol` in `table`, if there is one.
pub open spec fn spec_find_band(
    table: Seq<(Seq<char>, Price, Price)>,
    symbol: Seq<char>,
) -> Option<(Price, Price)>
    decreases table.len(),
{
    if table.len() == 0 {
        None
    } else if table[0].0 == symbol {
        Some((table[0].1, table[0].2))
    } else {
        spec_find_band(table.drop_first(), symbol)
    }
}

/// The estimated market price of `symbol`: its entry in the table, or
/// 100.00 where it has none.
pub open spec fn spec_estimated_price(cfg: PreTradeConfigView, symbol: Seq<char>) -> Price {
    match spec_find_price(cfg.estimated_prices, symbol) {
        Some(p) => p,
        None => Price { units: DEFAULT_ESTIMATE_UNITS },
    }
}

/// A price is aligned to a tick when it is an integer multiple of it. The
/// only multiple of a tick of zero is the price zero.
pub open spec fn spec_tick_aligned(price: Price, tick: Price) -> bool {
    if tick.units == 0 {
        price.units == 0
    } else {
        price.units % tick.units == 0
    }
}

/// The reason given for a limit price outside its band.
pub open spec fn spec_band_reason(price: Price, min: Price, max: Price) -> Seq<char> {
    "Price "@ + spec_text_2dp(price.units as nat) + " outside allowed band ["@ + spec_text_2dp(
        min.units as nat,
    ) + ", "@ + spec_text_2dp(max.units as nat) + "]"@
}

/// The notional and buying-power rules for an order valued at `price` per
/// share: the notional limit first, then, for a buy, the balance.
pub open spec fn spec_check_notional(
    cfg: PreTradeConfigView,
    price: Price,
    quantity: u64,
    side: OrderSide,
    balance: Money,
) -> Result<(), PreTradeErrorView> {
    let notional = Money { units: spec_notional(price, quantity) as u128 };
    if notional.units > cfg.max_notional_per_order.units {
        Err(
            PreTradeErrorView::ExceedsNotionalLimit {
                limit: cfg.max_notional_per_order,
                requested: notional,
            },
        )
    } else if side == OrderSide::Buy && notional.units > balance.units {
        Err(PreTradeErrorView::InsufficientBuyingPower { required: notional, available: balance })
    } else {
        Ok(())
    }
}

/// The rules for a limit order, in order: price band, tick alignment,
/// notional limit, buying power.
pub open spec fn spec_validate_limit(
    cfg: PreTradeConfigView,
    symbol: Seq<char>,
    price: Price,
    quantity: u64,
    side: OrderSide,
    balance: Money,
) -> Result<(), PreTradeErrorView> {
    let tick = spec_find_price(cfg.tick_sizes, symbol);
    match spec_find_band(cfg.price_bands, symbol) {
        Some((min, max)) if price.units < min.units || price.units > max.units => Err(
            PreTradeErrorView::InvalidPrice { reason: spec_band_reason(price, min, max) },
        ),
        _ => {
            if tick is Some && !spec_tick_aligned(price, tick->0) {
                Err(PreTradeErrorView::InvalidTickSize { symbol, price, tick_size: tick->0 })
            } else {
                spec_check_notional(cfg, price, quantity, side, balance)
            }
        },
    }
}

/// The rules for a market order: those on the notional, at the estimated
/// price.
pub open spec fn spec_validate_market(
    cfg: PreTradeConfigView,
    symbol: Seq<char>,
    quantity: u64,
    side: OrderSide,
    balance: Money,
) -> Result<(), PreTradeErrorView> {
    spec_check_notional(cfg, spec_estimated_price(cfg, symbol), quantity, side, balance)
}

/// The outcome of pre-trade validation: the first rule that fails, in the
/// order quantity, instrument, position limit, then the rules of the
/// order's type.
pub open spec fn spec_validate_order(
    cfg: PreTradeConfigView,
    side: OrderSide,
    order_type: OrderType,
    symbol: Seq<char>,
    quantity: u64,
    balance: Money,
) -> Result<(), PreTradeErrorView> {
    if quantity == 0 {
        Err(PreTradeErrorView::InvalidQuantity)
    } else if !spec_is_active(cfg.active_instruments, symbol) {
        Err(PreTradeErrorView::InactiveInstrument { symbol })
    } else if quantity > cfg.max_position_size {
        Err(
            PreTradeErrorView::ExceedsPositionLimit {
                limit: cfg.max_position_size,
                requested: quantity,
            },
        )
    } else {
        match order_type {
            OrderType::Limit(price) => spec_validate_limit(
                cfg,
                symbol,
                price,
                quantity,
                side,
                balance,
            ),
            OrderType::Market => spec_validate_market(cfg, symbol, quantity, side, balance),
        }
    }
}

/// Whether a validation result is the one the rules give.
pub open spec fn spec_result_matches(
    got: Result<(), PreTradeError>,
    want: Result<(), PreTradeErrorView>,
) -> bool {
    match got {
        Ok(()) => want is Ok,
        Err(e) => want == Err::<(), PreTradeErrorView>(e@),
    }
}

/// Validation is a function of its arguments and the rules alone: two
/// outcomes for the same arguments under the same rules agree, error for
/// error.
pub proof fn law_validation_is_deterministic(
    cfg: PreTradeConfigView,
    side: OrderSide,
    order_type: OrderType,
    symbol: Seq<char>,
    quantity: u64,
    balance: Money,
    first: Result<(), PreTradeError>,
    second: Result<(), PreTradeError>,
)
    requires
        spec_result_matches(
            first,
            spec_validate_order(cfg, side, order_type, symbol, quantity, balance),
        ),
        spec_result_matches(
            second,
            spec_validate_order(cfg, side, order_type, symbol, quantity, balance),
        ),
    ensures
        first is Ok <==> second is Ok,
        first is Err ==> first->Err_0@ == second->Err_0@,
{
}

/// Whether two strings hold the same text.
pub fn same_text(a: &String, b: &String) -> (r: bool)
    ensures
        r == (a@ == b@),
{
    *a == *b
}

/// The price of the first entry of `symbol` in `table`.
fn find_price(table: &Vec<SymbolPrice>, symbol: &String) -> (r: Option<Price>)
    ensures
        r == spec_find_price(spec_price_table(table@), symbol@),
{
    let ghost full = spec_price_table(table@);
    assert(full.skip(0) =~= full);
    let mut i: usize = 0;
    while i < table.len()
        invariant
            i <= table.len(),
            full == spec_price_table(table@),
            spec_find_price(full, symbol@) == spec_find_price(full.skip(i as int), symbol@),
        decreases table.len() - i,
    {
        assert(full.skip(i as int).drop_first() =~= full.skip(i as int + 1));
        if same_text(&table[i].symbol, symbol) {
            return Some(table[i].price);
        }
        i += 1;
    }
    None
}

/// The band of the first entry of `symbol` in `table`.
fn find_band(table: &Vec<PriceBand>, symbol: &String) -> (r: Option<(Price, Price)>)
    ensures
        r == spec_find_band(spec_band_table(table@), symbol@),
{
    let ghost full = spec_band_table(table@);
    assert(full.skip(0) =~= full);
    let mut i: usize = 0;
    while i < table.len()
        invariant
            i <= table.len(),
            full == spec_band_table(table@),
            spec_find_band(full, symbol@) == spec_find_band(full.skip(i as int), symbol@),
        decreases table.len() - i,
    {
        assert(full.skip(i as int).drop_first() =~= full.skip(i as int + 1));
        if same_text(&table[i].symbol, symbol) {
            return Some((table[i].min, table[i].max));
        }
        i += 1;
    }
    None
}

/// Whether `symbol` is listed in `active`.
fn is_active(active: &Vec<String>, symbol: &String) -> (r: bool)
    ensures
        r == spec_is_active(spec_symbols(active@), symbol@),
{
    let mut i: usize = 0;
    while i < active.len()
        invariant
            i <= active.len(),
            forall|j: int| 0 <= j < i ==> spec_symbols(active@)[j] != symbol@,
        decreases active.len() - i,
    {
        if same_text(&active[i], symbol) {
            assert(spec_symbols(active@)[i as int] == symbol@);
            return true;
        }
        i += 1;
    }
    false
}

/// Holds the rules and applies them. It keeps no other state: the same
/// arguments always give the same outcome.
#[derive(Debug)]
pub struct PreTradeValidator {
    config: PreTradeConfig,
}

impl PreTradeValidator {
    /// The rules this validator applies.
    pub closed spec fn config(&self) -> PreTradeConfigView {
        self.config@
    }

    /// A validator for the given rules.
    pub fn new(config: PreTradeConfig) -> (v: Self)
        ensures
            v.config() == config@,
    {
        Self { config }
    }

    /// A validator for the default rules.
    pub fn with_default_config() -> (v: Self)
        ensures
            v.config() == spec_default_config(),
    {
        Self::new(PreTradeConfig::default())
    }

    /// Checks an order against the rules and returns the first that fails.
    pub fn validate_order(
        &self,
        order_side: &OrderSide,
        order_type: &OrderType,
        symbol: &str,
        quantity: u64,
        user_balance: Money,
    ) -> (r: Result<(), PreTradeError>)
        ensures
            spec_result_matches(
                r,
                spec_validate_order(
                    self.config(),
                    *order_side,
                    *order_type,
                    symbol@,
                    quantity,
                    user_balance,
                ),
            ),
    {
        if quantity == 0 {
            return Err(PreTradeError::InvalidQuantity);
        }
        let sym = String::from_str(symbol);
        if !is_active(&self.config.active_instruments, &sym) {
            return Err(PreTradeError::InactiveInstrument { symbol: sym });
        }
        if quantity > self.config.max_position_size {
            return Err(
                PreTradeError::ExceedsPositionLimit {
                    limit: self.config.max_position_size,
                    requested: quantity,
                },
            );
        }
        match order_type {
            OrderType::Limit(price) => self.validate_limit_order_price(
                sym,
                *price,
                quantity,
                order_side,
                user_balance,
            ),
            OrderType::Market => self.validate_market_order(
                &sym,
                quantity,
                order_side,
                user_balance,
            ),
        }
    }

    /// The notional limit, then, for a buy, the balance.
    fn check_notional(
        &self,
        price: Price,
        quantity: u64,
        order_side: &OrderSide,
        user_balance: Money,
    ) -> (r: Result<(), PreTradeError>)
        ensures
            spec_result_matches(
                r,
                spec_check_notional(self.config(), price, quantity, *order_side, user_balance),
            ),
    {
        let notional = price.notional(quantity);
        if notional.units > self.config.max_notional_per_order.units {
            return Err(
                PreTradeError::ExceedsNotionalLimit {
                    limit: self.config.max_notional_per_order,
                    requested: notional,
                },
            );
        }
        let is_buy = match order_side {
            OrderSide::Buy => true,
            OrderSide::Sell => false,
        };
        if is_buy && notional.units > user_balance.units {
            return Err(
                PreTradeError::InsufficientBuyingPower {
                    required: notional,
                    available: user_balance,
                },
            );
        }
        Ok(())
    }

    /// The rules of a limit order: band, tick, notional, buying power.
    fn validate_limit_order_price(
        &self,
        symbol: String,
        price: Price,
        quantity: u64,
        order_side: &OrderSide,
        user_balance: Money,
    ) -> (r: Result<(), PreTradeError>)
        ensures
            spec_result_matches(
                r,
                spec_validate_limit(
                    self.config(),
                    symbol@,
                    price,
                    quantity,
                    *order_side,
                    user_balance,
                ),
            ),
    {
        match find_band(&self.config.price_bands, &symbol) {
            Some((min_price, max_price)) => {
                if price.units < min_price.units || price.units > max_price.units {
                    let mut out: Vec<char> = Vec::new();
                    push_str("Price ", &mut out);
                    push_2dp(price.units as u128, &mut out);
                    push_str(" outside allowed band [", &mut out);
                    push_2dp(min_price.units as u128, &mut out);
                    push_str(", ", &mut out);
                    push_2dp(max_price.units as u128, &mut out);
                    push_str("]", &mut out);
                    assert(out@ =~= spec_band_reason(price, min_price, max_price));
                    return Err(PreTradeError::InvalidPrice { reason: chars_to_string(&out) });
                }
            },
            None => {},
        }
        match find_price(&self.config.tick_sizes, &symbol) {
            Some(tick_size) => {
                let aligned = if tick_size.units == 0 {
                    price.units == 0
                } else {
                    price.units % tick_size.units == 0
                };
                if !aligned {
                    return Err(PreTradeError::InvalidTickSize { symbol, price, tick_size });
                }
            },
            None => {},
        }
        self.check_notional(price, quantity, order_side, user_balance)
    }

    /// The rules of a market order, at the estimated price.
    fn validate_market_order(
        &self,
        symbol: &String,
        quantity: u64,
        order_side: &OrderSide,
        user_balance: Money,
    ) -> (r: Result<(), PreTradeError>)
        ensures
            spec_result_matches(
                r,
                spec_validate_market(self.config(), symbol@, quantity, *order_side, user_balance),
            ),
    {
        let estimated_price = self.get_estimated_price(symbol);
        self.check_notional(estimated_price, quantity, order_side, user_balance)
    }

    /// The estimated market price of `symbol`.
    fn get_estimated_price(&self, symbol: &String) -> (p: Price)
        ensures
            p == spec_estimated_price(self.config(), symbol@),
    {
        match find_price(&self.config.estimated_prices, symbol) {
            Some(p) => p,
            None => Price { units: DEFAULT_ESTIMATE_UNITS },
        }
    }
}

/// The default rules: four active instruments, a tick of 0.01 for each,
/// bands from 1.00, at most 10 000 shares and 100 000.00 per order.
pub open spec fn spec_default_config() -> PreTradeConfigView {
    PreTradeConfigView {
        max_position_size: 10_000,
        max_notional_per_order: Money { units: 1_000_000_000 },
        active_instruments: seq!["AAPL"@, "GOOGL"@, "MSFT"@, "TSLA"@],
        tick_sizes: seq![
            ("AAPL"@, Price { units: 100 }),
            ("GOOGL"@, Price { units: 100 }),
            ("MSFT"@, Price { units: 100 }),
            ("TSLA"@, Price { units: 100 }),
        ],
        price_bands: seq![
            ("AAPL"@, Price { units: 10_000 }, Price { units: 10_000_000 }),
            ("GOOGL"@, Price { units: 10_000 }, Price { units: 50_000_000 }),
            ("MSFT"@, Price { units: 10_000 }, Price { units: 10_000_000 }),
            ("TSLA"@, Price { units: 10_000 }, Price { units: 20_000_000 }),
        ],
        estimated_prices: seq![
            ("AAPL"@, Price { units: 1_500_000 }),
            ("GOOGL"@, Price { units: 28_000_000 }),
            ("MSFT"@, Price { units: 4_200_000 }),
            ("TSLA"@, Price { units: 2_450_000 }),
        ],
    }
}

/// A table entry for `symbol` at `units` ten-thousandths.
fn symbol_price(symbol: &str, units: u64) -> (e: SymbolPrice)
    ensures
        e.symbol@ == symbol@,
        e.price.units == units,
{
    SymbolPrice { symbol: String::from_str(symbol), price: Price { units } }
}

/// A band for `symbol` from `min` to `max` ten-thousandths.
fn price_band(symbol: &str, min: u64, max: u64) -> (b: PriceBand)
    ensures
        b.symbol@ == symbol@,
        b.min.units == min,
        b.max.units == max,
{
    PriceBand {
        symbol: String::from_str(symbol),
        min: Price { units: min },
        max: Price { units: max },
    }
}

impl Default for PreTradeConfig {
    /// The default rules.
    fn default() -> (c: Self)
        ensures
            c@ == spec_default_config(),
    {
        let mut active_instruments: Vec<String> = Vec::new();
        active_instruments.push(String::from_str("AAPL"));
        active_instruments.push(String::from_str("GOOGL"));
        active_instruments.push(String::from_str("MSFT"));
        active_instruments.push(String::from_str("TSLA"));

        let mut tick_sizes: Vec<SymbolPrice> = Vec::new();
        tick_sizes.push(symbol_price("AAPL", 100));
        tick_sizes.push(symbol_price("GOOGL", 100));
        tick_sizes.push(symbol_price("MSFT", 100));
        tick_sizes.push(symbol_price("TSLA", 100));

        let mut price_bands: Vec<PriceBand> = Vec::new();
        price_bands.push(price_band("AAPL", 10_000, 10_000_000));
        price_bands.push(price_band("GOOGL", 10_000, 50_000_000));
        price_bands.push(price_band("MSFT", 10_000, 10_000_000));
        price_bands.push(price_band("TSLA", 10_000, 20_000_000));

        let mut estimated_prices: Vec<SymbolPrice> = Vec::new();
        estimated_prices.push(symbol_price("AAPL", 1_500_000));
        estimated_prices.push(symbol_price("GOOGL", 28_000_000));
        estimated_prices.push(symbol_price("MSFT", 4_200_000));
        estimated_prices.push(symbol_price("TSLA", 2_450_000));

        let c = PreTradeConfig {
            max_position_size: 10_000,
            max_notional_per_order: Money { units: 1_000_000_000 },
            active_instruments,
            tick_sizes,
            price_bands,
            estimated_prices,
        };
        assert(c@.active_instruments =~= spec_default_config().active_instruments);
        assert(c@.tick_sizes =~= spec_default_config().tick_sizes);
        assert(c@.price_bands =~= spec_default_config().price_bands);
        assert(c@.estimated_prices =~= spec_default_config().estimated_prices);
        c
    }
}

} // verus!
