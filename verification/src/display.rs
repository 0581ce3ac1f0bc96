//! Orders and holdings as the pages show them.

use crate::money::{spec_notional, Money, Price, SignedMoney};
use crate::order::{Order, OrderId, OrderSide, OrderStatus, OrderType, Timestamp};
use crate::portfolio::Holding;
use crate::sys::{id_text, spec_id_text, spec_time_text, time_text};
use crate::web::{explain, spec_text};
use vstd::prelude::*;
use vstd::string::StringExecFns;

verus! {

/// An order as a row of a page.
#[derive(Debug)]
pub struct OrderDisplayData {
    pub id: String,
    pub symbol: String,
    pub quantity: u64,
    /// The limit price; zero for a market order.
    pub price: Price,
    /// `Buy` or `Sell`.
    pub order_type: String,
    /// `Market` or `Limit`.
    pub order_kind: String,
    pub status: String,
    pub date: String,
    pub total: Money,
    /// What the status means, for a tooltip.
    pub status_tooltip: Option<String>,
}

/// The plain value of an [`OrderDisplayData`].
pub struct OrderDisplayView {
    pub id: Seq<char>,
    pub symbol: Seq<char>,
    pub quantity: u64,
    pub price: Price,
    pub order_type: Seq<char>,
    pub order_kind: Seq<char>,
    pub status: Seq<char>,
    pub date: Seq<char>,
    pub total: Money,
    pub status_tooltip: Option<Seq<char>>,
}

impl View for OrderDisplayData {
    type V = OrderDisplayView;

    open spec fn view(&self) -> OrderDisplayView {
        OrderDisplayView {
            id: self.id@,
            symbol: self.symbol@,
            quantity: self.quantity,
            price: self.price,
            order_type: self.order_type@,
            order_kind: self.order_kind@,
            status: self.status@,
            date: self.date@,
            total: self.total,
            status_tooltip: spec_text(self.status_tooltip),
        }
    }
}

/// The pattern under which the pages show a time: date, hour and minute.
pub open spec fn spec_minute_pattern() -> Seq<char> {
    "%Y-%m-%d %H:%M"@
}

/// A time as the pages show it: date and minute, or nothing for a time
/// that has no date.
pub open spec fn spec_date_text(ts: Timestamp) -> Seq<char> {
    match spec_time_text(ts, spec_minute_pattern()) {
        Some(s) => s,
        None => Seq::empty(),
    }
}

/// A time as the pages show it.
pub fn date_text(ts: Timestamp) -> (s: String)
    ensures
        s@ == spec_date_text(ts),
{
    match time_text(ts, "%Y-%m-%d %H:%M") {
        Some(s) => s,
        None => String::new(),
    }
}

/// The name of a side.
pub open spec fn spec_side_text(side: OrderSide) -> Seq<char> {
    match side {
        OrderSide::Buy => "Buy"@,
        OrderSide::Sell => "Sell"@,
    }
}

/// The name of a kind of order.
pub open spec fn spec_kind_text(order_type: OrderType) -> Seq<char> {
    match order_type {
        OrderType::Market => "Market"@,
        OrderType::Limit(_) => "Limit"@,
    }
}

/// The price that a row shows: the limit, or zero for a market order.
pub open spec fn spec_shown_price(order_type: OrderType) -> Price {
    match order_type {
        OrderType::Market => Price { units: 0 },
        OrderType::Limit(p) => p,
    }
}

/// The name of a status as the pages show it.
pub open spec fn spec_status_text(status: OrderStatus) -> Seq<char> {
    match status {
        OrderStatus::Queued => "Queued"@,
        OrderStatus::Pending => "Pending"@,
        OrderStatus::Filled { .. } => "Filled"@,
        OrderStatus::PendingCancel => "Pending Cancel"@,
        OrderStatus::Cancelled => "Cancelled"@,
        OrderStatus::Expired { .. } => "Expired"@,
        OrderStatus::Rejected { .. } => "Rejected"@,
    }
}

/// What a status means, for a tooltip.
pub open spec fn spec_status_tooltip(status: OrderStatus) -> Seq<char> {
    match status {
        OrderStatus::Queued => "Order is waiting to be processed by the system"@,
        OrderStatus::Pending => "Order has been sent to the exchange but not yet executed"@,
        OrderStatus::Filled { date } => "Order was completely filled on "@ + spec_date_text(date),
        OrderStatus::PendingCancel => "Order cancellation is being processed"@,
        OrderStatus::Cancelled => "Order was cancelled by the user"@,
        OrderStatus::Expired { date } => "Order expired on "@ + spec_date_text(date),
        OrderStatus::Rejected { date } => "Order was rejected by the system on "@
            + spec_date_text(date),
    }
}

/// The row of `order`, stored under `order_id`.
pub open spec fn spec_order_row(order_id: OrderId, order: Order) -> OrderDisplayView {
    OrderDisplayView {
        id: spec_id_text(order_id),
        symbol: order.symbol@,
        quantity: order.quantity,
        price: spec_shown_price(order.order_type),
        order_type: spec_side_text(order.order_side),
        order_kind: spec_kind_text(order.order_type),
        status: spec_status_text(order.status),
        date: spec_date_text(order.date),
        total: Money {
            units: spec_notional(spec_shown_price(order.order_type), order.quantity) as u128,
        },
        status_tooltip: Some(spec_status_tooltip(order.status)),
    }
}

impl OrderDisplayData {
    /// The row of `order`, stored under `order_id`.
    pub fn from_order(order_id: OrderId, order: Order) -> (row: Self)
        ensures
            row@ == spec_order_row(order_id, order),
    {
        let order_type = match order.order_side {
            OrderSide::Buy => String::from_str("Buy"),
            OrderSide::Sell => String::from_str("Sell"),
        };
        let (order_kind, price) = match order.order_type {
            OrderType::Market => (String::from_str("Market"), Price { units: 0 }),
            OrderType::Limit(p) => (String::from_str("Limit"), p),
        };
        let (status, status_tooltip) = match order.status {
            OrderStatus::Queued => (
                String::from_str("Queued"),
                String::from_str("Order is waiting to be processed by the system"),
            ),
            OrderStatus::Pending => (
                String::from_str("Pending"),
                String::from_str("Order has been sent to the exchange but not yet executed"),
            ),
            OrderStatus::Filled { date } => {
                let when = date_text(date);
                (
                    String::from_str("Filled"),
                    explain("Order was completely filled on ", when.as_str()),
                )
            },
            OrderStatus::PendingCancel => (
                String::from_str("Pending Cancel"),
                String::from_str("Order cancellation is being processed"),
            ),
            OrderStatus::Cancelled => (
                String::from_str("Cancelled"),
                String::from_str("Order was cancelled by the user"),
            ),
            OrderStatus::Expired { date } => {
                let when = date_text(date);
                (String::from_str("Expired"), explain("Order expired on ", when.as_str()))
            },
            OrderStatus::Rejected { date } => {
                let when = date_text(date);
                (
                    String::from_str("Rejected"),
                    explain("Order was rejected by the system on ", when.as_str()),
                )
            },
        };
        let total = price.notional(order.quantity);
        let date = date_text(order.date);
        Self {
            id: id_text(order_id),
            symbol: order.symbol,
            quantity: order.quantity,
            price,
            order_type,
            order_kind,
            status,
            date,
            total,
            status_tooltip: Some(status_tooltip),
        }
    }
}

/// `units` ten-thousandths rounded to whole hundredths, halves upwards.
pub open spec fn spec_round_to_cent(units: int) -> int {
    ((units + 50) / 100) * 100
}

/// `amount` rounded to whole hundredths, halves upwards; `None` where the
/// result does not fit.
pub fn round_to_cent(amount: Money) -> (r: Option<Money>)
    ensures
        match r {
            Some(m) => m.units == spec_round_to_cent(amount.units as int),
            None => spec_round_to_cent(amount.units as int) > u128::MAX,
        },
{
    let low = amount.units % 100;
    let floor = amount.units - low;
    assert(floor == (amount.units / 100) * 100);
    if low >= 50 {
        assert(spec_round_to_cent(amount.units as int) == floor + 100);
        match floor.checked_add(100) {
            Some(units) => Some(Money { units }),
            None => None,
        }
    } else {
        assert(spec_round_to_cent(amount.units as int) == floor);
        Some(Money { units: floor })
    }
}

/// A holding as a row of a page. Amounts are rounded to hundredths. A
/// holding is valued at its average cost, so it shows no gain or loss.
#[derive(Debug)]
pub struct HoldingDisplayData {
    pub symbol: String,
    pub quantity: u64,
    pub average_cost: Money,
    pub current_price: Money,
    pub total_value: Money,
    pub gain_loss: SignedMoney,
    pub gain_loss_percentage: SignedMoney,
}

impl HoldingDisplayData {
    /// The row of `holding`.
    pub fn from_holding(holding: &Holding) -> (row: Self)
        ensures
            row.symbol@ == holding.symbol@,
            row.quantity == holding.quantity,
            row.average_cost.units == spec_round_to_cent(holding.average_cost.units as int),
            row.current_price == row.average_cost,
            row.total_value.units == spec_round_to_cent(
                spec_notional(holding.average_cost, holding.quantity),
            ),
            row.gain_loss.value() == 0,
            row.gain_loss_percentage.value() == 0,
    {
        let current_price = holding.average_cost;
        let total_value = current_price.notional(holding.quantity);
        proof {
            crate::money::lemma_notional_fits(holding.average_cost, holding.quantity);
            let t = total_value.units as int;
            assert(t <= 0xffff_ffff_ffff_ffff * 0xffff_ffff_ffff_ffff) by (nonlinear_arith)
                requires
                    t == (holding.average_cost.units as int) * (holding.quantity as int),
                    0 <= holding.average_cost.units <= 0xffff_ffff_ffff_ffff,
                    0 <= holding.quantity <= 0xffff_ffff_ffff_ffff,
            ;
        }
        let shown_price = match round_to_cent(current_price.to_money()) {
            Some(m) => m,
            None => Money { units: 0 },
        };
        let shown_value = match round_to_cent(total_value) {
            Some(m) => m,
            None => Money { units: 0 },
        };
        Self {
            symbol: holding.symbol.clone(),
            quantity: holding.quantity,
            average_cost: shown_price,
            current_price: shown_price,
            total_value: shown_value,
            gain_loss: SignedMoney { negative: false, units: 0 },
            gain_loss_percentage: SignedMoney { negative: false, units: 0 },
        }
    }
}

/// The overview page of a user.
#[derive(Debug)]
pub struct DashboardTemplate {
    pub account_balance: Money,
    pub recent_orders: Vec<OrderDisplayData>,
    pub holdings: Vec<HoldingDisplayData>,
    pub portfolio_value: Money,
    pub total_gain_loss: SignedMoney,
    pub total_gain_loss_percentage: SignedMoney,
}

/// The page that lists orders.
#[derive(Debug)]
pub struct OrdersTemplate {
    pub orders: Vec<OrderDisplayData>,
}

/// The page that confirms an order.
#[derive(Debug)]
pub struct OrderConfirmationTemplate {
    pub order_id: String,
    pub symbol: String,
    pub order_type: String,
    pub quantity: u64,
    pub price: Price,
    pub total_cost: Money,
}

} // verus!
