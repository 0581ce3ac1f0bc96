//! Holdings: a user's open positions, one per symbol, with average-cost
//! accounting.

use crate::money::{Money, Price, SignedMoney};
use crate::order::{ClientId, Timestamp};
use crate::sys::now_micros;
use vstd::prelude::*;
use vstd::string::StringExecFns;

verus! {

/// An open position in one symbol.
#[derive(Debug)]
pub struct Holding {
    pub symbol: String,
    pub quantity: u64,
    /// Average cost per share.
    pub average_cost: Price,
    pub last_updated: Timestamp,
}

/// The mathematical value of a [`Holding`].
pub struct HoldingView {
    pub symbol: Seq<char>,
    pub quantity: u64,
    pub average_cost: Price,
    pub last_updated: Timestamp,
}

impl View for Holding {
    type V = HoldingView;

    open spec fn view(&self) -> HoldingView {
        HoldingView {
            symbol: self.symbol@,
            quantity: self.quantity,
            average_cost: self.average_cost,
            last_updated: self.last_updated,
        }
    }
}

impl Clone for Holding {
    fn clone(&self) -> (r: Self)
        ensures
            r == *self,
    {
        Holding {
            symbol: self.symbol.clone(),
            quantity: self.quantity,
            average_cost: self.average_cost,
            last_updated: self.last_updated,
        }
    }
}

/// Whether entry `i` of `entries` is the position in `symbol`.
pub open spec fn spec_holds_at(entries: Seq<HoldingView>, symbol: Seq<char>, i: int) -> bool {
    0 <= i < entries.len() && entries[i].symbol == symbol
}

/// No symbol has two entries.
pub open spec fn spec_distinct_symbols(entries: Seq<HoldingView>) -> bool {
    forall|i: int, j: int|
        0 <= i < entries.len() && 0 <= j < entries.len() && #[trigger] entries[i].symbol
            == #[trigger] entries[j].symbol ==> i == j
}

/// The positions by symbol.
pub open spec fn spec_positions(entries: Seq<HoldingView>) -> Map<Seq<char>, HoldingView> {
    Map::new(
        |s: Seq<char>| exists|i: int| spec_holds_at(entries, s, i),
        |s: Seq<char>| entries[choose|i: int| spec_holds_at(entries, s, i)],
    )
}

/// The position that results from changing the held quantity of `symbol`
/// by `delta` shares at `price`.
///
/// A buy into an existing position takes the quantity-weighted average of
/// the old cost and `price`, rounded down to a fixed-point unit; a first buy
/// opens the position at `price`. A sale keeps the average cost, and the
/// position is gone once nothing is left of it. A sale of what is not held
/// changes nothing.
pub open spec fn spec_updated_holding(
    held: Option<HoldingView>,
    symbol: Seq<char>,
    delta: int,
    price: Price,
    now: Timestamp,
) -> Option<HoldingView> {
    match held {
        Some(h) => {
            let new_quantity = h.quantity + delta;
            if new_quantity <= 0 {
                None
            } else {
                Some(
                    HoldingView {
                        symbol: h.symbol,
                        quantity: new_quantity as u64,
                        average_cost: if delta > 0 {
                            Price {
                                units: ((h.average_cost.units * h.quantity + price.units * delta)
                                    / new_quantity) as u64,
                            }
                        } else {
                            h.average_cost
                        },
                        last_updated: now,
                    },
                )
            }
        },
        None => {
            if delta > 0 {
                Some(
                    HoldingView {
                        symbol,
                        quantity: delta as u64,
                        average_cost: price,
                        last_updated: now,
                    },
                )
            } else {
                None
            }
        },
    }
}

/// A bought quantity as a positive change, a sold one as a negative.
pub open spec fn spec_signed(buy: bool, quantity: u64) -> int {
    if buy {
        quantity as int
    } else {
        -(quantity as int)
    }
}

/// The positions after such a change.
pub open spec fn spec_updated_positions(
    positions: Map<Seq<char>, HoldingView>,
    symbol: Seq<char>,
    delta: int,
    price: Price,
    now: Timestamp,
) -> Map<Seq<char>, HoldingView> {
    let held = if positions.contains_key(symbol) {
        Some(positions[symbol])
    } else {
        None
    };
    match spec_updated_holding(held, symbol, delta, price, now) {
        Some(h) => positions.insert(symbol, h),
        None => positions.remove(symbol),
    }
}

/// The weighted average of two per-share costs lies between them, so it is
/// a price again.
pub proof fn lemma_average_cost_bounds(a: int, q: int, p: int, d: int)
    requires
        0 <= a <= u64::MAX,
        0 <= p <= u64::MAX,
        1 <= q,
        1 <= d,
        q + d <= u64::MAX,
    ensures
        0 <= a * q + p * d <= u128::MAX,
        0 <= (a * q + p * d) / (q + d) <= u64::MAX,
        ((a * q + p * d) / (q + d)) * (q + d) <= a * q + p * d,
        a * q + p * d < ((a * q + p * d) / (q + d)) * (q + d) + (q + d),
{
    let m: int = u64::MAX as int;
    let n = a * q + p * d;
    let t = q + d;
    assert(0 <= a * q && a * q <= m * q) by (nonlinear_arith)
        requires
            0 <= a <= m,
            1 <= q,
    ;
    assert(0 <= p * d && p * d <= m * d) by (nonlinear_arith)
        requires
            0 <= p <= m,
            1 <= d,
    ;
    assert(m * q + m * d == m * t) by (nonlinear_arith)
        requires
            t == q + d,
    ;
    assert(m * t <= m * m) by (nonlinear_arith)
        requires
            0 <= t <= m,
            0 <= m,
    ;
    assert(m * m <= u128::MAX) by (nonlinear_arith)
        requires
            m == 0xffff_ffff_ffff_ffff,
    ;
    assert(0 <= n / t && (n / t) * t <= n && n < (n / t) * t + t) by (nonlinear_arith)
        requires
            0 <= n,
            1 <= t,
    ;
    assert(n / t <= m) by (nonlinear_arith)
        requires
            (n / t) * t <= n,
            n <= m * t,
            1 <= t,
            0 <= n / t,
    ;
}

/// A user's positions: at most one per symbol, each of at least one share.
/// Positions keep the order in which they were opened.
#[derive(Debug)]
pub struct Holdings {
    entries: Vec<Holding>,
}

impl Holdings {
    /// The positions in the order in which they were opened.
    pub closed spec fn entries(&self) -> Seq<HoldingView> {
        Seq::new(self.entries@.len(), |i: int| self.entries@[i]@)
    }

    /// At most one position per symbol, and none is empty.
    pub open spec fn wf(&self) -> bool {
        &&& spec_distinct_symbols(self.entries())
        &&& forall|i: int|
            0 <= i < self.entries().len() ==> #[trigger] self.entries()[i].quantity >= 1
    }

    /// No positions.
    pub fn new() -> (h: Self)
        ensures
            h.wf(),
            h@ == Map::<Seq<char>, HoldingView>::empty(),
            h.entries().len() == 0,
    {
        let h = Holdings { entries: Vec::new() };
        assert(h@ =~= Map::<Seq<char>, HoldingView>::empty());
        h
    }

    /// A copy with the same positions.
    pub fn clone(&self) -> (r: Self)
        ensures
            r.entries() == self.entries(),
            r@ == self@,
            r.wf() == self.wf(),
    {
        let mut entries: Vec<Holding> = Vec::new();
        let mut i: usize = 0;
        while i < self.entries.len()
            invariant
                i <= self.entries.len(),
                entries@.len() == i,
                forall|j: int| 0 <= j < i ==> entries@[j] == self.entries@[j],
            decreases self.entries.len() - i,
        {
            entries.push(self.entries[i].clone());
            i += 1;
        }
        let r = Holdings { entries };
        assert(r.entries() =~= self.entries());
        r
    }

    /// The number of positions.
    pub fn len(&self) -> (n: usize)
        ensures
            n == self.entries().len(),
    {
        self.entries.len()
    }

    /// Whether there is no position.
    pub fn is_empty(&self) -> (b: bool)
        ensures
            b == (self.entries().len() == 0),
    {
        self.entries.len() == 0
    }

    /// The `i`-th position, in the order of opening.
    pub fn at(&self, i: usize) -> (h: &Holding)
        requires
            i < self.entries().len(),
        ensures
            h@ == self.entries()[i as int],
    {
        &self.entries[i]
    }

    /// The position of the entry of `symbol`.
    fn find(&self, symbol: &String) -> (r: Option<usize>)
        ensures
            match r {
                Some(i) => spec_holds_at(self.entries(), symbol@, i as int),
                None => forall|i: int| !spec_holds_at(self.entries(), symbol@, i),
            },
    {
        let mut i: usize = 0;
        while i < self.entries.len()
            invariant
                i <= self.entries.len(),
                forall|j: int| 0 <= j < i ==> !spec_holds_at(self.entries(), symbol@, j),
            decreases self.entries.len() - i,
        {
            if self.entries[i].symbol == *symbol {
                return Some(i);
            }
            i += 1;
        }
        None
    }

    /// The position in `symbol`, if one is open.
    pub fn get(&self, symbol: &str) -> (r: Option<&Holding>)
        requires
            self.wf(),
        ensures
            match r {
                Some(h) => self@.contains_key(symbol@) && self@[symbol@] == h@,
                None => !self@.contains_key(symbol@),
            },
    {
        let sym = String::from_str(symbol);
        match self.find(&sym) {
            Some(i) => {
                proof {
                    lemma_position_at(self.entries(), i as int);
                }
                Some(&self.entries[i])
            },
            None => None,
        }
    }

    /// All positions, in the order of opening.
    pub fn list(&self) -> (r: Vec<&Holding>)
        ensures
            r@.len() == self.entries().len(),
            forall|i: int| 0 <= i < r@.len() ==> (#[trigger] r@[i])@ == self.entries()[i],
    {
        let mut out: Vec<&Holding> = Vec::new();
        let mut i: usize = 0;
        while i < self.entries.len()
            invariant
                i <= self.entries.len(),
                out@.len() == i,
                forall|j: int| 0 <= j < i ==> (#[trigger] out@[j])@ == self.entries()[j],
            decreases self.entries.len() - i,
        {
            out.push(&self.entries[i]);
            i += 1;
        }
        out
    }

    /// Buys or sells `quantity` shares of `symbol` at `price`, stamping the
    /// position with `now`.
    pub fn trade(&mut self, symbol: &str, buy: bool, quantity: u64, price: Price, now: Timestamp)
        requires
            old(self).wf(),
            buy && old(self)@.contains_key(symbol@) ==> old(self)@[symbol@].quantity + quantity
                <= u64::MAX,
        ensures
            final(self).wf(),
            final(self)@ == spec_updated_positions(
                old(self)@,
                symbol@,
                spec_signed(buy, quantity),
                price,
                now,
            ),
            spec_positions_sound(final(self)@),
            spec_held(old(self)@, symbol@) + spec_signed(buy, quantity) <= 0
                ==> !final(self)@.contains_key(symbol@),
            buy && quantity >= 1 ==> spec_bought_at_average(
                old(self)@,
                final(self)@,
                symbol@,
                quantity as int,
                price,
            ),
    {
        let sym = String::from_str(symbol);
        let ghost before = self.entries();
        proof {
            lemma_positions_sound(*old(self));
            if buy && quantity >= 1 {
                lemma_buy_averages(old(self)@, symbol@, quantity as int, price, now);
            }
        }
        match self.find(&sym) {
            Some(i) => {
                proof {
                    lemma_position_at(before, i as int);
                }
                let old_quantity: u64 = self.entries[i].quantity;
                let old_cost: Price = self.entries[i].average_cost;
                if !buy && quantity >= old_quantity {
                    self.entries.remove(i);
                    proof {
                        assert(self.entries() =~= before.remove(i as int));
                        lemma_positions_remove(before, i as int);
                    }
                } else {
                    let new_quantity: u64 = if buy {
                        old_quantity + quantity
                    } else {
                        old_quantity - quantity
                    };
                    let average_cost = if buy && quantity > 0 {
                        proof {
                            lemma_average_cost_bounds(
                                old_cost.units as int,
                                old_quantity as int,
                                price.units as int,
                                quantity as int,
                            );
                        }
                        let total: u128 = (old_cost.units as u128) * (old_quantity as u128) + (
                        price.units as u128) * (quantity as u128);
                        Price { units: (total / (new_quantity as u128)) as u64 }
                    } else {
                        old_cost
                    };
                    let updated = Holding {
                        symbol: sym,
                        quantity: new_quantity,
                        average_cost,
                        last_updated: now,
                    };
                    self.entries[i] = updated;
                    proof {
                        assert(self.entries() =~= before.update(i as int, updated@));
                        lemma_positions_update(before, i as int, updated@);
                    }
                }
            },
            None => {
                if buy && quantity > 0 {
                    let opened = Holding {
                        symbol: sym,
                        quantity,
                        average_cost: price,
                        last_updated: now,
                    };
                    self.entries.push(opened);
                    proof {
                        assert(self.entries() =~= before.push(opened@));
                        lemma_positions_push(before, opened@);
                    }
                } else {
                    proof {
                        assert(!spec_positions(before).contains_key(symbol@));
                        assert(spec_positions(before).remove(symbol@) =~= spec_positions(before));
                    }
                }
            },
        }
        proof {
            lemma_positions_sound(*self);
        }
    }

    /// Changes the held quantity of `symbol` by `quantity_change` shares
    /// traded at `price`, stamping the position with `now`.
    pub fn update_at(&mut self, symbol: &str, quantity_change: i64, price: Price, now: Timestamp)
        requires
            old(self).wf(),
            old(self)@.contains_key(symbol@) ==> old(self)@[symbol@].quantity + quantity_change
                <= u64::MAX,
        ensures
            final(self).wf(),
            final(self)@ == spec_updated_positions(
                old(self)@,
                symbol@,
                quantity_change as int,
                price,
                now,
            ),
            spec_positions_sound(final(self)@),
            spec_held(old(self)@, symbol@) + quantity_change <= 0 ==> !final(self)@.contains_key(
                symbol@,
            ),
            quantity_change >= 1 ==> spec_bought_at_average(
                old(self)@,
                final(self)@,
                symbol@,
                quantity_change as int,
                price,
            ),
    {
        if quantity_change >= 0 {
            self.trade(symbol, true, quantity_change as u64, price, now);
        } else {
            self.trade(symbol, false, (-(quantity_change as i128)) as u64, price, now);
        }
    }
}

impl View for Holdings {
    type V = Map<Seq<char>, HoldingView>;

    open spec fn view(&self) -> Map<Seq<char>, HoldingView> {
        spec_positions(self.entries())
    }
}

/// Under distinct symbols, entry `i` is the position in its symbol.
pub proof fn lemma_position_at(entries: Seq<HoldingView>, i: int)
    requires
        spec_distinct_symbols(entries),
        0 <= i < entries.len(),
    ensures
        spec_positions(entries).contains_key(entries[i].symbol),
        spec_positions(entries)[entries[i].symbol] == entries[i],
{
    let s = entries[i].symbol;
    assert(spec_holds_at(entries, s, i));
    let j = choose|j: int| spec_holds_at(entries, s, j);
    assert(entries[j].symbol == entries[i].symbol);
}

/// The number of shares held of `symbol`: zero where no position is open.
pub open spec fn spec_held(positions: Map<Seq<char>, HoldingView>, symbol: Seq<char>) -> int {
    if positions.contains_key(symbol) {
        positions[symbol].quantity as int
    } else {
        0
    }
}

/// Every open position is filed under its own symbol and is of at least
/// one share.
pub proof fn lemma_positions_positive(holdings: Holdings, symbol: Seq<char>)
    requires
        holdings.wf(),
        holdings@.contains_key(symbol),
    ensures
        holdings@[symbol].quantity >= 1,
        holdings@[symbol].symbol == symbol,
{
    let entries = holdings.entries();
    let k = choose|k: int| spec_holds_at(entries, symbol, k);
    lemma_position_at(entries, k);
}

/// Whether every open position is of at least one share and is filed
/// under its own symbol.
pub open spec fn spec_positions_sound(positions: Map<Seq<char>, HoldingView>) -> bool {
    forall|s: Seq<char>| #[trigger]
        positions.contains_key(s) ==> positions[s].quantity >= 1 && positions[s].symbol == s
}

/// The positions of well-formed holdings are sound.
pub proof fn lemma_positions_sound(holdings: Holdings)
    requires
        holdings.wf(),
    ensures
        spec_positions_sound(holdings@),
{
    let positions = holdings@;
    assert forall|s: Seq<char>| #[trigger] positions.contains_key(s) implies positions[s].quantity
        >= 1 && positions[s].symbol == s by {
        lemma_positions_positive(holdings, s);
    }
}

/// What a position cost in all: its average cost times its quantity, and
/// nothing where no position is open.
pub open spec fn spec_cost_of(positions: Map<Seq<char>, HoldingView>, symbol: Seq<char>) -> int {
    if positions.contains_key(symbol) {
        positions[symbol].average_cost.units * positions[symbol].quantity
    } else {
        0
    }
}

/// Whether the position in `symbol` is in `after` what a buy of `quantity`
/// shares at `price` makes of the one in `before`: it is open, `quantity`
/// shares larger, and its average cost times its quantity is the old cost
/// plus `price * quantity`, short of it by less than one fixed-point unit
/// per share. A position that the buy opens has `price` as its average
/// cost.
pub open spec fn spec_bought_at_average(
    before: Map<Seq<char>, HoldingView>,
    after: Map<Seq<char>, HoldingView>,
    symbol: Seq<char>,
    quantity: int,
    price: Price,
) -> bool {
    let basis = spec_cost_of(before, symbol) + price.units * quantity;
    &&& after.contains_key(symbol)
    &&& after[symbol].quantity == spec_held(before, symbol) + quantity
    &&& spec_cost_of(after, symbol) <= basis < spec_cost_of(after, symbol) + after[symbol].quantity
    &&& !before.contains_key(symbol) ==> after[symbol].average_cost == price
}

/// A buy leaves the position at the weighted average of what was paid.
pub proof fn lemma_buy_averages(
    positions: Map<Seq<char>, HoldingView>,
    symbol: Seq<char>,
    quantity: int,
    price: Price,
    now: Timestamp,
)
    requires
        spec_positions_sound(positions),
        1 <= quantity,
        spec_held(positions, symbol) + quantity <= u64::MAX,
    ensures
        spec_bought_at_average(
            positions,
            spec_updated_positions(positions, symbol, quantity, price, now),
            symbol,
            quantity,
            price,
        ),
{
    if positions.contains_key(symbol) {
        let h = positions[symbol];
        lemma_average_cost_bounds(
            h.average_cost.units as int,
            h.quantity as int,
            price.units as int,
            quantity,
        );
    } else {
        let p = price.units as int;
        assert(p * quantity < p * quantity + quantity);
    }
}

/// Opening a position in a symbol not yet held adds it to the map.
pub proof fn lemma_positions_push(entries: Seq<HoldingView>, h: HoldingView)
    requires
        spec_distinct_symbols(entries),
        forall|i: int| !spec_holds_at(entries, h.symbol, i),
    ensures
        spec_distinct_symbols(entries.push(h)),
        spec_positions(entries.push(h)) == spec_positions(entries).insert(h.symbol, h),
{
    let after = entries.push(h);
    assert forall|i: int, j: int|
        0 <= i < after.len() && 0 <= j < after.len() && #[trigger] after[i].symbol
            == #[trigger] after[j].symbol implies i == j by {
        if i < entries.len() && j < entries.len() {
            assert(entries[i].symbol == entries[j].symbol);
        } else if i < entries.len() {
            assert(spec_holds_at(entries, h.symbol, i));
        } else if j < entries.len() {
            assert(spec_holds_at(entries, h.symbol, j));
        }
    }
    let want = spec_positions(entries).insert(h.symbol, h);
    assert forall|s: Seq<char>| #[trigger]
        spec_positions(after).contains_key(s) implies want.contains_key(s) && want[s]
        == spec_positions(after)[s] by {
        let k = choose|k: int| spec_holds_at(after, s, k);
        lemma_position_at(after, k);
        if k < entries.len() {
            assert(spec_holds_at(entries, s, k));
            lemma_position_at(entries, k);
        }
    }
    assert forall|s: Seq<char>| #[trigger]
        want.contains_key(s) implies spec_positions(after).contains_key(s) by {
        if s == h.symbol {
            assert(spec_holds_at(after, s, entries.len() as int));
        } else {
            let k = choose|k: int| spec_holds_at(entries, s, k);
            assert(spec_holds_at(after, s, k));
        }
    }
    assert(spec_positions(after) =~= want);
}

/// Replacing a position by one in the same symbol replaces it in the map.
pub proof fn lemma_positions_update(entries: Seq<HoldingView>, i: int, h: HoldingView)
    requires
        spec_distinct_symbols(entries),
        0 <= i < entries.len(),
        h.symbol == entries[i].symbol,
    ensures
        spec_distinct_symbols(entries.update(i, h)),
        spec_positions(entries.update(i, h)) == spec_positions(entries).insert(h.symbol, h),
{
    let after = entries.update(i, h);
    assert forall|a: int, b: int|
        0 <= a < after.len() && 0 <= b < after.len() && #[trigger] after[a].symbol
            == #[trigger] after[b].symbol implies a == b by {
        assert(entries[a].symbol == after[a].symbol);
        assert(entries[b].symbol == after[b].symbol);
    }
    let want = spec_positions(entries).insert(h.symbol, h);
    assert forall|s: Seq<char>| #[trigger]
        spec_positions(after).contains_key(s) implies want.contains_key(s) && want[s]
        == spec_positions(after)[s] by {
        let k = choose|k: int| spec_holds_at(after, s, k);
        lemma_position_at(after, k);
        assert(entries[k].symbol == after[k].symbol);
        assert(spec_holds_at(entries, s, k));
        lemma_position_at(entries, k);
        if k != i {
            assert(entries[k].symbol != entries[i].symbol);
        }
    }
    assert forall|s: Seq<char>| #[trigger]
        want.contains_key(s) implies spec_positions(after).contains_key(s) by {
        if s == h.symbol {
            assert(spec_holds_at(after, s, i));
        } else {
            let k = choose|k: int| spec_holds_at(entries, s, k);
            assert(spec_holds_at(after, s, k));
        }
    }
    assert(spec_positions(after) =~= want);
}

/// Dropping an entry drops its symbol from the map and nothing else.
pub proof fn lemma_positions_remove(entries: Seq<HoldingView>, i: int)
    requires
        spec_distinct_symbols(entries),
        0 <= i < entries.len(),
    ensures
        spec_distinct_symbols(entries.remove(i)),
        spec_positions(entries.remove(i)) == spec_positions(entries).remove(entries[i].symbol),
{
    let after = entries.remove(i);
    let gone = entries[i].symbol;
    assert forall|a: int, b: int|
        0 <= a < after.len() && 0 <= b < after.len() && #[trigger] after[a].symbol
            == #[trigger] after[b].symbol implies a == b by {
        let a0 = if a < i { a } else { a + 1 };
        let b0 = if b < i { b } else { b + 1 };
        assert(after[a] == entries[a0]);
        assert(after[b] == entries[b0]);
        assert(entries[a0].symbol == entries[b0].symbol);
    }
    let want = spec_positions(entries).remove(gone);
    assert forall|s: Seq<char>| #[trigger]
        spec_positions(after).contains_key(s) implies want.contains_key(s) && want[s]
        == spec_positions(after)[s] by {
        let k = choose|k: int| spec_holds_at(after, s, k);
        lemma_position_at(after, k);
        let k0 = if k < i { k } else { k + 1 };
        assert(after[k] == entries[k0]);
        assert(spec_holds_at(entries, s, k0));
        lemma_position_at(entries, k0);
        assert(entries[k0].symbol != entries[i].symbol);
    }
    assert forall|s: Seq<char>| #[trigger]
        want.contains_key(s) implies spec_positions(after).contains_key(s) by {
        let k = choose|k: int| spec_holds_at(entries, s, k);
        assert(k != i);
        let k1 = if k < i { k } else { k - 1 };
        assert(after[k1] == entries[k]);
        assert(spec_holds_at(after, s, k1));
    }
    assert(spec_positions(after) =~= want);
}

/// One percent, in the fixed-point units of a percentage.
pub const PERCENT_SCALE: u128 = 1_000_000;

/// A gain or loss in percent of the cost, with four fractional digits,
/// rounded towards zero; zero where there is no cost.
pub open spec fn spec_gain_loss_percentage(value: Money, cost: Money) -> int {
    if cost.units == 0 {
        0
    } else if value.units >= cost.units {
        ((value.units - cost.units) * PERCENT_SCALE) / (cost.units as int)
    } else {
        -(((cost.units - value.units) * PERCENT_SCALE) / (cost.units as int))
    }
}

/// A summary of a user's positions at market value and at cost.
#[derive(Debug)]
pub struct Portfolio {
    pub user_id: ClientId,
    pub holdings: Holdings,
    /// Current market value.
    pub total_value: Money,
    /// Total cost basis.
    pub total_cost: Money,
    pub last_updated: Timestamp,
}

impl Portfolio {
    /// An empty portfolio for `user_id`, stamped with `now`.
    pub fn new_at(user_id: ClientId, now: Timestamp) -> (p: Self)
        ensures
            p.user_id == user_id,
            p.holdings.wf(),
            p.holdings@ == Map::<Seq<char>, HoldingView>::empty(),
            p.total_value.units == 0,
            p.total_cost.units == 0,
            p.last_updated == now,
    {
        Self {
            user_id,
            holdings: Holdings::new(),
            total_value: Money { units: 0 },
            total_cost: Money { units: 0 },
            last_updated: now,
        }
    }

    /// An empty portfolio for `user_id`, stamped with the current time.
    pub fn new(user_id: ClientId) -> (p: Self)
        ensures
            p.user_id == user_id,
            p.holdings.wf(),
            p.holdings@ == Map::<Seq<char>, HoldingView>::empty(),
            p.total_value.units == 0,
            p.total_cost.units == 0,
    {
        Self::new_at(user_id, now_micros())
    }

    /// All positions, in the order in which they were opened.
    pub fn get_holdings_list(&self) -> (r: Vec<&Holding>)
        ensures
            r@.len() == self.holdings.entries().len(),
            forall|i: int| 0 <= i < r@.len() ==> (#[trigger] r@[i])@ == self.holdings.entries()[i],
    {
        self.holdings.list()
    }

    /// Market value less cost.
    pub fn get_total_gain_loss(&self) -> (d: SignedMoney)
        ensures
            d.value() == self.total_value.units - self.total_cost.units,
    {
        SignedMoney::difference(self.total_value, self.total_cost)
    }

    /// The gain or loss in percent of the cost, or `None` where it is too
    /// large for an amount.
    pub fn get_gain_loss_percentage(&self) -> (r: Option<SignedMoney>)
        ensures
            match r {
                Some(p) => p.value() == spec_gain_loss_percentage(
                    self.total_value,
                    self.total_cost,
                ),
                None => self.total_cost.units != 0 && (if self.total_value.units
                    >= self.total_cost.units {
                    self.total_value.units - self.total_cost.units
                } else {
                    self.total_cost.units - self.total_value.units
                }) * PERCENT_SCALE > u128::MAX,
            },
    {
        if self.total_cost.units == 0 {
            return Some(SignedMoney { negative: false, units: 0 });
        }
        let gain = self.get_total_gain_loss();
        match gain.units.checked_mul(PERCENT_SCALE) {
            Some(scaled) => {
                let units = scaled / self.total_cost.units;
                Some(SignedMoney { negative: gain.negative && units > 0, units })
            },
            None => None,
        }
    }
}

} // verus!
