//! Fixed-point decimals for prices and cash amounts.
//!
//! Both types count ten-thousandths of a currency unit. A [`Price`] is a
//! per-share quote and fits in 64 bits; a [`Money`] amount is wide enough to
//! hold the product of any price and any share quantity without rounding.

use vstd::prelude::*;

verus! {

/// Number of fixed-point units in one whole currency unit.
pub const SCALE: u64 = 10_000;

/// A per-share price, in ten-thousandths of a currency unit.
#[derive(Clone, Copy, Debug, PartialEq, Eq, Structural)]
pub struct Price {
    pub units: u64,
}

/// A cash amount, in ten-thousandths of a currency unit.
#[derive(Clone, Copy, Debug, PartialEq, Eq, Structural)]
pub struct Money {
    pub units: u128,
}

/// A gain or a loss: an amount with a sign, in ten-thousandths. Zero is
/// not negative.
#[derive(Clone, Copy, Debug, PartialEq, Eq, Structural)]
pub struct SignedMoney {
    pub negative: bool,
    pub units: u128,
}

impl SignedMoney {
    /// The amount as an integer of fixed-point units.
    pub open spec fn value(self) -> int {
        if self.negative {
            -(self.units as int)
        } else {
            self.units as int
        }
    }

    /// The difference `a - b`.
    pub fn difference(a: Money, b: Money) -> (d: SignedMoney)
        ensures
            d.value() == a.units - b.units,
            d.negative ==> d.units > 0,
    {
        if a.units >= b.units {
            SignedMoney { negative: false, units: a.units - b.units }
        } else {
            SignedMoney { negative: true, units: b.units - a.units }
        }
    }
}

/// The exact value of `quantity` shares at `price`, in fixed-point units.
pub open spec fn spec_notional(price: Price, quantity: u64) -> int {
    price.units as int * quantity as int
}

/// Any price times any quantity fits in a [`Money`] amount.
pub proof fn lemma_notional_fits(price: Price, quantity: u64)
    ensures
        0 <= spec_notional(price, quantity) <= u128::MAX,
{
    let p = price.units as int;
    let q = quantity as int;
    assert(0 <= p * q) by (nonlinear_arith)
        requires
            0 <= p,
            0 <= q,
    ;
    assert(p * q <= 0xffff_ffff_ffff_ffff * 0xffff_ffff_ffff_ffff) by (nonlinear_arith)
        requires
            0 <= p <= 0xffff_ffff_ffff_ffff,
            0 <= q <= 0xffff_ffff_ffff_ffff,
    ;
}

impl Price {
    /// A price of `units` ten-thousandths.
    pub fn from_units(units: u64) -> (p: Price)
        ensures
            p.units == units,
    {
        Price { units }
    }

    /// The price `whole.frac`, where `frac` counts ten-thousandths; `None`
    /// when `frac` is not a proper fraction or the price does not fit.
    pub fn from_parts(whole: u64, frac: u64) -> (p: Option<Price>)
        ensures
            match p {
                Some(p) => frac < SCALE && p.units == whole * SCALE + frac,
                None => frac >= SCALE || whole * SCALE + frac > u64::MAX,
            },
    {
        if frac >= SCALE {
            return None;
        }
        match whole.checked_mul(SCALE) {
            Some(scaled) => match scaled.checked_add(frac) {
                Some(units) => Some(Price { units }),
                None => None,
            },
            None => None,
        }
    }

    /// The value of `quantity` shares at this price.
    pub fn notional(&self, quantity: u64) -> (m: Money)
        ensures
            m.units == spec_notional(*self, quantity),
    {
        proof {
            lemma_notional_fits(*self, quantity);
        }
        Money { units: (self.units as u128) * (quantity as u128) }
    }

    /// This price as a cash amount (the value of one share).
    pub fn to_money(&self) -> (m: Money)
        ensures
            m.units == self.units,
    {
        Money { units: self.units as u128 }
    }
}

impl Money {
    /// The amount zero.
    pub fn zero() -> (m: Money)
        ensures
            m.units == 0,
    {
        Money { units: 0 }
    }

    /// An amount of `units` ten-thousandths.
    pub fn from_units(units: u128) -> (m: Money)
        ensures
            m.units == units,
    {
        Money { units }
    }

    /// The amount `whole.frac`, where `frac` counts ten-thousandths; `None`
    /// when `frac` is not a proper fraction.
    pub fn from_parts(whole: u64, frac: u64) -> (m: Option<Money>)
        ensures
            match m {
                Some(m) => frac < SCALE && m.units == whole * SCALE + frac,
                None => frac >= SCALE,
            },
    {
        if frac >= SCALE {
            return None;
        }
        assert(whole * SCALE <= 0xffff_ffff_ffff_ffff * 10_000) by (nonlinear_arith)
            requires
                whole <= 0xffff_ffff_ffff_ffff,
                SCALE == 10_000,
        ;
        Some(Money { units: (whole as u128) * (SCALE as u128) + (frac as u128) })
    }

    /// The sum of two amounts, or `None` when it does not fit.
    pub fn checked_add(&self, other: Money) -> (r: Option<Money>)
        ensures
            match r {
                Some(m) => m.units == self.units + other.units,
                None => self.units + other.units > u128::MAX,
            },
    {
        match self.units.checked_add(other.units) {
            Some(units) => Some(Money { units }),
            None => None,
        }
    }

    /// The difference of two amounts, or `None` when `other` is larger.
    pub fn checked_sub(&self, other: Money) -> (r: Option<Money>)
        ensures
            match r {
                Some(m) => m.units == self.units - other.units,
                None => self.units < other.units,
            },
    {
        if self.units < other.units {
            None
        } else {
            Some(Money { units: self.units - other.units })
        }
    }
}

} // verus!
