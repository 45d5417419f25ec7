//! A non-negative rate (a ratio) held as a Q128.128 fixed point decimal.
use vstd::arithmetic::div_mod::{
    lemma_div_by_multiple, lemma_div_denominator, lemma_div_is_ordered, lemma_multiply_divide_le,
    lemma_multiply_divide_lt,
};
use vstd::arithmetic::mul::{lemma_mul_inequality, lemma_mul_is_associative, lemma_mul_is_commutative};
use vstd::prelude::*;

use crate::num::{fixed_div, fixed_mul, w128, w256, FixedU256};

verus! {

/// The raw Q128.128 value of `numer / denom` rounded down, `None` when dividing a non-zero by zero.
pub open spec fn ratio_raw(numer: nat, denom: nat) -> Option<nat> {
    if numer == 0 {
        Some(0)
    } else if denom == 0 {
        None
    } else {
        Some(numer * w128() / denom)
    }
}

/// A rate with raw value `raw` applied to `x`: `floor(raw * x / 2^128)`, `None` when `raw * x` needs more than 256 bits.
pub open spec fn apply_raw(raw: nat, x: nat) -> Option<nat> {
    if raw * x < w256() {
        Some(raw * x / w128())
    } else {
        None
    }
}

/// A ratio of at most one has a raw value of at most 2^128.
pub proof fn lemma_ratio_le_one(numer: nat, denom: nat)
    requires
        numer <= denom,
        denom > 0,
    ensures
        numer * w128() / denom <= w128(),
{
    lemma_mul_inequality(numer as int, denom as int, w128() as int);
    lemma_mul_is_commutative(denom as int, w128() as int);
    lemma_multiply_divide_le((numer * w128()) as int, denom as int, w128() as int);
}

/// Applying a rate of at most one to a `u128` never overflows and never exceeds the amount.
pub proof fn lemma_apply_at_most_one(raw: nat, x: nat)
    requires
        raw <= w128(),
        x < w128(),
    ensures
        raw * x < w256(),
        raw * x / w128() <= x,
{
    lemma_mul_inequality(raw as int, w128() as int, x as int);
    assert(w128() * x < w256()) by (nonlinear_arith)
        requires
            x < w128(),
            w256() == w128() * w128(),
    ;
    lemma_mul_is_commutative(w128() as int, x as int);
    lemma_multiply_divide_le((raw * x) as int, w128() as int, x as int);
}

/// A ratio below one applied to an amount gives less than the amount, for a non-zero amount.
pub proof fn lemma_apply_ratio_le(numer: nat, denom: nat, x: nat)
    requires
        numer <= denom,
        denom > 0,
        x < w128(),
    ensures
        apply_raw(numer * w128() / denom, x) matches Some(v) && v <= x,
{
    lemma_ratio_le_one(numer, denom);
    lemma_apply_at_most_one(numer * w128() / denom, x);
}

/// `numer / denom` as a fixed point decimal, rounded down; `None` when dividing a non-zero `numer` by zero.
pub fn fixed_ratio(numer: u128, denom: u128) -> (r: Option<FixedU256>)
    ensures
        r matches Some(f) ==> ratio_raw(numer as nat, denom as nat) == Some(f.raw_value()),
        r is None ==> ratio_raw(numer as nat, denom as nat) is None,
{
    let n = FixedU256::from_u128(numer);
    let d = FixedU256::from_u128(denom);
    let q = n.checked_div(d);
    proof {
        if numer != 0 && denom != 0 {
            lemma_fixed_ratio(numer as nat, denom as nat);
        }
    }
    q
}

/// `fixed_div` of two integers promoted to fixed point is their ratio, which fits 256 bits.
pub proof fn lemma_fixed_ratio(numer: nat, denom: nat)
    requires
        numer > 0,
        denom > 0,
        numer <= u128::MAX,
    ensures
        fixed_div(numer * w128(), denom * w128()) == Some(numer * w128() / denom),
{
    let a = numer * w128();
    lemma_mul_is_commutative(denom as int, w128() as int);
    lemma_div_denominator((a * w128()) as int, w128() as int, denom as int);
    lemma_mul_is_commutative(a as int, w128() as int);
    lemma_div_by_multiple(a as int, w128() as int);
    assert(a < w256()) by (nonlinear_arith)
        requires
            numer <= u128::MAX,
            a == numer * w128(),
            w128() == u128::MAX + 1,
            w256() == w128() * w128(),
    ;
    assert(a <= denom * a) by (nonlinear_arith)
        requires
            denom >= 1,
    ;
    lemma_multiply_divide_le(a as int, denom as int, a as int);
}

/// A fixed point value applied to `x`, rounded down (`floor(f * x)`); `None` when the raw product needs more than 256 bits.
pub fn fixed_apply(f: FixedU256, x: u128) -> (r: Option<u128>)
    ensures
        r matches Some(v) ==> apply_raw(f.raw_value(), x as nat) == Some(v as nat),
        r is None ==> apply_raw(f.raw_value(), x as nat) is None,
{
    let fx = FixedU256::from_u128(x);
    let p = f.checked_mul(fx);
    proof {
        let raw = f.raw_value();
        let b: nat = (x as nat) * w128();
        if raw != 0 && x != 0 {
            lemma_mul_is_associative(raw as int, x as int, w128() as int);
            lemma_div_by_multiple((raw * x) as int, w128() as int);
            assert(raw * b / w128() == raw * (x as nat));
        }
    }
    match p {
        Some(v) => {
            let fl = v.floor();
            proof {
                if f.raw_value() * x < w256() {
                    lemma_multiply_divide_lt((f.raw_value() * x) as int, w128() as int, w128() as int);
                    assert(w128() * w128() == w256());
                }
            }
            Some(fl)
        },
        None => None,
    }
}

/// A non-negative ratio, stored as a fixed point decimal.
#[derive(Debug, Clone, Copy)]
pub struct Rate(FixedU256);

impl Rate {
    /// The raw Q128.128 value of the rate.
    pub closed spec fn raw(self) -> nat {
        self.0.raw_value()
    }

    /// The rate 1.0 (100%).
    pub fn one() -> (r: Self)
        ensures
            r.raw() == w128(),
    {
        proof {
            assert(1 * w128() == w128());
        }
        Self(FixedU256::from_u128(1))
    }

    /// The rate `numer / denom`, `None` when dividing a non-zero `numer` by zero.
    pub fn from_ratio(numer: u128, denom: u128) -> (r: Option<Self>)
        ensures
            r matches Some(rate) ==> ratio_raw(numer as nat, denom as nat) == Some(rate.raw()),
            r is None ==> ratio_raw(numer as nat, denom as nat) is None,
    {
        match fixed_ratio(numer, denom) {
            Some(v) => Some(Self(v)),
            None => None,
        }
    }

    /// Applies the rate to `x`, rounding down, `None` on overflow.
    pub fn apply_u128(self, x: u128) -> (r: Option<u128>)
        ensures
            r matches Some(v) ==> apply_raw(self.raw(), x as nat) == Some(v as nat),
            r is None ==> apply_raw(self.raw(), x as nat) is None,
    {
        fixed_apply(self.0, x)
    }

    /// Numeric order: `self > other`.
    pub fn gt(self, other: Self) -> (r: bool)
        ensures
            r == (self.raw() > other.raw()),
    {
        other.0.lt(self.0)
    }
}

} // verus!
