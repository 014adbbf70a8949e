//! Shared pieces of the entry and exit matchers: requests, fills, residual
//! cleaning and the tolerance check.
use crate::decimal::{
    abs, checked_add, checked_div, checked_mul, checked_sub, decimal_checked_add, decimal_checked_div,
    decimal_checked_mul, decimal_checked_sub, lemma_mul_zero_iff, lemma_pow10_positive, lt, pow10, Dec,
    MAX_SCALE,
};
use vstd::prelude::*;

verus! {

/// Which way an arbitrage goes: opening (buy spot, sell future) or closing.
#[derive(Debug, Clone, Copy, PartialEq, Eq, Structural)]
pub enum ArbitrageDirection {
    Entry,
    Exit,
}

/// One matched step of the greedy matcher: a quantity taken at one spot level
/// and one future level.
#[derive(Debug, Clone, Copy)]
pub struct Fill {
    pub spot_price: Dec,
    pub future_price: Dec,
    pub quantity: Dec,
}

/// Request to open a position: spend `amount` buying spot and selling futures
/// while the futures premium stays at or above `percent`.
#[derive(Debug, Clone)]
pub struct EntryRequest {
    /// Spot asks as (price, quantity), best first.
    pub spot_orders: Vec<(Dec, Dec)>,
    /// Future bids as (price, contracts), best first.
    pub future_orders: Vec<(Dec, Dec)>,
    pub amount: Dec,
    pub margin_quantity_percent: Dec,
    pub percent: Dec,
    pub contract_size: Dec,
}

/// Request to close a position of `executed` units while the spot premium over
/// the future stays at or above `percent`.
#[derive(Debug, Clone)]
pub struct ExitRequest {
    /// Spot bids as (price, quantity), best first.
    pub spot_orders: Vec<(Dec, Dec)>,
    /// Future asks as (price, contracts), best first.
    pub future_orders: Vec<(Dec, Dec)>,
    pub executed: Dec,
    pub percent: Dec,
    pub contract_size: Dec,
}

pub enum ArbitrageRequest {
    Entry(EntryRequest),
    Exit(ExitRequest),
}

/// Why a matcher gave no result: a decimal operation that would have panicked
/// (overflow or division by zero), or a run that did not settle within the
/// step budget.
#[derive(Debug, Clone, Copy, PartialEq, Eq, Structural)]
pub enum ArbitrageError {
    Arithmetic,
    StepLimit,
}

/// What one step of a matcher does: stop, fail on a decimal operation, or move on.
pub enum MatchStep<S> {
    Stop,
    Fail,
    Next(S),
}

/// What an executed matcher step did.
pub(crate) enum StepKind {
    Stop,
    Fail,
    Next,
}

/// Step budget of the matchers.
pub const MAX_STEPS: u64 = 0xFFFF_FFFF_FFFF_FFFF;

/// `|v|` as a scaled integer.
pub open spec fn abs_val(v: Dec) -> int {
    if v.val() < 0 {
        -v.val()
    } else {
        v.val()
    }
}

/// `value`, or zero when its magnitude is below `epsilon`.
pub open spec fn clean_spec(value: Dec, epsilon: Dec) -> Dec {
    if abs_val(value) < epsilon.val() {
        Dec::parts(0, 0)
    } else {
        value
    }
}

/// What `Decimal::min` returns.
pub open spec fn min_spec(a: Dec, b: Dec) -> Dec {
    if a.val() > b.val() {
        b
    } else {
        a
    }
}

pub open spec fn hundred() -> Dec {
    Dec::parts(100, 0)
}

pub open spec fn eps() -> Dec {
    Dec::parts(1, 12)
}

/// Whether `target` lies outside `[base - base*percent/100, base + base*percent/100]`;
/// `None` where one of the decimal operations fails.
pub open spec fn outside_spec(base: Dec, target: Dec, percent: Dec) -> Option<bool> {
    match decimal_checked_mul(base, percent) {
        None => None,
        Some(bp) => match decimal_checked_div(bp, hundred()) {
            None => None,
            Some(tolerance) => match decimal_checked_sub(base, tolerance) {
                None => None,
                Some(lower) => match decimal_checked_add(base, tolerance) {
                    None => None,
                    Some(upper) => Some(target.val() < lower.val() || target.val() > upper.val()),
                },
            },
        },
    }
}

pub proof fn lemma_abs_val(v: Dec, a: Dec)
    requires
        a.mant() == (if v.mant() < 0 { -v.mant() } else { v.mant() }),
        a.scl() == v.scl(),
    ensures
        a.val() == abs_val(v),
{
    let p = pow10((MAX_SCALE - v.scl()) as nat);
    lemma_pow10_positive((MAX_SCALE - v.scl()) as nat);
    lemma_mul_zero_iff(v.mant(), p);
    assert((-v.mant()) * p == -(v.mant() * p)) by (nonlinear_arith);
}

/// Zeroes `value` when its magnitude is below `epsilon`.
pub fn clean_residual(value: Dec, epsilon: Dec) -> (r: Dec)
    ensures
        r == clean_spec(value, epsilon),
{
    let a = abs(&value);
    proof {
        lemma_abs_val(value, a);
    }
    if lt(&a, &epsilon) {
        Dec::zero()
    } else {
        value
    }
}

/// Whether `target` is outside the tolerance band of `percent` percent around
/// `base`; `None` where the computation overflows.
pub fn is_outside_tolerance(base: Dec, target: Dec, percent: Dec) -> (r: Option<bool>)
    ensures
        r == outside_spec(base, target, percent),
{
    let h = Dec::new(100, 0);
    let bp = match checked_mul(&base, &percent) {
        Some(v) => v,
        None => return None,
    };
    let tolerance = match checked_div(&bp, &h) {
        Some(v) => v,
        None => return None,
    };
    let lower = match checked_sub(&base, &tolerance) {
        Some(v) => v,
        None => return None,
    };
    let upper = match checked_add(&base, &tolerance) {
        Some(v) => v,
        None => return None,
    };
    Some(lt(&target, &lower) || lt(&upper, &target))
}

} // verus!
