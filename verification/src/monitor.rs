//! Spread monitoring: from the best prices of a spot book and a futures book,
//! the entry and exit premiums, and whether a change is worth publishing.
use crate::arbitrage::common::abs_val;
use crate::decimal::{
    abs, checked_div, checked_mul, checked_sub, decimal_checked_div, decimal_checked_mul,
    decimal_checked_sub, decimal_trunc_with_scale, lemma_pow10_positive, lt, trunc_with_scale, Dec,
};
use crate::arbitrage::common::lemma_abs_val;
use vstd::prelude::*;

verus! {

/// The last prices seen for one spot/future pair and the premiums derived
/// from them.
#[derive(Debug, Clone, Copy)]
pub struct ArbitrageSnapshot {
    pub entry_percent: Dec,
    pub exit_percent: Dec,
    pub spot_ask: Dec,
    pub spot_bid: Dec,
    pub future_ask: Dec,
    pub future_bid: Dec,
}

impl ArbitrageSnapshot {
    pub open spec fn zeroed(self) -> bool {
        &&& self.entry_percent.val() == 0
        &&& self.exit_percent.val() == 0
        &&& self.spot_ask.val() == 0
        &&& self.spot_bid.val() == 0
        &&& self.future_ask.val() == 0
        &&& self.future_bid.val() == 0
    }

    /// All prices and premiums zero.
    pub fn zero() -> (r: ArbitrageSnapshot)
        ensures
            r.zeroed(),
    {
        ArbitrageSnapshot {
            entry_percent: Dec::zero(),
            exit_percent: Dec::zero(),
            spot_ask: Dec::zero(),
            spot_bid: Dec::zero(),
            future_ask: Dec::zero(),
            future_bid: Dec::zero(),
        }
    }
}

/// `(to - from) / from * 100`, truncated to two places; zero when `from` is zero.
pub open spec fn premium_spec(from: Dec, to: Dec) -> Option<Dec> {
    if from.val() == 0 {
        Some(Dec::parts(0, 0))
    } else {
        match decimal_checked_sub(to, from) {
            None => None,
            Some(d) => match decimal_checked_div(d, from) {
                None => None,
                Some(q) => match decimal_checked_mul(q, Dec::parts(100, 0)) {
                    None => None,
                    Some(p) => Some(p),
                },
            },
        }
    }
}

/// The premium of `to` over `from` in percent before truncation, or zero.
fn premium(from: &Dec, to: &Dec) -> (r: Option<Dec>)
    ensures
        r == premium_spec(*from, *to),
{
    if from.is_zero() {
        return Some(Dec::zero());
    }
    let d = match checked_sub(to, from) {
        Some(v) => v,
        None => return None,
    };
    let q = match checked_div(&d, from) {
        Some(v) => v,
        None => return None,
    };
    let h = Dec::new(100, 0);
    checked_mul(&q, &h)
}

/// What a new pair of best prices does to a snapshot.
#[derive(Debug, Clone, Copy)]
pub struct MonitorUpdate {
    pub snapshot: ArbitrageSnapshot,
    /// Publish the pair.
    pub notify: bool,
}

/// `|a - b| > bound`, where `a - b` is computed as decimals.
pub open spec fn moved_more_than(a: Dec, b: Dec, bound: Dec) -> Option<bool> {
    match decimal_checked_sub(a, b) {
        None => None,
        Some(d) => Some(abs_val(d) > bound.val()),
    }
}

fn moved(a: &Dec, b: &Dec, bound: &Dec) -> (r: Option<bool>)
    ensures
        r == moved_more_than(*a, *b, *bound),
{
    let d = match checked_sub(a, b) {
        Some(v) => v,
        None => return None,
    };
    let m = abs(&d);
    proof {
        lemma_abs_val(d, m);
    }
    Some(lt(bound, &m))
}

/// The prices of the pair after a new best ask and bid of one of its books.
pub open spec fn pair_prices(snapshot: ArbitrageSnapshot, is_future: bool, ask: Dec, bid: Dec) -> (Dec, Dec, Dec, Dec) {
    if is_future {
        (snapshot.spot_ask, snapshot.spot_bid, ask, bid)
    } else {
        (ask, bid, snapshot.future_ask, snapshot.future_bid)
    }
}

/// What `monitor_update` returns.
pub open spec fn monitor_spec(snapshot: ArbitrageSnapshot, is_future: bool, ask: Dec, bid: Dec) -> Option<MonitorUpdate> {
    let (spot_ask, spot_bid, future_ask, future_bid) = pair_prices(snapshot, is_future, ask, bid);
    let step = Dec::parts(5, 2);
    let max = Dec::parts(50, 0);
    match premium_spec(spot_ask, future_bid) {
        None => None,
        Some(entry_raw) => match premium_spec(future_ask, spot_bid) {
            None => None,
            Some(exit_raw) => {
                let entry_percent = decimal_trunc_with_scale(entry_raw, 2);
                let exit_percent = decimal_trunc_with_scale(exit_raw, 2);
                match moved_more_than(entry_percent, snapshot.entry_percent, step) {
                    None => None,
                    Some(entry_moved) => match moved_more_than(exit_percent, snapshot.exit_percent, step) {
                        None => None,
                        Some(exit_moved) => Some(
                            MonitorUpdate {
                                snapshot: ArbitrageSnapshot {
                                    entry_percent,
                                    exit_percent,
                                    spot_ask,
                                    spot_bid,
                                    future_ask,
                                    future_bid,
                                },
                                notify: (entry_moved || exit_moved) && spot_ask.val() > 0
                                    && spot_bid.val() > 0 && future_ask.val() > 0 && future_bid.val() > 0
                                    && abs_val(entry_percent) < max.val() && abs_val(exit_percent) < max.val(),
                            },
                        ),
                    },
                }
            },
        },
    }
}

/// Takes a new best ask and best bid of one book of the pair (the futures book
/// when `is_future`, else the spot book), recomputes both premiums truncated to
/// two places, and says whether to publish: only when a premium moved by more
/// than 0.05 points, all four prices are positive, and both premiums are below
/// 50 in magnitude. `None` where a decimal operation would panic.
pub fn monitor_update(snapshot: &ArbitrageSnapshot, is_future: bool, ask: Dec, bid: Dec) -> (r: Option<
    MonitorUpdate,
>)
    ensures
        r == monitor_spec(*snapshot, is_future, ask, bid),
        r matches Some(u) ==> u.snapshot.entry_percent.scl() <= 2 && u.snapshot.exit_percent.scl() <= 2,
{
    let (spot_ask, spot_bid, future_ask, future_bid) = if is_future {
        (snapshot.spot_ask, snapshot.spot_bid, ask, bid)
    } else {
        (ask, bid, snapshot.future_ask, snapshot.future_bid)
    };
    let entry_raw = match premium(&spot_ask, &future_bid) {
        Some(v) => v,
        None => return None,
    };
    let exit_raw = match premium(&future_ask, &spot_bid) {
        Some(v) => v,
        None => return None,
    };
    let entry_percent = trunc_with_scale(&entry_raw, 2);
    let exit_percent = trunc_with_scale(&exit_raw, 2);
    let step = Dec::new(5, 2);
    let max = Dec::new(50, 0);
    let entry_moved = match moved(&entry_percent, &snapshot.entry_percent, &step) {
        Some(v) => v,
        None => return None,
    };
    let exit_moved = match moved(&exit_percent, &snapshot.exit_percent, &step) {
        Some(v) => v,
        None => return None,
    };
    let zero = Dec::zero();
    let not_first = lt(&zero, &spot_ask) && lt(&zero, &spot_bid) && lt(&zero, &future_ask) && lt(
        &zero,
        &future_bid,
    );
    let ea = abs(&entry_percent);
    let xa = abs(&exit_percent);
    proof {
        lemma_abs_val(entry_percent, ea);
        lemma_abs_val(exit_percent, xa);
    }
    let valid = lt(&ea, &max) && lt(&xa, &max);
    Some(
        MonitorUpdate {
            snapshot: ArbitrageSnapshot {
                entry_percent,
                exit_percent,
                spot_ask,
                spot_bid,
                future_ask,
                future_bid,
            },
            notify: (entry_moved || exit_moved) && not_first && valid,
        },
    )
}

/// A pair is only published when all four of its prices are positive and both
/// premiums are below 50 points in magnitude.
pub proof fn law_published_pairs_are_live(snapshot: ArbitrageSnapshot, is_future: bool, ask: Dec, bid: Dec)
    ensures
        monitor_spec(snapshot, is_future, ask, bid) matches Some(u) ==> (u.notify ==> {
            &&& u.snapshot.spot_ask.val() > 0
            &&& u.snapshot.spot_bid.val() > 0
            &&& u.snapshot.future_ask.val() > 0
            &&& u.snapshot.future_bid.val() > 0
            &&& abs_val(u.snapshot.entry_percent) < Dec::parts(50, 0).val()
            &&& abs_val(u.snapshot.exit_percent) < Dec::parts(50, 0).val()
        }),
{
}

/// The prices of the book that the new prices did not come from are kept.
pub proof fn law_other_book_prices_kept(snapshot: ArbitrageSnapshot, is_future: bool, ask: Dec, bid: Dec)
    ensures
        monitor_spec(snapshot, is_future, ask, bid) matches Some(u) ==> if is_future {
            u.snapshot.spot_ask == snapshot.spot_ask && u.snapshot.spot_bid == snapshot.spot_bid
                && u.snapshot.future_ask == ask && u.snapshot.future_bid == bid
        } else {
            u.snapshot.future_ask == snapshot.future_ask && u.snapshot.future_bid == snapshot.future_bid
                && u.snapshot.spot_ask == ask && u.snapshot.spot_bid == bid
        },
{
}

proof fn lemma_unmoved(a: Dec, step: Dec)
    requires
        step.val() >= 0,
    ensures
        moved_more_than(a, a, step) == Some(false),
{
    Dec::lemma_zero_parts(a.scl());
    assert(-a.mant() == 0 ==> Dec::parts(-a.mant(), a.scl()) == Dec::parts(0, a.scl()));
}

/// Prices that did not change publish nothing: taking the same best ask and
/// bid of the same book again yields the same premiums, so no premium moves.
pub proof fn law_unchanged_prices_not_republished(snapshot: ArbitrageSnapshot, is_future: bool, ask: Dec, bid: Dec)
    ensures
        monitor_spec(snapshot, is_future, ask, bid) matches Some(u) ==> (monitor_spec(
            u.snapshot,
            is_future,
            ask,
            bid,
        ) matches Some(v) && !v.notify && v.snapshot == u.snapshot),
{
    if let Some(u) = monitor_spec(snapshot, is_future, ask, bid) {
        Dec::lemma_parts(5, 2);
        lemma_pow10_positive(26);
        lemma_unmoved(u.snapshot.entry_percent, Dec::parts(5, 2));
        lemma_unmoved(u.snapshot.exit_percent, Dec::parts(5, 2));
    }
}

/// A premium moved: the decimal difference of the new and the old premium is
/// more than 0.05 points in magnitude.
pub open spec fn premium_moved(new: Dec, old: Dec) -> bool {
    decimal_checked_sub(new, old) matches Some(d) && abs_val(d) > Dec::parts(5, 2).val()
}

/// A pair is published exactly when at least one of its two premiums moved by
/// more than 0.05 points since the snapshot, all four prices are positive, and
/// both premiums are below 50 points in magnitude.
pub proof fn law_published_iff_a_premium_moved(snapshot: ArbitrageSnapshot, is_future: bool, ask: Dec, bid: Dec)
    ensures
        monitor_spec(snapshot, is_future, ask, bid) matches Some(u) ==> (u.notify <==> {
            &&& premium_moved(u.snapshot.entry_percent, snapshot.entry_percent)
                || premium_moved(u.snapshot.exit_percent, snapshot.exit_percent)
            &&& u.snapshot.spot_ask.val() > 0
            &&& u.snapshot.spot_bid.val() > 0
            &&& u.snapshot.future_ask.val() > 0
            &&& u.snapshot.future_bid.val() > 0
            &&& abs_val(u.snapshot.entry_percent) < Dec::parts(50, 0).val()
            &&& abs_val(u.snapshot.exit_percent) < Dec::parts(50, 0).val()
        }),
{
}

} // verus!
