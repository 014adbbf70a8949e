//! Properties of the matchers that hold for every request.
use crate::arbitrage::common::{
    clean_spec, eps, ArbitrageError, EntryRequest, ExitRequest, Fill, MatchStep, MAX_STEPS,
};
use crate::arbitrage::entry::{
    entry_diff, entry_init, entry_loop, entry_spec, entry_state_wf, entry_step, EntryState, EntrySummary,
};
use crate::arbitrage::exit::{exit_diff, exit_init, exit_loop, exit_spec, exit_state_wf, exit_step, ExitState};
use crate::arbitrage::common::hundred;
use crate::decimal::{
    decimal_checked_add, decimal_checked_div, decimal_checked_mul, decimal_checked_sub, lemma_pow10_positive,
    pow10, Dec,
};
use vstd::prelude::*;

verus! {

/// A fill of the entry matcher taken at a listed spot price and a listed future
/// price, at a premium of at least `percent`, for a quantity that is not dust.
pub open spec fn entry_fill_ok(req: EntryRequest, f: Fill) -> bool {
    &&& exists|a: int| 0 <= a < req.spot_orders@.len() && #[trigger] req.spot_orders@[a].0 == f.spot_price
    &&& exists|b: int| 0 <= b < req.future_orders@.len() && #[trigger] req.future_orders@[b].0 == f.future_price
    &&& entry_diff(f.spot_price, f.future_price) matches Some(d) && d.val() >= req.percent.val()
        && clean_spec(d, eps()).val() != 0
    &&& clean_spec(f.quantity, eps()).val() != 0
}

pub open spec fn entry_fills_ok(req: EntryRequest, fills: Seq<Fill>) -> bool {
    forall|k: int| 0 <= k < fills.len() ==> entry_fill_ok(req, #[trigger] fills[k])
}

proof fn lemma_entry_step_keeps_fills(req: EntryRequest, s: EntryState)
    requires
        entry_state_wf(req, s),
        entry_fills_ok(req, s.fills),
    ensures
        entry_step(req, s) matches MatchStep::Next(s2) ==> entry_state_wf(req, s2) && entry_fills_ok(req, s2.fills),
{
    if let MatchStep::Next(s2) = entry_step(req, s) {
        let f = s2.fills.last();
        assert(s2.fills == s.fills.push(f));
        assert(req.spot_orders@[s.i as int].0 == f.spot_price);
        assert(req.future_orders@[s.j as int].0 == f.future_price);
        assert forall|k: int| 0 <= k < s2.fills.len() implies entry_fill_ok(req, #[trigger] s2.fills[k]) by {
            if k < s.fills.len() {
                assert(s2.fills[k] == s.fills[k]);
            }
        }
    }
}

proof fn lemma_entry_loop_keeps_fills(req: EntryRequest, s: EntryState, fuel: nat)
    requires
        entry_state_wf(req, s),
        entry_fills_ok(req, s.fills),
    ensures
        entry_loop(req, s, fuel) matches Ok(t) ==> entry_fills_ok(req, t.fills),
    decreases fuel,
{
    lemma_entry_step_keeps_fills(req, s);
    if let MatchStep::Next(s2) = entry_step(req, s) {
        if fuel > 0 {
            lemma_entry_loop_keeps_fills(req, s2, (fuel - 1) as nat);
        }
    }
}

/// Every fill of the entry matcher is taken at a price listed in the spot book and
/// one listed in the future book, at a futures premium of at least the requested
/// percent (and not dust), for a quantity that is not dust.
pub proof fn law_entry_fills_respect_books_and_threshold(req: EntryRequest)
    ensures
        entry_spec(req) matches Ok(t) ==> entry_fills_ok(req, t.fills),
{
    lemma_entry_loop_keeps_fills(req, entry_init(req), MAX_STEPS as nat);
}

/// A fill of the exit matcher taken at a listed spot price and a listed future
/// price, at a spot premium of at least `percent`.
pub open spec fn exit_fill_ok(req: ExitRequest, f: Fill) -> bool {
    &&& exists|a: int| 0 <= a < req.spot_orders@.len() && #[trigger] req.spot_orders@[a].0 == f.spot_price
    &&& exists|b: int| 0 <= b < req.future_orders@.len() && #[trigger] req.future_orders@[b].0 == f.future_price
    &&& exit_diff(f.spot_price, f.future_price) matches Some(d) && d.val() >= req.percent.val()
}

pub open spec fn exit_fills_ok(req: ExitRequest, fills: Seq<Fill>) -> bool {
    forall|k: int| 0 <= k < fills.len() ==> exit_fill_ok(req, #[trigger] fills[k])
}

proof fn lemma_exit_step_keeps_fills(req: ExitRequest, s: ExitState)
    requires
        exit_state_wf(req, s),
        exit_fills_ok(req, s.fills),
    ensures
        exit_step(req, s) matches MatchStep::Next(s2) ==> exit_state_wf(req, s2) && exit_fills_ok(req, s2.fills),
{
    if let MatchStep::Next(s2) = exit_step(req, s) {
        let f = s2.fills.last();
        assert(s2.fills == s.fills.push(f));
        assert(req.spot_orders@[s.i as int].0 == f.spot_price);
        assert(req.future_orders@[s.j as int].0 == f.future_price);
        assert forall|k: int| 0 <= k < s2.fills.len() implies exit_fill_ok(req, #[trigger] s2.fills[k]) by {
            if k < s.fills.len() {
                assert(s2.fills[k] == s.fills[k]);
            }
        }
    }
}

proof fn lemma_exit_loop_keeps_fills(req: ExitRequest, s: ExitState, fuel: nat)
    requires
        exit_state_wf(req, s),
        exit_fills_ok(req, s.fills),
    ensures
        exit_loop(req, s, fuel) matches Ok(t) ==> exit_fills_ok(req, t.fills),
    decreases fuel,
{
    lemma_exit_step_keeps_fills(req, s);
    if let MatchStep::Next(s2) = exit_step(req, s) {
        if fuel > 0 {
            lemma_exit_loop_keeps_fills(req, s2, (fuel - 1) as nat);
        }
    }
}

/// Every fill of the exit matcher is taken at a price listed in the spot book and
/// one listed in the future book, at a spot premium of at least the requested
/// percent.
pub proof fn law_exit_fills_respect_books_and_threshold(req: ExitRequest)
    ensures
        exit_spec(req) matches Ok(t) ==> exit_fills_ok(req, t.fills),
{
    lemma_exit_loop_keeps_fills(req, exit_init(req), MAX_STEPS as nat);
}

proof fn lemma_zero_is_dust()
    ensures
        Dec::parts(0, 0).val() == 0,
        clean_spec(Dec::parts(0, 0), eps()) == Dec::parts(0, 0),
        eps().val() > 0,
{
    Dec::lemma_parts(0, 0);
    Dec::lemma_parts(1, 12);
    lemma_pow10_positive(16);
    lemma_pow10_positive(28);
    assert(eps().val() == pow10(16));
}

/// Whatever the books hold, an entry that executes no quantity (up to the dust
/// threshold) reports no fills, no completion and a zero profit.
pub proof fn law_entry_nothing_executed_is_empty(req: EntryRequest)
    ensures
        entry_spec(req) matches Ok(t) ==> (clean_spec(t.executed, eps()).val() == 0 ==> t.fills.len()
            == 0 && !t.completed && t.profit_percent == Dec::parts(0, 0)),
{
    lemma_zero_is_dust();
}

/// With an empty spot book or an empty future book the entry matcher trades
/// nothing: its result is the empty one.
pub proof fn law_entry_empty_book_no_trade(req: EntryRequest)
    requires
        req.spot_orders@.len() == 0 || req.future_orders@.len() == 0,
    ensures
        entry_spec(req) == Ok::<EntrySummary, ArbitrageError>(
            EntrySummary {
                fills: Seq::empty(),
                executed: Dec::parts(0, 0),
                completed: false,
                profit_percent: Dec::parts(0, 0),
            },
        ),
{
    lemma_zero_is_dust();
    Dec::lemma_parts(0, 0);
    let s = entry_init(req);
    assert(entry_step(req, s) is Stop);
    assert(entry_loop(req, s, MAX_STEPS as nat) == Ok::<EntryState, ArbitrageError>(s));
}

/// When the best future bid is not above the best spot ask by the requested
/// percent (or only by dust), the entry matcher trades nothing: its result is
/// the empty one.
pub proof fn law_entry_no_opportunity_no_trade(req: EntryRequest)
    requires
        req.spot_orders@.len() > 0,
        req.future_orders@.len() > 0,
        decimal_checked_mul(req.future_orders@[0].1, req.contract_size) is Some,
        entry_diff(req.spot_orders@[0].0, req.future_orders@[0].0) matches Some(d) && (d.val()
            < req.percent.val() || clean_spec(d, eps()).val() == 0),
    ensures
        entry_spec(req) == Ok::<EntrySummary, ArbitrageError>(
            EntrySummary {
                fills: Seq::empty(),
                executed: Dec::parts(0, 0),
                completed: false,
                profit_percent: Dec::parts(0, 0),
            },
        ),
{
    lemma_zero_is_dust();
    Dec::lemma_parts(0, 0);
    let s = entry_init(req);
    assert(s.future_rem[0] == req.future_orders@[0].1);
    assert(entry_step(req, s) is Stop);
    assert(entry_loop(req, s, MAX_STEPS as nat) == Ok::<EntryState, ArbitrageError>(s));
}

/// With an empty spot book or an empty future book the exit matcher trades
/// nothing: the whole position stays open.
pub proof fn law_exit_empty_book_no_trade(req: ExitRequest)
    requires
        req.spot_orders@.len() == 0 || req.future_orders@.len() == 0,
    ensures
        exit_spec(req) matches Ok(t) && t.fills.len() == 0 && t.remaining == req.executed,
{
    let s = exit_init(req);
    assert(exit_step(req, s) is Stop);
    assert(exit_loop(req, s, MAX_STEPS as nat) == Ok::<ExitState, ArbitrageError>(s));
}

/// The exit is complete exactly when the position left open is dust.
pub proof fn law_exit_completed_iff_closed(req: ExitRequest)
    ensures
        exit_spec(req) matches Ok(t) ==> (t.completed <==> clean_spec(t.remaining, eps()).val() == 0),
{
}

/// The spot spend of fills: the sum of spot price times quantity, added up in
/// order in decimal arithmetic; `None` where an operation overflows.
pub open spec fn spot_spend(fills: Seq<Fill>) -> Option<Dec>
    decreases fills.len(),
{
    if fills.len() == 0 {
        Some(Dec::parts(0, 0))
    } else {
        match spot_spend(fills.drop_last()) {
            None => None,
            Some(t) => match decimal_checked_mul(fills.last().spot_price, fills.last().quantity) {
                None => None,
                Some(c) => decimal_checked_add(t, c),
            },
        }
    }
}

/// The futures notional of fills: the sum of future price times quantity,
/// added up in order in decimal arithmetic.
pub open spec fn future_notional(fills: Seq<Fill>) -> Option<Dec>
    decreases fills.len(),
{
    if fills.len() == 0 {
        Some(Dec::parts(0, 0))
    } else {
        match future_notional(fills.drop_last()) {
            None => None,
            Some(t) => match decimal_checked_mul(fills.last().future_price, fills.last().quantity) {
                None => None,
                Some(c) => decimal_checked_add(t, c),
            },
        }
    }
}

/// `target` lies within `base - base*percent/100 ..= base + base*percent/100`.
pub open spec fn within_band(base: Dec, target: Dec, percent: Dec) -> bool {
    &&& decimal_checked_mul(base, percent) matches Some(bp)
    &&& decimal_checked_div(bp, hundred()) matches Some(tolerance)
    &&& decimal_checked_sub(base, tolerance) matches Some(lower)
    &&& decimal_checked_add(base, tolerance) matches Some(upper)
    &&& lower.val() <= target.val() && target.val() <= upper.val()
}

pub open spec fn entry_totals_ok(req: EntryRequest, s: EntryState) -> bool {
    &&& spot_spend(s.fills) == Some(s.total_spot)
    &&& future_notional(s.fills) == Some(s.total_future)
    &&& s.fills.len() > 0 ==> (s.completed <==> within_band(
        req.amount,
        s.total_spot,
        req.margin_quantity_percent,
    ) && within_band(req.amount, s.total_future, req.margin_quantity_percent))
}

proof fn lemma_entry_step_totals(req: EntryRequest, s: EntryState)
    requires
        entry_totals_ok(req, s),
    ensures
        entry_step(req, s) matches MatchStep::Next(s2) ==> entry_totals_ok(req, s2),
{
    if let MatchStep::Next(s2) = entry_step(req, s) {
        let f = s2.fills.last();
        assert(s2.fills.drop_last() =~= s.fills);
    }
}

proof fn lemma_entry_loop_totals(req: EntryRequest, s: EntryState, fuel: nat)
    requires
        entry_totals_ok(req, s),
    ensures
        entry_loop(req, s, fuel) matches Ok(t) ==> entry_totals_ok(req, t),
    decreases fuel,
{
    lemma_entry_step_totals(req, s);
    if let MatchStep::Next(s2) = entry_step(req, s) {
        if fuel > 0 {
            lemma_entry_loop_totals(req, s2, (fuel - 1) as nat);
        }
    }
}

/// An entry that fills is complete exactly when both its spot spend and its
/// futures notional (each the sum over the fills of price times quantity) lie
/// within the margin around the amount.
pub proof fn law_entry_completed_iff_both_within_margin(req: EntryRequest)
    ensures
        entry_spec(req) matches Ok(t) ==> (t.fills.len() > 0 ==> {
            &&& spot_spend(t.fills) matches Some(spend)
            &&& future_notional(t.fills) matches Some(notional)
            &&& t.completed <==> within_band(req.amount, spend, req.margin_quantity_percent)
                && within_band(req.amount, notional, req.margin_quantity_percent)
        }),
{
    let s = entry_init(req);
    assert(entry_totals_ok(req, s));
    lemma_entry_loop_totals(req, s, MAX_STEPS as nat);
}

} // verus!
