//! What each fill of the matchers may take: never more than is left at its
//! spot level, at its future level, or of the money (entry) or position (exit).
use crate::arbitrage::common::{ArbitrageError, EntryRequest, ExitRequest, Fill, MatchStep, MAX_STEPS};
use crate::arbitrage::entry::{entry_init, entry_loop, entry_spec, entry_step, EntryState};
use crate::arbitrage::exit::{exit_init, exit_loop, exit_spec, exit_state_wf, exit_step, ExitState};
use crate::decimal::{decimal_checked_add, decimal_checked_div, decimal_checked_mul, decimal_checked_sub, Dec};
use vstd::prelude::*;

verus! {

/// The bounds an entry fill of quantity `q` keeps in the state it is taken
/// from: the spot left at the current spot level, the futures volume left at
/// the current future level (contracts times contract size), and what the
/// money left buys at the spot price.
pub open spec fn entry_fill_bounded(req: EntryRequest, s: EntryState, f: Fill) -> bool {
    &&& f.spot_price == req.spot_orders@[s.i as int].0
    &&& f.future_price == req.future_orders@[s.j as int].0
    &&& f.quantity.val() <= s.spot_rem[s.i as int].val()
    &&& decimal_checked_mul(s.future_rem[s.j as int], req.contract_size) matches Some(v)
        && f.quantity.val() <= v.val()
    &&& decimal_checked_div(s.available, f.spot_price) matches Some(m) && f.quantity.val() <= m.val()
}

/// What an entry fill uses up: its quantity leaves the current spot level and
/// the current future level (the other levels stay as they were), and its cost
/// (spot price times quantity) leaves the money.
pub open spec fn entry_fill_consumes(s: EntryState, s2: EntryState, f: Fill) -> bool {
    &&& decimal_checked_sub(s.spot_rem[s.i as int], f.quantity) matches Some(srem)
        && s2.spot_rem == s.spot_rem.update(s.i as int, srem)
    &&& decimal_checked_sub(s.future_rem[s.j as int], f.quantity) matches Some(frem)
        && s2.future_rem == s.future_rem.update(s.j as int, frem)
    &&& decimal_checked_mul(f.spot_price, f.quantity) matches Some(cost) && decimal_checked_sub(
        s.available,
        cost,
    ) == Some(s2.available)
}

/// Each step of the entry matcher adds one fill, and that fill takes no more
/// than the spot left at the current spot level, no more than the futures
/// volume left at the current future level, and no more than the money left
/// buys at the spot price.
pub proof fn law_entry_fill_within_levels_and_money(req: EntryRequest, s: EntryState)
    ensures
        entry_step(req, s) matches MatchStep::Next(s2) ==> s2.fills.len() == s.fills.len() + 1
            && s2.fills.take(s.fills.len() as int) == s.fills && entry_fill_bounded(
            req,
            s,
            s2.fills.last(),
        ) && entry_fill_consumes(s, s2, s2.fills.last()),
{
    if let MatchStep::Next(s2) = entry_step(req, s) {
        assert(s2.fills.take(s.fills.len() as int) =~= s.fills);
    }
}

proof fn lemma_entry_loop_keeps_prefix(req: EntryRequest, s: EntryState, fuel: nat)
    ensures
        entry_loop(req, s, fuel) matches Ok(t) ==> s.fills.len() <= t.fills.len() && t.fills.take(
            s.fills.len() as int,
        ) == s.fills,
    decreases fuel,
{
    law_entry_fill_within_levels_and_money(req, s);
    if let MatchStep::Next(s2) = entry_step(req, s) {
        if fuel > 0 {
            lemma_entry_loop_keeps_prefix(req, s2, (fuel - 1) as nat);
            if let Ok(t) = entry_loop(req, s2, (fuel - 1) as nat) {
                assert(t.fills.take(s.fills.len() as int) =~= t.fills.take(s2.fills.len() as int).take(
                    s.fills.len() as int,
                ));
            }
        }
    } else {
        if let Ok(t) = entry_loop(req, s, fuel) {
            assert(t == s);
            assert(t.fills.take(s.fills.len() as int) =~= s.fills);
        }
    }
}

/// The first fill of an entry takes no more than the best spot level holds, no
/// more than the best future level's contracts times the contract size, and no
/// more than the whole amount buys at the best spot price.
pub proof fn law_entry_first_fill_within_best_levels(req: EntryRequest)
    ensures
        entry_spec(req) matches Ok(t) ==> (t.fills.len() > 0 ==> {
            let f = t.fills[0];
            &&& f.spot_price == req.spot_orders@[0].0
            &&& f.future_price == req.future_orders@[0].0
            &&& f.quantity.val() <= req.spot_orders@[0].1.val()
            &&& decimal_checked_mul(req.future_orders@[0].1, req.contract_size) matches Some(v)
                && f.quantity.val() <= v.val()
            &&& decimal_checked_div(req.amount, req.spot_orders@[0].0) matches Some(m)
                && f.quantity.val() <= m.val()
        }),
{
    let s = entry_init(req);
    law_entry_fill_within_levels_and_money(req, s);
    if let Ok(t) = entry_spec(req) {
        if t.fills.len() > 0 {
            if let MatchStep::Next(s2) = entry_step(req, s) {
                lemma_entry_loop_keeps_prefix(req, s2, (MAX_STEPS - 1) as nat);
                let l = entry_loop(req, s2, (MAX_STEPS - 1) as nat);
                assert(entry_loop(req, s, MAX_STEPS as nat) == l);
                if let Ok(u) = l {
                    assert(u.fills.take(1)[0] == u.fills[0]);
                    assert(s2.fills[0] == s2.fills.last());
                }
            } else {
                assert(entry_loop(req, s, MAX_STEPS as nat) is Ok ==> entry_loop(req, s, MAX_STEPS as nat)
                    == Ok::<EntryState, ArbitrageError>(s));
            }
        }
    }
}

/// The bounds an exit fill keeps in the state it is taken from: the position
/// left, the spot left at the current spot level, and the futures volume left
/// at the current future level.
pub open spec fn exit_fill_bounded(req: ExitRequest, s: ExitState, f: Fill) -> bool {
    &&& f.spot_price == req.spot_orders@[s.i as int].0
    &&& f.future_price == req.future_orders@[s.j as int].0
    &&& f.quantity.val() <= s.available.val()
    &&& f.quantity.val() <= s.spot_rem[s.i as int].val()
    &&& decimal_checked_mul(s.future_rem[s.j as int], req.contract_size) matches Some(v)
        && f.quantity.val() <= v.val()
}

/// What an exit fill uses up: its quantity leaves the position, and a positive
/// quantity leaves the current spot level and the current future level (the
/// other levels stay as they were).
pub open spec fn exit_fill_consumes(s: ExitState, s2: ExitState, f: Fill) -> bool {
    &&& decimal_checked_sub(s.available, f.quantity) == Some(s2.available)
    &&& f.quantity.val() > 0 ==> {
        &&& decimal_checked_sub(s.spot_rem[s.i as int], f.quantity) matches Some(srem)
            && s2.spot_rem == s.spot_rem.update(s.i as int, srem)
        &&& decimal_checked_sub(s.future_rem[s.j as int], f.quantity) matches Some(frem)
            && s2.future_rem == s.future_rem.update(s.j as int, frem)
    }
    &&& f.quantity.val() <= 0 ==> s2.spot_rem == s.spot_rem && s2.future_rem == s.future_rem
}

/// Each step of the exit matcher adds one fill, and that fill closes no more
/// than the position left, no more than the spot bid left at the current spot
/// level, and no more than the futures volume left at the current future level.
pub proof fn law_exit_fill_within_levels_and_position(req: ExitRequest, s: ExitState)
    requires
        exit_state_wf(req, s),
    ensures
        exit_step(req, s) matches MatchStep::Next(s2) ==> exit_state_wf(req, s2),
        exit_step(req, s) matches MatchStep::Next(s2) ==> s2.fills.len() == s.fills.len() + 1
            && s2.fills.take(s.fills.len() as int) == s.fills && exit_fill_bounded(
            req,
            s,
            s2.fills.last(),
        ) && exit_fill_consumes(s, s2, s2.fills.last()),
{
    if let MatchStep::Next(s2) = exit_step(req, s) {
        assert(s2.fills.take(s.fills.len() as int) =~= s.fills);
        if s2.fills.last().quantity.val() <= 0 {
            assert(s2.spot_rem =~= s.spot_rem);
            assert(s2.future_rem =~= s.future_rem);
        }
    }
}

proof fn lemma_exit_loop_keeps_prefix(req: ExitRequest, s: ExitState, fuel: nat)
    requires
        exit_state_wf(req, s),
    ensures
        exit_loop(req, s, fuel) matches Ok(t) ==> s.fills.len() <= t.fills.len() && t.fills.take(
            s.fills.len() as int,
        ) == s.fills,
    decreases fuel,
{
    law_exit_fill_within_levels_and_position(req, s);
    if let MatchStep::Next(s2) = exit_step(req, s) {
        if fuel > 0 {
            lemma_exit_loop_keeps_prefix(req, s2, (fuel - 1) as nat);
            if let Ok(t) = exit_loop(req, s2, (fuel - 1) as nat) {
                assert(t.fills.take(s.fills.len() as int) =~= t.fills.take(s2.fills.len() as int).take(
                    s.fills.len() as int,
                ));
            }
        }
    } else {
        if let Ok(t) = exit_loop(req, s, fuel) {
            assert(t == s);
            assert(t.fills.take(s.fills.len() as int) =~= s.fills);
        }
    }
}

/// The first fill of an exit closes no more than the position, no more than
/// the best spot bid holds, and no more than the best future level's contracts
/// times the contract size.
pub proof fn law_exit_first_fill_within_best_levels(req: ExitRequest)
    ensures
        exit_spec(req) matches Ok(t) ==> (t.fills.len() > 0 ==> {
            let f = t.fills[0];
            &&& f.spot_price == req.spot_orders@[0].0
            &&& f.future_price == req.future_orders@[0].0
            &&& f.quantity.val() <= req.executed.val()
            &&& f.quantity.val() <= req.spot_orders@[0].1.val()
            &&& decimal_checked_mul(req.future_orders@[0].1, req.contract_size) matches Some(v)
                && f.quantity.val() <= v.val()
        }),
{
    let s = exit_init(req);
    law_exit_fill_within_levels_and_position(req, s);
    if let Ok(t) = exit_spec(req) {
        if t.fills.len() > 0 {
            if let MatchStep::Next(s2) = exit_step(req, s) {
                lemma_exit_loop_keeps_prefix(req, s2, (MAX_STEPS - 1) as nat);
                let l = exit_loop(req, s2, (MAX_STEPS - 1) as nat);
                assert(exit_loop(req, s, MAX_STEPS as nat) == l);
                if let Ok(u) = l {
                    assert(u.fills.take(1)[0] == u.fills[0]);
                    assert(s2.fills[0] == s2.fills.last());
                }
            } else {
                assert(exit_loop(req, s, MAX_STEPS as nat) is Ok ==> exit_loop(req, s, MAX_STEPS as nat)
                    == Ok::<ExitState, ArbitrageError>(s));
            }
        }
    }
}

/// What is left of `start` once the quantities of the fills are taken away in
/// order, in decimal arithmetic.
pub open spec fn left_after(start: Dec, fills: Seq<Fill>) -> Option<Dec>
    decreases fills.len(),
{
    if fills.len() == 0 {
        Some(start)
    } else {
        match left_after(start, fills.drop_last()) {
            None => None,
            Some(t) => decimal_checked_sub(t, fills.last().quantity),
        }
    }
}

/// The quantities of the fills added up in order, in decimal arithmetic.
pub open spec fn quantity_total(fills: Seq<Fill>) -> Option<Dec>
    decreases fills.len(),
{
    if fills.len() == 0 {
        Some(Dec::parts(0, 0))
    } else {
        match quantity_total(fills.drop_last()) {
            None => None,
            Some(t) => decimal_checked_add(t, fills.last().quantity),
        }
    }
}

proof fn lemma_exit_loop_left(req: ExitRequest, s: ExitState, fuel: nat)
    requires
        exit_state_wf(req, s),
        left_after(req.executed, s.fills) == Some(s.available),
    ensures
        exit_loop(req, s, fuel) matches Ok(t) ==> left_after(req.executed, t.fills) == Some(t.available),
    decreases fuel,
{
    law_exit_fill_within_levels_and_position(req, s);
    if let MatchStep::Next(s2) = exit_step(req, s) {
        assert(s2.fills.drop_last() =~= s.fills);
        if fuel > 0 {
            lemma_exit_loop_left(req, s2, (fuel - 1) as nat);
        }
    }
}

/// The position an exit leaves open is the position less the quantity of each
/// fill, taken away in order.
pub proof fn law_exit_remaining_is_position_less_fills(req: ExitRequest)
    ensures
        exit_spec(req) matches Ok(t) ==> left_after(req.executed, t.fills) == Some(t.remaining),
{
    lemma_exit_loop_left(req, exit_init(req), MAX_STEPS as nat);
}

proof fn lemma_entry_loop_total(req: EntryRequest, s: EntryState, fuel: nat)
    requires
        quantity_total(s.fills) == Some(s.qty),
    ensures
        entry_loop(req, s, fuel) matches Ok(t) ==> quantity_total(t.fills) == Some(t.qty),
    decreases fuel,
{
    if let MatchStep::Next(s2) = entry_step(req, s) {
        assert(s2.fills.drop_last() =~= s.fills);
        if fuel > 0 {
            lemma_entry_loop_total(req, s2, (fuel - 1) as nat);
        }
    }
}

/// The quantity an entry reports as executed is the sum of its fills'
/// quantities.
pub proof fn law_entry_executed_is_sum_of_fills(req: EntryRequest)
    ensures
        entry_spec(req) matches Ok(t) ==> (t.fills.len() > 0 ==> quantity_total(t.fills) == Some(t.executed)),
{
    lemma_entry_loop_total(req, entry_init(req), MAX_STEPS as nat);
}

} // verus!
