//! Entry matcher: walks the spot asks and future bids best-first and buys spot /
//! sells futures while the futures premium is at least the requested percent and
//! money is left.
use crate::arbitrage::common::{
    clean_residual, clean_spec, eps, hundred, is_outside_tolerance, min_spec, outside_spec,
    ArbitrageError, EntryRequest, Fill, MatchStep, StepKind, MAX_STEPS,
};
use crate::decimal::{
    checked_add, checked_div, checked_mul, checked_sub, decimal_checked_add, decimal_checked_div,
    decimal_checked_mul, decimal_checked_sub, eq, lt, min, Dec,
};
use vstd::prelude::*;

verus! {

/// State of the entry matcher between two steps.
pub struct EntryState {
    /// Index of the current spot level.
    pub i: nat,
    /// Index of the current future level.
    pub j: nat,
    /// Quantity left at each spot level.
    pub spot_rem: Seq<Dec>,
    /// Contracts left at each future level.
    pub future_rem: Seq<Dec>,
    pub total_spot: Dec,
    pub total_future: Dec,
    pub available: Dec,
    pub qty: Dec,
    pub completed: bool,
    pub fills: Seq<Fill>,
}

/// The entry result before it is turned into floats.
pub struct EntrySummary {
    pub fills: Seq<Fill>,
    pub executed: Dec,
    pub completed: bool,
    pub profit_percent: Dec,
}

/// Result of the entry matcher.
#[derive(Debug, Clone)]
pub struct EntryOutcome {
    /// One fill per step, in the order taken.
    pub fills: Vec<Fill>,
    pub executed: Dec,
    pub completed: bool,
    pub profit_percent: Dec,
}

/// The premium of the future over the spot in percent: `(future - spot) / spot * 100`.
pub open spec fn entry_diff(spot_price: Dec, future_price: Dec) -> Option<Dec> {
    match decimal_checked_sub(future_price, spot_price) {
        None => None,
        Some(d) => match decimal_checked_div(d, spot_price) {
            None => None,
            Some(q) => decimal_checked_mul(q, hundred()),
        },
    }
}

/// Whether both the spot spend and the future notional are within the margin
/// around `amount` (the second check is skipped when the first fails).
pub open spec fn entry_completed(amount: Dec, total_spot: Dec, total_future: Dec, margin: Dec) -> Option<bool> {
    match outside_spec(amount, total_spot, margin) {
        None => None,
        Some(o1) => if o1 {
            Some(false)
        } else {
            match outside_spec(amount, total_future, margin) {
                None => None,
                Some(o2) => Some(!o2),
            }
        },
    }
}

pub open spec fn entry_state_wf(req: EntryRequest, s: EntryState) -> bool {
    &&& s.spot_rem.len() == req.spot_orders@.len()
    &&& s.future_rem.len() == req.future_orders@.len()
}

pub open spec fn entry_init(req: EntryRequest) -> EntryState {
    EntryState {
        i: 0,
        j: 0,
        spot_rem: Seq::new(req.spot_orders@.len(), |k: int| req.spot_orders@[k].1),
        future_rem: Seq::new(req.future_orders@.len(), |k: int| req.future_orders@[k].1),
        total_spot: Dec::parts(0, 0),
        total_future: Dec::parts(0, 0),
        available: req.amount,
        qty: Dec::parts(0, 0),
        completed: false,
        fills: Seq::empty(),
    }
}

/// Books a fill of `current` at the current levels.
pub open spec fn entry_take(req: EntryRequest, s: EntryState, current: Dec) -> MatchStep<EntryState> {
    let spot_price = req.spot_orders@[s.i as int].0;
    let future_price = req.future_orders@[s.j as int].0;
    match decimal_checked_mul(spot_price, current) {
        None => MatchStep::Fail,
        Some(cost) => match decimal_checked_add(s.total_spot, cost) {
            None => MatchStep::Fail,
            Some(total_spot) => match decimal_checked_sub(s.available, cost) {
                None => MatchStep::Fail,
                Some(available) => match decimal_checked_mul(future_price, current) {
                    None => MatchStep::Fail,
                    Some(fcost) => match decimal_checked_add(s.total_future, fcost) {
                        None => MatchStep::Fail,
                        Some(total_future) => match decimal_checked_sub(
                            s.spot_rem[s.i as int],
                            current,
                        ) {
                            None => MatchStep::Fail,
                            Some(srem) => match decimal_checked_sub(
                                s.future_rem[s.j as int],
                                current,
                            ) {
                                None => MatchStep::Fail,
                                Some(frem) => match decimal_checked_add(s.qty, current) {
                                    None => MatchStep::Fail,
                                    Some(qty) => match entry_completed(
                                        req.amount,
                                        total_spot,
                                        total_future,
                                        req.margin_quantity_percent,
                                    ) {
                                        None => MatchStep::Fail,
                                        Some(completed) => MatchStep::Next(
                                            EntryState {
                                                i: if clean_spec(srem, eps()).val() == 0 {
                                                    s.i + 1
                                                } else {
                                                    s.i
                                                },
                                                j: if clean_spec(frem, eps()).val() == 0 {
                                                    s.j + 1
                                                } else {
                                                    s.j
                                                },
                                                spot_rem: s.spot_rem.update(s.i as int, srem),
                                                future_rem: s.future_rem.update(s.j as int, frem),
                                                total_spot,
                                                total_future,
                                                available,
                                                qty,
                                                completed,
                                                fills: s.fills.push(
                                                    Fill { spot_price, future_price, quantity: current },
                                                ),
                                            },
                                        ),
                                    },
                                },
                            },
                        },
                    },
                },
            },
        },
    }
}

/// One step of the entry matcher.
pub open spec fn entry_step(req: EntryRequest, s: EntryState) -> MatchStep<EntryState> {
    if !(s.i < req.spot_orders@.len() && s.j < req.future_orders@.len() && clean_spec(
        s.available,
        eps(),
    ).val() > 0) {
        MatchStep::Stop
    } else {
        let spot_price = req.spot_orders@[s.i as int].0;
        let future_price = req.future_orders@[s.j as int].0;
        match decimal_checked_mul(s.future_rem[s.j as int], req.contract_size) {
            None => MatchStep::Fail,
            Some(future_vol) => match entry_diff(spot_price, future_price) {
                None => MatchStep::Fail,
                Some(diff) => if clean_spec(diff, eps()).val() == 0 || diff.val() < req.percent.val() {
                    MatchStep::Stop
                } else {
                    match decimal_checked_div(s.available, spot_price) {
                        None => MatchStep::Fail,
                        Some(max_qty) => {
                            let current = min_spec(
                                min_spec(max_qty, s.spot_rem[s.i as int]),
                                future_vol,
                            );
                            if clean_spec(current, eps()).val() == 0 {
                                MatchStep::Stop
                            } else {
                                entry_take(req, s, current)
                            }
                        },
                    }
                },
            },
        }
    }
}

/// Runs the entry matcher from `s` with at most `fuel` more steps.
pub open spec fn entry_loop(req: EntryRequest, s: EntryState, fuel: nat) -> Result<
    EntryState,
    ArbitrageError,
>
    decreases fuel,
{
    match entry_step(req, s) {
        MatchStep::Stop => Ok(s),
        MatchStep::Fail => Err(ArbitrageError::Arithmetic),
        MatchStep::Next(next) => if fuel == 0 {
            Err(ArbitrageError::StepLimit)
        } else {
            entry_loop(req, next, (fuel - 1) as nat)
        },
    }
}

/// Profit in percent of the spot spend, or zero when nothing was spent.
pub open spec fn entry_profit_percent(s: EntryState) -> Option<Dec> {
    match decimal_checked_sub(s.total_future, s.total_spot) {
        None => None,
        Some(profit) => if s.total_spot.val() > 0 {
            match decimal_checked_div(profit, s.total_spot) {
                None => None,
                Some(q) => decimal_checked_mul(q, hundred()),
            }
        } else {
            Some(Dec::parts(0, 0))
        },
    }
}

/// The summary of a finished run; empty when no quantity was executed.
pub open spec fn entry_finish(s: EntryState) -> Result<EntrySummary, ArbitrageError> {
    match entry_profit_percent(s) {
        None => Err(ArbitrageError::Arithmetic),
        Some(profit_percent) => if clean_spec(s.qty, eps()).val() == 0 {
            Ok(
                EntrySummary {
                    fills: Seq::empty(),
                    executed: Dec::parts(0, 0),
                    completed: false,
                    profit_percent: Dec::parts(0, 0),
                },
            )
        } else {
            Ok(
                EntrySummary {
                    fills: s.fills,
                    executed: s.qty,
                    completed: s.completed,
                    profit_percent,
                },
            )
        },
    }
}

/// What the entry matcher returns on `req`.
pub open spec fn entry_spec(req: EntryRequest) -> Result<EntrySummary, ArbitrageError> {
    match entry_loop(req, entry_init(req), MAX_STEPS as nat) {
        Err(e) => Err(e),
        Ok(s) => entry_finish(s),
    }
}

pub open spec fn entry_outcome_matches(
    r: Result<EntryOutcome, ArbitrageError>,
    s: Result<EntrySummary, ArbitrageError>,
) -> bool {
    match (r, s) {
        (Ok(o), Ok(t)) => {
            &&& o.fills@ == t.fills
            &&& o.executed == t.executed
            &&& o.completed == t.completed
            &&& o.profit_percent == t.profit_percent
        },
        (Err(e1), Err(e2)) => e1 == e2,
        _ => false,
    }
}

struct EntryRun {
    i: usize,
    j: usize,
    spot_rem: Vec<Dec>,
    future_rem: Vec<Dec>,
    total_spot: Dec,
    total_future: Dec,
    available: Dec,
    qty: Dec,
    completed: bool,
    fills: Vec<Fill>,
}

impl EntryRun {
    spec fn state(&self) -> EntryState {
        EntryState {
            i: self.i as nat,
            j: self.j as nat,
            spot_rem: self.spot_rem@,
            future_rem: self.future_rem@,
            total_spot: self.total_spot,
            total_future: self.total_future,
            available: self.available,
            qty: self.qty,
            completed: self.completed,
            fills: self.fills@,
        }
    }
}

fn entry_completed_exec(amount: Dec, total_spot: Dec, total_future: Dec, margin: Dec) -> (r: Option<bool>)
    ensures
        r == entry_completed(amount, total_spot, total_future, margin),
{
    match is_outside_tolerance(amount, total_spot, margin) {
        None => None,
        Some(o1) => if o1 {
            Some(false)
        } else {
            match is_outside_tolerance(amount, total_future, margin) {
                None => None,
                Some(o2) => Some(!o2),
            }
        },
    }
}

fn entry_take_exec(req: &EntryRequest, run: &mut EntryRun, current: Dec) -> (r: StepKind)
    requires
        entry_state_wf(*req, old(run).state()),
        old(run).i < req.spot_orders@.len(),
        old(run).j < req.future_orders@.len(),
    ensures
        match entry_take(*req, old(run).state(), current) {
            MatchStep::Stop => false,
            MatchStep::Fail => r is Fail,
            MatchStep::Next(s2) => r is Next && final(run).state() == s2,
        },
        entry_state_wf(*req, final(run).state()),
{
    let spot_price = req.spot_orders[run.i].0;
    let future_price = req.future_orders[run.j].0;
    let cost = match checked_mul(&spot_price, &current) {
        Some(v) => v,
        None => return StepKind::Fail,
    };
    let total_spot = match checked_add(&run.total_spot, &cost) {
        Some(v) => v,
        None => return StepKind::Fail,
    };
    let available = match checked_sub(&run.available, &cost) {
        Some(v) => v,
        None => return StepKind::Fail,
    };
    let fcost = match checked_mul(&future_price, &current) {
        Some(v) => v,
        None => return StepKind::Fail,
    };
    let total_future = match checked_add(&run.total_future, &fcost) {
        Some(v) => v,
        None => return StepKind::Fail,
    };
    let srem = match checked_sub(&run.spot_rem[run.i], &current) {
        Some(v) => v,
        None => return StepKind::Fail,
    };
    let frem = match checked_sub(&run.future_rem[run.j], &current) {
        Some(v) => v,
        None => return StepKind::Fail,
    };
    let qty = match checked_add(&run.qty, &current) {
        Some(v) => v,
        None => return StepKind::Fail,
    };
    let completed = match entry_completed_exec(
        req.amount,
        total_spot,
        total_future,
        req.margin_quantity_percent,
    ) {
        Some(v) => v,
        None => return StepKind::Fail,
    };
    let zero = Dec::zero();
    let eps = Dec::new(1, 12);
    let i = run.i;
    let j = run.j;
    let n_spot = req.spot_orders.len();
    let n_future = req.future_orders.len();
    assert(i + 1 <= n_spot && j + 1 <= n_future);
    run.spot_rem.set(i, srem);
    run.future_rem.set(j, frem);
    if eq(&clean_residual(srem, eps), &zero) {
        run.i = i + 1;
    }
    if eq(&clean_residual(frem, eps), &zero) {
        run.j = j + 1;
    }
    run.total_spot = total_spot;
    run.total_future = total_future;
    run.available = available;
    run.qty = qty;
    run.completed = completed;
    run.fills.push(Fill { spot_price, future_price, quantity: current });
    StepKind::Next
}

fn entry_step_exec(req: &EntryRequest, run: &mut EntryRun) -> (r: StepKind)
    requires
        entry_state_wf(*req, old(run).state()),
    ensures
        match entry_step(*req, old(run).state()) {
            MatchStep::Stop => r is Stop && final(run).state() == old(run).state(),
            MatchStep::Fail => r is Fail,
            MatchStep::Next(s2) => r is Next && final(run).state() == s2,
        },
        entry_state_wf(*req, final(run).state()),
{
    let zero = Dec::zero();
    let eps = Dec::new(1, 12);
    if !(run.i < req.spot_orders.len() && run.j < req.future_orders.len() && lt(
        &zero,
        &clean_residual(run.available, eps),
    )) {
        return StepKind::Stop;
    }
    let spot_price = req.spot_orders[run.i].0;
    let spot_vol = run.spot_rem[run.i];
    let future_price = req.future_orders[run.j].0;
    let future_vol = match checked_mul(&run.future_rem[run.j], &req.contract_size) {
        Some(v) => v,
        None => return StepKind::Fail,
    };
    let h = Dec::new(100, 0);
    let d = match checked_sub(&future_price, &spot_price) {
        Some(v) => v,
        None => return StepKind::Fail,
    };
    let q = match checked_div(&d, &spot_price) {
        Some(v) => v,
        None => return StepKind::Fail,
    };
    let diff = match checked_mul(&q, &h) {
        Some(v) => v,
        None => return StepKind::Fail,
    };
    if eq(&clean_residual(diff, eps), &zero) || lt(&diff, &req.percent) {
        return StepKind::Stop;
    }
    let max_qty = match checked_div(&run.available, &spot_price) {
        Some(v) => v,
        None => return StepKind::Fail,
    };
    let current = min(&min(&max_qty, &spot_vol), &future_vol);
    if eq(&clean_residual(current, eps), &zero) {
        return StepKind::Stop;
    }
    entry_take_exec(req, run, current)
}

fn entry_start(req: &EntryRequest) -> (run: EntryRun)
    ensures
        run.state() == entry_init(*req),
{
    let mut spot_rem: Vec<Dec> = Vec::new();
    let mut k: usize = 0;
    while k < req.spot_orders.len()
        invariant
            k <= req.spot_orders@.len(),
            spot_rem@ =~= Seq::new(k as nat, |x: int| req.spot_orders@[x].1),
        decreases req.spot_orders@.len() - k,
    {
        spot_rem.push(req.spot_orders[k].1);
        k = k + 1;
    }
    let mut future_rem: Vec<Dec> = Vec::new();
    let mut k: usize = 0;
    while k < req.future_orders.len()
        invariant
            k <= req.future_orders@.len(),
            future_rem@ =~= Seq::new(k as nat, |x: int| req.future_orders@[x].1),
        decreases req.future_orders@.len() - k,
    {
        future_rem.push(req.future_orders[k].1);
        k = k + 1;
    }
    EntryRun {
        i: 0,
        j: 0,
        spot_rem,
        future_rem,
        total_spot: Dec::zero(),
        total_future: Dec::zero(),
        available: req.amount,
        qty: Dec::zero(),
        completed: false,
        fills: Vec::new(),
    }
}

/// Opens a position: matches spot asks against future bids best-first while the
/// premium holds and money is left. `Err(Arithmetic)` where a decimal operation
/// would panic; `Err(StepLimit)` where the run does not settle within
/// `MAX_STEPS` steps.
pub fn do_entry_arbitrage(request: EntryRequest) -> (r: Result<EntryOutcome, ArbitrageError>)
    ensures
        entry_outcome_matches(r, entry_spec(request)),
{
    let mut run = entry_start(&request);
    let mut fuel: u64 = MAX_STEPS;
    loop
        invariant
            entry_state_wf(request, run.state()),
            entry_loop(request, run.state(), fuel as nat) == entry_loop(
                request,
                entry_init(request),
                MAX_STEPS as nat,
            ),
        ensures
            entry_state_wf(request, run.state()),
            entry_step(request, run.state()) is Stop,
            entry_loop(request, run.state(), fuel as nat) == entry_loop(
                request,
                entry_init(request),
                MAX_STEPS as nat,
            ),
        decreases fuel,
    {
        match entry_step_exec(&request, &mut run) {
            StepKind::Stop => break ,
            StepKind::Fail => return Err(ArbitrageError::Arithmetic),
            StepKind::Next => {
                if fuel == 0 {
                    return Err(ArbitrageError::StepLimit);
                }
                fuel = fuel - 1;
            },
        }
    }
    let zero = Dec::zero();
    let eps = Dec::new(1, 12);
    let h = Dec::new(100, 0);
    let profit = match checked_sub(&run.total_future, &run.total_spot) {
        Some(v) => v,
        None => return Err(ArbitrageError::Arithmetic),
    };
    let profit_percent = if lt(&zero, &run.total_spot) {
        let q = match checked_div(&profit, &run.total_spot) {
            Some(v) => v,
            None => return Err(ArbitrageError::Arithmetic),
        };
        match checked_mul(&q, &h) {
            Some(v) => v,
            None => return Err(ArbitrageError::Arithmetic),
        }
    } else {
        Dec::zero()
    };
    if eq(&clean_residual(run.qty, eps), &zero) {
        return Ok(
            EntryOutcome {
                fills: Vec::new(),
                executed: Dec::zero(),
                completed: false,
                profit_percent: Dec::zero(),
            },
        );
    }
    Ok(EntryOutcome { fills: run.fills, executed: run.qty, completed: run.completed, profit_percent })
}

} // verus!
