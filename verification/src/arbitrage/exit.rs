//! Exit matcher: walks the spot bids and future asks best-first and sells spot /
//! buys back futures while the spot premium is at least the requested percent
//! and some of the position is left.
use crate::arbitrage::common::{
    clean_residual, clean_spec, eps, hundred, min_spec, ArbitrageError, ExitRequest, Fill,
    MatchStep, StepKind, MAX_STEPS,
};
use crate::decimal::{
    checked_div, checked_mul, checked_sub, decimal_checked_div, decimal_checked_mul,
    decimal_checked_sub, eq, lt, min, Dec,
};
use vstd::prelude::*;

verus! {

/// State of the exit matcher between two steps.
pub struct ExitState {
    pub i: nat,
    pub j: nat,
    pub spot_rem: Seq<Dec>,
    pub future_rem: Seq<Dec>,
    /// Quantity of the position still to close.
    pub available: Dec,
    pub fills: Seq<Fill>,
}

/// The exit result before it is turned into floats.
pub struct ExitSummary {
    pub fills: Seq<Fill>,
    pub remaining: Dec,
    pub completed: bool,
}

/// Result of the exit matcher.
#[derive(Debug, Clone)]
pub struct ExitOutcome {
    /// One fill per step, in the order taken.
    pub fills: Vec<Fill>,
    /// Quantity of the position left open.
    pub remaining: Dec,
    pub completed: bool,
}

/// The premium of the spot over the future in percent: `(spot - future) / future * 100`.
pub open spec fn exit_diff(spot_price: Dec, future_price: Dec) -> Option<Dec> {
    match decimal_checked_sub(spot_price, future_price) {
        None => None,
        Some(d) => match decimal_checked_div(d, future_price) {
            None => None,
            Some(q) => decimal_checked_mul(q, hundred()),
        },
    }
}

pub open spec fn exit_state_wf(req: ExitRequest, s: ExitState) -> bool {
    &&& s.spot_rem.len() == req.spot_orders@.len()
    &&& s.future_rem.len() == req.future_orders@.len()
}

pub open spec fn exit_init(req: ExitRequest) -> ExitState {
    ExitState {
        i: 0,
        j: 0,
        spot_rem: Seq::new(req.spot_orders@.len(), |k: int| req.spot_orders@[k].1),
        future_rem: Seq::new(req.future_orders@.len(), |k: int| req.future_orders@[k].1),
        available: req.executed,
        fills: Seq::empty(),
    }
}

/// Books a fill of `qty` at the current levels; the levels only shrink when
/// `qty` is positive.
pub open spec fn exit_take(req: ExitRequest, s: ExitState, qty: Dec) -> MatchStep<ExitState> {
    let spot_price = req.spot_orders@[s.i as int].0;
    let future_price = req.future_orders@[s.j as int].0;
    match decimal_checked_sub(s.available, qty) {
        None => MatchStep::Fail,
        Some(available) => {
            let shrunk: Option<(Dec, Dec)> = if qty.val() > 0 {
                match decimal_checked_sub(s.spot_rem[s.i as int], qty) {
                    None => None,
                    Some(srem) => match decimal_checked_sub(s.future_rem[s.j as int], qty) {
                        None => None,
                        Some(frem) => Some((srem, frem)),
                    },
                }
            } else {
                Some((s.spot_rem[s.i as int], s.future_rem[s.j as int]))
            };
            match shrunk {
                None => MatchStep::Fail,
                Some((srem, frem)) => MatchStep::Next(
                    ExitState {
                        i: if clean_spec(srem, eps()).val() == 0 {
                            s.i + 1
                        } else {
                            s.i
                        },
                        j: if clean_spec(frem, eps()).val() == 0 {
                            s.j + 1
                        } else {
                            s.j
                        },
                        spot_rem: s.spot_rem.update(s.i as int, srem),
                        future_rem: s.future_rem.update(s.j as int, frem),
                        available,
                        fills: s.fills.push(Fill { spot_price, future_price, quantity: qty }),
                    },
                ),
            }
        },
    }
}

/// One step of the exit matcher.
pub open spec fn exit_step(req: ExitRequest, s: ExitState) -> MatchStep<ExitState> {
    if !(s.i < req.spot_orders@.len() && s.j < req.future_orders@.len() && clean_spec(
        s.available,
        eps(),
    ).val() > 0) {
        MatchStep::Stop
    } else {
        let spot_price = req.spot_orders@[s.i as int].0;
        let future_price = req.future_orders@[s.j as int].0;
        match decimal_checked_mul(s.future_rem[s.j as int], req.contract_size) {
            None => MatchStep::Fail,
            Some(future_vol) => match exit_diff(spot_price, future_price) {
                None => MatchStep::Fail,
                Some(diff) => if diff.val() < req.percent.val() {
                    MatchStep::Stop
                } else {
                    exit_take(
                        req,
                        s,
                        min_spec(min_spec(s.available, s.spot_rem[s.i as int]), future_vol),
                    )
                },
            },
        }
    }
}

/// Runs the exit matcher from `s` with at most `fuel` more steps.
pub open spec fn exit_loop(req: ExitRequest, s: ExitState, fuel: nat) -> Result<
    ExitState,
    ArbitrageError,
>
    decreases fuel,
{
    match exit_step(req, s) {
        MatchStep::Stop => Ok(s),
        MatchStep::Fail => Err(ArbitrageError::Arithmetic),
        MatchStep::Next(next) => if fuel == 0 {
            Err(ArbitrageError::StepLimit)
        } else {
            exit_loop(req, next, (fuel - 1) as nat)
        },
    }
}

/// What the exit matcher returns on `req`.
pub open spec fn exit_spec(req: ExitRequest) -> Result<ExitSummary, ArbitrageError> {
    match exit_loop(req, exit_init(req), MAX_STEPS as nat) {
        Err(e) => Err(e),
        Ok(s) => Ok(
            ExitSummary {
                fills: s.fills,
                remaining: s.available,
                completed: clean_spec(s.available, eps()).val() == 0,
            },
        ),
    }
}

pub open spec fn exit_outcome_matches(
    r: Result<ExitOutcome, ArbitrageError>,
    s: Result<ExitSummary, ArbitrageError>,
) -> bool {
    match (r, s) {
        (Ok(o), Ok(t)) => {
            &&& o.fills@ == t.fills
            &&& o.remaining == t.remaining
            &&& o.completed == t.completed
        },
        (Err(e1), Err(e2)) => e1 == e2,
        _ => false,
    }
}

struct ExitRun {
    i: usize,
    j: usize,
    spot_rem: Vec<Dec>,
    future_rem: Vec<Dec>,
    available: Dec,
    fills: Vec<Fill>,
}

impl ExitRun {
    spec fn state(&self) -> ExitState {
        ExitState {
            i: self.i as nat,
            j: self.j as nat,
            spot_rem: self.spot_rem@,
            future_rem: self.future_rem@,
            available: self.available,
            fills: self.fills@,
        }
    }
}

fn exit_take_exec(req: &ExitRequest, run: &mut ExitRun, qty: Dec) -> (r: StepKind)
    requires
        exit_state_wf(*req, old(run).state()),
        old(run).i < req.spot_orders@.len(),
        old(run).j < req.future_orders@.len(),
    ensures
        match exit_take(*req, old(run).state(), qty) {
            MatchStep::Stop => false,
            MatchStep::Fail => r is Fail,
            MatchStep::Next(s2) => r is Next && final(run).state() == s2,
        },
        exit_state_wf(*req, final(run).state()),
{
    let spot_price = req.spot_orders[run.i].0;
    let future_price = req.future_orders[run.j].0;
    let available = match checked_sub(&run.available, &qty) {
        Some(v) => v,
        None => return StepKind::Fail,
    };
    let zero = Dec::zero();
    let eps = Dec::new(1, 12);
    let i = run.i;
    let j = run.j;
    let n_spot = req.spot_orders.len();
    let n_future = req.future_orders.len();
    assert(i + 1 <= n_spot && j + 1 <= n_future);
    let mut srem = run.spot_rem[i];
    let mut frem = run.future_rem[j];
    if lt(&zero, &qty) {
        srem = match checked_sub(&srem, &qty) {
            Some(v) => v,
            None => return StepKind::Fail,
        };
        frem = match checked_sub(&frem, &qty) {
            Some(v) => v,
            None => return StepKind::Fail,
        };
    }
    run.spot_rem.set(i, srem);
    run.future_rem.set(j, frem);
    if eq(&clean_residual(srem, eps), &zero) {
        run.i = i + 1;
    }
    if eq(&clean_residual(frem, eps), &zero) {
        run.j = j + 1;
    }
    run.available = available;
    run.fills.push(Fill { spot_price, future_price, quantity: qty });
    StepKind::Next
}

fn exit_step_exec(req: &ExitRequest, run: &mut ExitRun) -> (r: StepKind)
    requires
        exit_state_wf(*req, old(run).state()),
    ensures
        match exit_step(*req, old(run).state()) {
            MatchStep::Stop => r is Stop && final(run).state() == old(run).state(),
            MatchStep::Fail => r is Fail,
            MatchStep::Next(s2) => r is Next && final(run).state() == s2,
        },
        exit_state_wf(*req, final(run).state()),
{
    let zero = Dec::zero();
    let eps = Dec::new(1, 12);
    if !(run.i < req.spot_orders.len() && run.j < req.future_orders.len() && lt(
        &zero,
        &clean_residual(run.available, eps),
    )) {
        return StepKind::Stop;
    }
    let spot_price = req.spot_orders[run.i].0;
    let spot_vol = run.spot_rem[run.i];
    let future_price = req.future_orders[run.j].0;
    let future_vol = match checked_mul(&run.future_rem[run.j], &req.contract_size) {
        Some(v) => v,
        None => return StepKind::Fail,
    };
    let h = Dec::new(100, 0);
    let d = match checked_sub(&spot_price, &future_price) {
        Some(v) => v,
        None => return StepKind::Fail,
    };
    let q = match checked_div(&d, &future_price) {
        Some(v) => v,
        None => return StepKind::Fail,
    };
    let diff = match checked_mul(&q, &h) {
        Some(v) => v,
        None => return StepKind::Fail,
    };
    if lt(&diff, &req.percent) {
        return StepKind::Stop;
    }
    let qty = min(&min(&run.available, &spot_vol), &future_vol);
    exit_take_exec(req, run, qty)
}

fn exit_start(req: &ExitRequest) -> (run: ExitRun)
    ensures
        run.state() == exit_init(*req),
{
    let mut spot_rem: Vec<Dec> = Vec::new();
    let mut k: usize = 0;
    while k < req.spot_orders.len()
        invariant
            k <= req.spot_orders@.len(),
            spot_rem@ =~= Seq::new(k as nat, |x: int| req.spot_orders@[x].1),
        decreases req.spot_orders@.len() - k,
    {
        spot_rem.push(req.spot_orders[k].1);
        k = k + 1;
    }
    let mut future_rem: Vec<Dec> = Vec::new();
    let mut k: usize = 0;
    while k < req.future_orders.len()
        invariant
            k <= req.future_orders@.len(),
            future_rem@ =~= Seq::new(k as nat, |x: int| req.future_orders@[x].1),
        decreases req.future_orders@.len() - k,
    {
        future_rem.push(req.future_orders[k].1);
        k = k + 1;
    }
    ExitRun { i: 0, j: 0, spot_rem, future_rem, available: req.executed, fills: Vec::new() }
}

/// Closes a position: matches spot bids against future asks best-first while
/// the premium holds and some of the position is left. `Err(Arithmetic)` where a
/// decimal operation would panic; `Err(StepLimit)` where the run does not
/// settle within `MAX_STEPS` steps.
pub fn do_exit_arbitrage(request: ExitRequest) -> (r: Result<ExitOutcome, ArbitrageError>)
    ensures
        exit_outcome_matches(r, exit_spec(request)),
{
    let mut run = exit_start(&request);
    let mut fuel: u64 = MAX_STEPS;
    loop
        invariant
            exit_state_wf(request, run.state()),
            exit_loop(request, run.state(), fuel as nat) == exit_loop(
                request,
                exit_init(request),
                MAX_STEPS as nat,
            ),
        ensures
            exit_state_wf(request, run.state()),
            exit_step(request, run.state()) is Stop,
            exit_loop(request, run.state(), fuel as nat) == exit_loop(
                request,
                exit_init(request),
                MAX_STEPS as nat,
            ),
        decreases fuel,
    {
        match exit_step_exec(&request, &mut run) {
            StepKind::Stop => break ,
            StepKind::Fail => return Err(ArbitrageError::Arithmetic),
            StepKind::Next => {
                if fuel == 0 {
                    return Err(ArbitrageError::StepLimit);
                }
                fuel = fuel - 1;
            },
        }
    }
    let zero = Dec::zero();
    let eps = Dec::new(1, 12);
    let completed = eq(&clean_residual(run.available, eps), &zero);
    Ok(ExitOutcome { fills: run.fills, remaining: run.available, completed })
}

} // verus!
