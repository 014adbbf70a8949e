//! Greedy spot/futures arbitrage matching over two order books.
pub mod common;
pub mod entry;
pub mod exit;
pub mod laws;
pub mod bounds;

use crate::arbitrage::common::{ArbitrageError, ArbitrageRequest};
use crate::arbitrage::entry::{do_entry_arbitrage, entry_outcome_matches, entry_spec, EntryOutcome};
use crate::arbitrage::exit::{do_exit_arbitrage, exit_outcome_matches, exit_spec, ExitOutcome};
use vstd::prelude::*;

verus! {

/// Result of either matcher.
pub enum ArbitrageOutcome {
    Entry(EntryOutcome),
    Exit(ExitOutcome),
}

/// Runs the matcher that the request asks for.
pub fn do_arbitrage(request: ArbitrageRequest) -> (r: Result<ArbitrageOutcome, ArbitrageError>)
    ensures
        match request {
            ArbitrageRequest::Entry(req) => entry_outcome_matches(
                match r {
                    Ok(ArbitrageOutcome::Entry(o)) => Ok(o),
                    Ok(ArbitrageOutcome::Exit(_)) => Err(ArbitrageError::StepLimit),
                    Err(e) => Err(e),
                },
                entry_spec(req),
            ) && !(r matches Ok(ArbitrageOutcome::Exit(_))),
            ArbitrageRequest::Exit(req) => exit_outcome_matches(
                match r {
                    Ok(ArbitrageOutcome::Exit(o)) => Ok(o),
                    Ok(ArbitrageOutcome::Entry(_)) => Err(ArbitrageError::StepLimit),
                    Err(e) => Err(e),
                },
                exit_spec(req),
            ) && !(r matches Ok(ArbitrageOutcome::Entry(_))),
        },
{
    match request {
        ArbitrageRequest::Entry(r) => match do_entry_arbitrage(r) {
            Ok(o) => Ok(ArbitrageOutcome::Entry(o)),
            Err(e) => Err(e),
        },
        ArbitrageRequest::Exit(r) => match do_exit_arbitrage(r) {
            Ok(o) => Ok(ArbitrageOutcome::Exit(o)),
            Err(e) => Err(e),
        },
    }
}

} // verus!
