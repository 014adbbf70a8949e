use arbitrage_core::arbitrage::common::{
    clean_residual, is_outside_tolerance, ArbitrageDirection, ArbitrageError, ArbitrageRequest,
    EntryRequest, ExitRequest,
};
use arbitrage_core::arbitrage::entry::do_entry_arbitrage;
use arbitrage_core::arbitrage::exit::do_exit_arbitrage;
use arbitrage_core::arbitrage::{do_arbitrage, ArbitrageOutcome};
use arbitrage_core::decimal::Dec;

fn d(m: i64, s: u32) -> Dec {
    Dec::new(m, s)
}

fn same(a: Dec, b: Dec) -> bool {
    a == b
}

fn entry(spot: Vec<(Dec, Dec)>, future: Vec<(Dec, Dec)>, amount: Dec, margin: Dec, percent: Dec) -> EntryRequest {
    EntryRequest {
        spot_orders: spot,
        future_orders: future,
        amount,
        margin_quantity_percent: margin,
        percent,
        contract_size: d(1, 0),
    }
}

#[test]
fn entry_takes_what_the_money_buys() {
    // premium (100.5 - 100) / 100 * 100 = 0.5 >= 0.1; 50 buys 0.5 spot
    let req = entry(vec![(d(100, 0), d(1, 0))], vec![(d(1005, 1), d(1, 0))], d(50, 0), d(1, 0), d(1, 1));
    let out = do_entry_arbitrage(req).unwrap();
    assert_eq!(out.fills.len(), 1);
    assert!(same(out.fills[0].spot_price, d(100, 0)));
    assert!(same(out.fills[0].future_price, d(1005, 1)));
    assert!(same(out.fills[0].quantity, d(5, 1)));
    assert!(same(out.executed, d(5, 1)));
    // spent 50 on spot, 50.25 on futures: both within 1% of 50
    assert!(out.completed);
    // (50.25 - 50) / 50 * 100
    assert!(same(out.profit_percent, d(5, 1)));
}

#[test]
fn entry_outside_margin_is_not_completed() {
    // futures side 51 is more than 1% above 50
    let req = entry(vec![(d(100, 0), d(1, 0))], vec![(d(102, 0), d(1, 0))], d(50, 0), d(1, 0), d(1, 0));
    let out = do_entry_arbitrage(req).unwrap();
    assert!(same(out.executed, d(5, 1)));
    assert!(!out.completed);
    assert!(same(out.profit_percent, d(2, 0)));
}

#[test]
fn entry_walks_levels_in_order() {
    let req = entry(
        vec![(d(100, 0), d(2, 1)), (d(101, 0), d(1, 0))],
        vec![(d(103, 0), d(1, 0))],
        d(100, 0),
        d(50, 0),
        d(1, 0),
    );
    let out = do_entry_arbitrage(req).unwrap();
    assert_eq!(out.fills.len(), 2);
    assert!(same(out.fills[0].spot_price, d(100, 0)));
    assert!(same(out.fills[0].quantity, d(2, 1)));
    assert!(same(out.fills[1].spot_price, d(101, 0)));
    assert!(same(out.fills[1].future_price, d(103, 0)));
}

#[test]
fn entry_without_premium_does_nothing() {
    let req = entry(vec![(d(100, 0), d(1, 0))], vec![(d(100, 0), d(1, 0))], d(50, 0), d(1, 0), d(1, 1));
    let out = do_entry_arbitrage(req).unwrap();
    assert!(out.fills.is_empty());
    assert!(same(out.executed, d(0, 0)));
    assert!(!out.completed);
    assert!(same(out.profit_percent, d(0, 0)));
}

#[test]
fn entry_below_threshold_does_nothing() {
    // premium 0.5 < 1
    let req = entry(vec![(d(100, 0), d(1, 0))], vec![(d(1005, 1), d(1, 0))], d(50, 0), d(1, 0), d(1, 0));
    let out = do_entry_arbitrage(req).unwrap();
    assert!(out.fills.is_empty());
}

#[test]
fn entry_empty_book_does_nothing() {
    let req = entry(vec![], vec![(d(105, 0), d(1, 0))], d(50, 0), d(1, 0), d(1, 0));
    let out = do_entry_arbitrage(req).unwrap();
    assert!(out.fills.is_empty());
    assert!(!out.completed);
}

#[test]
fn entry_zero_spot_price_is_an_arithmetic_error() {
    let req = entry(vec![(d(0, 0), d(1, 0))], vec![(d(105, 0), d(1, 0))], d(50, 0), d(1, 0), d(1, 0));
    assert_eq!(do_entry_arbitrage(req).unwrap_err(), ArbitrageError::Arithmetic);
}

#[test]
fn exit_closes_part_of_the_position() {
    // premium (101 - 100) / 100 * 100 = 1 >= 0.5; the future level has 1
    let req = ExitRequest {
        spot_orders: vec![(d(101, 0), d(2, 0))],
        future_orders: vec![(d(100, 0), d(1, 0))],
        executed: d(15, 1),
        percent: d(5, 1),
        contract_size: d(1, 0),
    };
    let out = do_exit_arbitrage(req).unwrap();
    assert_eq!(out.fills.len(), 1);
    assert!(same(out.fills[0].spot_price, d(101, 0)));
    assert!(same(out.fills[0].future_price, d(100, 0)));
    assert!(same(out.fills[0].quantity, d(1, 0)));
    assert!(same(out.remaining, d(5, 1)));
    assert!(!out.completed);
}

#[test]
fn exit_closes_the_whole_position() {
    let req = ExitRequest {
        spot_orders: vec![(d(101, 0), d(2, 0))],
        future_orders: vec![(d(100, 0), d(1, 0))],
        executed: d(1, 0),
        percent: d(5, 1),
        contract_size: d(1, 0),
    };
    let out = do_exit_arbitrage(req).unwrap();
    assert!(same(out.remaining, d(0, 0)));
    assert!(out.completed);
}

#[test]
fn exit_below_threshold_keeps_the_position() {
    let req = ExitRequest {
        spot_orders: vec![(d(100, 0), d(2, 0))],
        future_orders: vec![(d(101, 0), d(1, 0))],
        executed: d(1, 0),
        percent: d(5, 1),
        contract_size: d(1, 0),
    };
    let out = do_exit_arbitrage(req).unwrap();
    assert!(out.fills.is_empty());
    assert!(same(out.remaining, d(1, 0)));
    assert!(!out.completed);
}

#[test]
fn exit_with_nothing_open_is_completed() {
    let req = ExitRequest {
        spot_orders: vec![(d(101, 0), d(2, 0))],
        future_orders: vec![(d(100, 0), d(1, 0))],
        executed: d(0, 0),
        percent: d(5, 1),
        contract_size: d(1, 0),
    };
    let out = do_exit_arbitrage(req).unwrap();
    assert!(out.fills.is_empty());
    assert!(out.completed);
}

#[test]
fn exit_zero_future_price_is_an_arithmetic_error() {
    let req = ExitRequest {
        spot_orders: vec![(d(101, 0), d(2, 0))],
        future_orders: vec![(d(0, 0), d(1, 0))],
        executed: d(1, 0),
        percent: d(5, 1),
        contract_size: d(1, 0),
    };
    assert_eq!(do_exit_arbitrage(req).unwrap_err(), ArbitrageError::Arithmetic);
}

#[test]
fn do_arbitrage_runs_the_requested_matcher() {
    let req = entry(vec![(d(100, 0), d(1, 0))], vec![(d(1005, 1), d(1, 0))], d(50, 0), d(1, 0), d(1, 1));
    match do_arbitrage(ArbitrageRequest::Entry(req)).unwrap() {
        ArbitrageOutcome::Entry(o) => assert!(same(o.executed, d(5, 1))),
        ArbitrageOutcome::Exit(_) => panic!("wrong matcher"),
    }
    let req = ExitRequest {
        spot_orders: vec![(d(101, 0), d(2, 0))],
        future_orders: vec![(d(100, 0), d(1, 0))],
        executed: d(1, 0),
        percent: d(5, 1),
        contract_size: d(1, 0),
    };
    match do_arbitrage(ArbitrageRequest::Exit(req)).unwrap() {
        ArbitrageOutcome::Exit(o) => assert!(o.completed),
        ArbitrageOutcome::Entry(_) => panic!("wrong matcher"),
    }
}

#[test]
fn clean_residual_zeroes_dust_only() {
    let eps = d(1, 12);
    assert!(same(clean_residual(d(1, 13), eps), d(0, 0)));
    assert!(same(clean_residual(d(-1, 13), eps), d(0, 0)));
    assert!(same(clean_residual(d(1, 12), eps), d(1, 12)));
    assert!(same(clean_residual(d(25, 1), eps), d(25, 1)));
}

#[test]
fn tolerance_band_is_inclusive() {
    // band [99, 101] around 100 at 1%
    assert_eq!(is_outside_tolerance(d(100, 0), d(99, 0), d(1, 0)), Some(false));
    assert_eq!(is_outside_tolerance(d(100, 0), d(101, 0), d(1, 0)), Some(false));
    assert_eq!(is_outside_tolerance(d(100, 0), d(1011, 1), d(1, 0)), Some(true));
    assert_eq!(is_outside_tolerance(d(100, 0), d(989, 1), d(1, 0)), Some(true));
}

#[test]
fn directions_are_distinct() {
    assert_ne!(ArbitrageDirection::Entry, ArbitrageDirection::Exit);
}
