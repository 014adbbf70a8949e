use arbitrage_core::decimal::Dec;
use arbitrage_core::depth_sync::{
    apply_batch, binance_depth_action, binance_finish_sync, build_update, gate_depth_action, gate_finish_sync,
    gate_sync_start, gate_sync_step, parse_levels, snapshot_step, sort_updates, DepthAction, GateAction,
    GateSyncStep, SnapshotStep, GATE_SNAPSHOT_ATTEMPTS, GATE_SYNC_ATTEMPTS,
};
use arbitrage_core::monitor::{monitor_update, ArbitrageSnapshot};
use arbitrage_core::order_book::{get_price, OrderBook, OrderBookUpdate};

fn d(m: i64, s: u32) -> Dec {
    Dec::new(m, s)
}

fn same(a: Dec, b: Dec) -> bool {
    a == b
}

fn update(bids: Vec<(Dec, Dec)>, asks: Vec<(Dec, Dec)>, first: u64, last: u64) -> OrderBookUpdate {
    OrderBookUpdate { bids, asks, first_update_id: first, last_update_id: last, full: false }
}

fn levels(side: &[(Dec, Dec)]) -> Vec<(i128, u32, i128, u32)> {
    side.iter().map(|(p, q)| (p.mantissa(), p.scale(), q.mantissa(), q.scale())).collect()
}

#[test]
fn new_book_is_empty() {
    let book = OrderBook::new();
    assert!(book.get_bids().is_empty());
    assert!(book.get_asks().is_empty());
    assert_eq!(book.update_id(), 0);
}

#[test]
fn apply_update_orders_sides_and_sets_id() {
    let mut book = OrderBook::new();
    book.apply_update(&update(
        vec![(d(99, 0), d(1, 0)), (d(101, 0), d(2, 0)), (d(100, 0), d(3, 0))],
        vec![(d(105, 0), d(1, 0)), (d(103, 0), d(2, 0))],
        0,
        7,
    ));
    let bids = book.get_bids();
    let asks = book.get_asks();
    assert_eq!(levels(&bids), vec![(101, 0, 2, 0), (100, 0, 3, 0), (99, 0, 1, 0)]);
    assert_eq!(levels(&asks), vec![(103, 0, 2, 0), (105, 0, 1, 0)]);
    assert_eq!(book.update_id(), 7);
    assert!(same(book.best_ask_or(d(0, 0)), d(103, 0)));
    assert!(same(book.best_bid_or(d(0, 0)), d(101, 0)));
}

#[test]
fn zero_quantity_removes_a_level() {
    let mut book = OrderBook::new();
    book.apply_update(&update(vec![(d(100, 0), d(1, 0))], vec![(d(101, 0), d(1, 0))], 0, 5));
    book.apply_update(&update(vec![(d(1000, 1), d(0, 0))], vec![], 6, 6));
    assert!(book.get_bids().is_empty());
    assert_eq!(book.get_asks().len(), 1);
}

#[test]
fn last_entry_for_a_price_wins() {
    let mut book = OrderBook::new();
    book.apply_update(&update(vec![(d(100, 0), d(1, 0)), (d(100, 0), d(4, 0))], vec![], 0, 0));
    assert_eq!(levels(&book.get_bids()), vec![(100, 0, 4, 0)]);
}

#[test]
fn untouched_price_keeps_its_level() {
    let mut book = OrderBook::new();
    book.apply_update(&update(vec![(d(100, 0), d(1, 0)), (d(98, 0), d(2, 0))], vec![], 0, 3));
    book.apply_update(&update(vec![(d(100, 0), d(5, 0))], vec![], 4, 4));
    assert_eq!(levels(&book.get_bids()), vec![(100, 0, 5, 0), (98, 0, 2, 0)]);
}

#[test]
fn update_without_last_id_counts_up() {
    let mut book = OrderBook::new();
    book.apply_update(&update(vec![(d(100, 0), d(1, 0))], vec![], 0, 0));
    assert_eq!(book.update_id(), 1);
    book.apply_update(&update(vec![], vec![], 0, 0));
    assert_eq!(book.update_id(), 1);
}

#[test]
fn full_update_replaces_the_book() {
    let mut book = OrderBook::new();
    book.apply_update(&update(vec![(d(100, 0), d(1, 0))], vec![(d(101, 0), d(1, 0))], 0, 3));
    let mut full = update(vec![(d(90, 0), d(1, 0))], vec![], 4, 4);
    full.full = true;
    book.apply_update(&full);
    assert_eq!(levels(&book.get_bids()), vec![(90, 0, 1, 0)]);
    assert!(book.get_asks().is_empty());
}

#[test]
fn applying_a_diff_twice_is_applying_it_once() {
    let mut once = OrderBook::new();
    let mut twice = OrderBook::new();
    let start = update(vec![(d(100, 0), d(1, 0)), (d(99, 0), d(4, 0))], vec![(d(101, 0), d(2, 0))], 0, 3);
    once.apply_update(&start);
    twice.apply_update(&start);
    let diff = update(
        vec![(d(1000, 1), d(5, 0)), (d(99, 0), d(0, 0)), (d(98, 0), d(7, 0)), (d(98, 0), d(8, 0))],
        vec![(d(101, 0), d(0, 0)), (d(102, 0), d(3, 0))],
        4,
        9,
    );
    once.apply_update(&diff);
    twice.apply_update(&diff);
    twice.apply_update(&diff);
    assert_eq!(levels(&once.get_bids()), levels(&twice.get_bids()));
    assert_eq!(levels(&once.get_asks()), levels(&twice.get_asks()));
    assert_eq!(levels(&once.get_bids()), vec![(100, 0, 5, 0), (98, 0, 8, 0)]);
    assert_eq!(once.update_id(), 9);
    assert_eq!(twice.update_id(), 9);
}

#[test]
fn best_price_of_empty_side_is_the_default() {
    let book = OrderBook::new();
    assert!(same(book.best_ask_or(d(7, 0)), d(7, 0)));
    assert!(same(book.best_bid_or(d(7, 0)), d(7, 0)));
}

#[test]
fn get_price_gives_the_first_level() {
    let side = vec![(d(3, 0), d(1, 0)), (d(2, 0), d(5, 0))];
    let (p, q) = get_price(&side);
    assert!(same(p, d(3, 0)));
    assert!(same(q, d(1, 0)));
}

#[test]
fn from_levels_keeps_last_duplicate_and_zero_levels() {
    let book = OrderBook::from_levels(
        &vec![(d(1, 0), d(1, 0)), (d(2, 0), d(0, 0)), (d(1, 0), d(3, 0))],
        &vec![(d(5, 0), d(1, 0))],
        9,
    );
    assert_eq!(levels(&book.get_bids()), vec![(2, 0, 0, 0), (1, 0, 3, 0)]);
    assert_eq!(book.update_id(), 9);
}

#[test]
fn binance_actions() {
    assert_eq!(binance_depth_action(0, true, 5, 9, None), DepthAction::StartSync);
    assert_eq!(binance_depth_action(1, true, 5, 9, None), DepthAction::Buffer);
    assert_eq!(binance_depth_action(10, true, 5, 9, None), DepthAction::Ignore);
    assert_eq!(binance_depth_action(10, true, 12, 15, None), DepthAction::Resync);
    assert_eq!(binance_depth_action(10, true, 11, 15, None), DepthAction::Apply);
    assert_eq!(binance_depth_action(10, false, 11, 15, Some(10)), DepthAction::Apply);
    assert_eq!(binance_depth_action(10, false, 11, 15, Some(9)), DepthAction::Resync);
    assert_eq!(binance_depth_action(10, false, 11, 15, None), DepthAction::Ignore);
}

#[test]
fn gate_actions() {
    assert_eq!(gate_depth_action(0, 5, 9, true), GateAction::ApplyFull);
    assert_eq!(gate_depth_action(0, 5, 9, false), GateAction::StartSync);
    assert_eq!(gate_depth_action(1, 5, 9, false), GateAction::Buffer);
    assert_eq!(gate_depth_action(10, 11, 12, false), GateAction::Apply);
    assert_eq!(gate_depth_action(10, 5, 11, false), GateAction::Apply);
    assert_eq!(gate_depth_action(10, 12, 13, false), GateAction::Resync);
    assert_eq!(gate_depth_action(10, 5, 10, false), GateAction::Resync);
}

#[test]
fn sort_updates_is_stable_by_last_id() {
    let ups = vec![
        update(vec![(d(1, 0), d(1, 0))], vec![], 0, 5),
        update(vec![(d(2, 0), d(1, 0))], vec![], 0, 3),
        update(vec![(d(3, 0), d(1, 0))], vec![], 0, 5),
    ];
    let sorted = sort_updates(ups);
    let ids: Vec<u64> = sorted.iter().map(|u| u.last_update_id).collect();
    assert_eq!(ids, vec![3, 5, 5]);
    assert_eq!(sorted[1].bids[0].0.mantissa(), 1);
    assert_eq!(sorted[2].bids[0].0.mantissa(), 3);
}

#[test]
fn binance_sync_skips_stale_updates() {
    let snapshot = OrderBook::from_levels(&vec![(d(100, 0), d(1, 0))], &vec![], 10);
    let pending = vec![
        update(vec![(d(101, 0), d(1, 0))], vec![], 11, 12),
        update(vec![(d(99, 0), d(1, 0))], vec![], 5, 9),
    ];
    let book = binance_finish_sync(snapshot, pending, 12, true);
    assert_eq!(levels(&book.get_bids()), vec![(101, 0, 1, 0), (100, 0, 1, 0)]);
    assert_eq!(book.update_id(), 12);
}

#[test]
fn binance_futures_sync_takes_the_newest_id() {
    let snapshot = OrderBook::from_levels(&vec![], &vec![], 10);
    let book = binance_finish_sync(snapshot, vec![update(vec![], vec![], 11, 12)], 20, false);
    assert_eq!(book.update_id(), 20);
}

#[test]
fn gate_sync_finds_the_continuing_update() {
    let pending = vec![
        update(vec![], vec![], 1, 5),
        update(vec![(d(7, 0), d(1, 0))], vec![], 6, 11),
        update(vec![(d(8, 0), d(1, 0))], vec![], 12, 12),
    ];
    assert_eq!(gate_sync_start(&pending, 9), Some(1));
    assert_eq!(gate_sync_start(&pending, 20), None);
    let snapshot = OrderBook::from_levels(&vec![], &vec![], 9);
    let book = gate_finish_sync(snapshot, &pending, 1);
    assert_eq!(levels(&book.get_bids()), vec![(8, 0, 1, 0), (7, 0, 1, 0)]);
    assert_eq!(book.update_id(), 12);
}

#[test]
fn gate_sync_gap_marks_a_resync() {
    let pending = vec![update(vec![(d(7, 0), d(1, 0))], vec![], 10, 11), update(vec![], vec![], 20, 21)];
    let snapshot = OrderBook::from_levels(&vec![], &vec![], 9);
    let book = gate_finish_sync(snapshot, &pending, 0);
    assert_eq!(book.update_id(), 0);
    assert_eq!(book.get_bids().len(), 1);
}

#[test]
fn snapshot_step_waits_for_a_recent_snapshot() {
    assert_eq!(snapshot_step(0, 0, 0, Some(GATE_SNAPSHOT_ATTEMPTS)), SnapshotStep::Done);
    assert_eq!(snapshot_step(0, 10, 0, None), SnapshotStep::Fetch);
    assert_eq!(snapshot_step(9, 10, 3, None), SnapshotStep::Fetch);
    assert_eq!(snapshot_step(9, 10, 1000, None), SnapshotStep::Fetch);
    assert_eq!(snapshot_step(10, 10, 1, None), SnapshotStep::Done);
    assert_eq!(snapshot_step(12, 10, 5, Some(5)), SnapshotStep::Done);
    assert_eq!(snapshot_step(9, 10, 4, Some(5)), SnapshotStep::Fetch);
    assert_eq!(snapshot_step(9, 10, 5, Some(5)), SnapshotStep::GiveUp);
}

#[test]
fn gate_sync_step_starts_waits_or_gives_up() {
    let pending = vec![update(vec![], vec![], 3, 4), update(vec![], vec![], 5, 8), update(vec![], vec![], 9, 9)];
    assert_eq!(gate_sync_step(&pending, 6, 0), GateSyncStep::Start(1));
    assert_eq!(gate_sync_step(&pending, 20, 2), GateSyncStep::Wait);
    assert_eq!(gate_sync_step(&vec![], 6, 0), GateSyncStep::Wait);
    assert_eq!(gate_sync_step(&pending, 6, GATE_SYNC_ATTEMPTS), GateSyncStep::GiveUp);
}

#[test]
fn apply_batch_reports_a_moved_id() {
    let mut book = OrderBook::new();
    assert!(apply_batch(&mut book, &vec![update(vec![(d(1, 0), d(1, 0))], vec![], 0, 0)]));
    assert!(!apply_batch(&mut book, &vec![update(vec![], vec![], 0, 0)]));
    assert!(!apply_batch(&mut book, &vec![]));
}

#[test]
fn parse_levels_reads_decimal_text() {
    let parsed = parse_levels(&vec![("100.5".to_string(), "2".to_string())]).unwrap();
    assert_eq!(levels(&parsed), vec![(1005, 1, 2, 0)]);
    assert!(parse_levels(&vec![("abc".to_string(), "2".to_string())]).is_none());
    assert!(parse_levels(&vec![("1".to_string(), "".to_string())]).is_none());
    assert!(parse_levels(&vec![]).unwrap().is_empty());
}

#[test]
fn build_update_needs_every_level_to_parse() {
    let u = build_update(&vec![("1.5".to_string(), "3".to_string())], &vec![], 4, 9, true).unwrap();
    assert_eq!(levels(&u.bids), vec![(15, 1, 3, 0)]);
    assert!(u.asks.is_empty());
    assert_eq!((u.first_update_id, u.last_update_id, u.full), (4, 9, true));
    assert!(build_update(&vec![], &vec![("x".to_string(), "1".to_string())], 4, 9, false).is_none());
}

fn zero_snapshot() -> ArbitrageSnapshot {
    ArbitrageSnapshot::zero()
}

#[test]
fn monitor_first_prices_are_not_published() {
    // only the spot book is known: the future prices are still zero
    let u = monitor_update(&zero_snapshot(), false, d(100, 0), d(99, 0)).unwrap();
    assert!(!u.notify);
    assert!(same(u.snapshot.spot_ask, d(100, 0)));
    assert!(same(u.snapshot.spot_bid, d(99, 0)));
    // entry premium: future bid 0 against spot ask 100 is -100%
    assert!(same(u.snapshot.entry_percent, d(-100, 0)));
    // exit premium: future ask is zero, so zero
    assert!(same(u.snapshot.exit_percent, d(0, 0)));
}

#[test]
fn monitor_publishes_a_moved_premium() {
    let first = monitor_update(&zero_snapshot(), false, d(100, 0), d(99, 0)).unwrap();
    let u = monitor_update(&first.snapshot, true, d(1015, 1), d(101, 0)).unwrap();
    // entry: (101 - 100) / 100 * 100 = 1; exit: (99 - 101.5) / 101.5 * 100 = -2.46...
    assert!(same(u.snapshot.entry_percent, d(1, 0)));
    assert!(same(u.snapshot.exit_percent, d(-246, 2)));
    assert!(u.notify);
    // the same prices again move nothing
    let again = monitor_update(&u.snapshot, true, d(1015, 1), d(101, 0)).unwrap();
    assert!(!again.notify);
}

#[test]
fn monitor_does_not_publish_wild_premiums() {
    let first = monitor_update(&zero_snapshot(), false, d(100, 0), d(99, 0)).unwrap();
    let u = monitor_update(&first.snapshot, true, d(300, 0), d(200, 0)).unwrap();
    assert!(same(u.snapshot.entry_percent, d(100, 0)));
    assert!(!u.notify);
}

#[test]
fn gate_futures_update_reaches_the_monitor() {
    // a Gate futures diff: asks [{p: "1", s: 1}], bids [{p: "2", s: 1}]
    let u = build_update(
        &vec![("2".to_string(), "1".to_string())],
        &vec![("1".to_string(), "1".to_string())],
        212927173,
        212927202,
        false,
    )
    .unwrap();
    let mut book = OrderBook::new();
    book.apply_update(&u);
    assert_eq!(book.update_id(), 212927202);
    let ask = book.best_ask_or(d(0, 0));
    let bid = book.best_bid_or(d(0, 0));
    let m = monitor_update(&zero_snapshot(), true, ask, bid).unwrap();
    assert!(same(m.snapshot.future_ask, d(1, 0)));
    assert!(same(m.snapshot.future_bid, d(2, 0)));
    assert!(same(m.snapshot.entry_percent, d(0, 0)));
    assert!(same(m.snapshot.exit_percent, d(-100, 0)));
    assert!(!m.notify);
}
