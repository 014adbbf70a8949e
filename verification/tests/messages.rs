use arbitrage_core::decimal::Dec;
use arbitrage_core::depth_event::{binance_depth_event, depth_snapshot, gate_depth_event, LevelForm};
use arbitrage_core::json::{i64_field, parse_json, Json};
use arbitrage_core::mexc::error_code_of_text;

fn doc(text: &str) -> Json {
    parse_json(text).expect("valid JSON")
}

fn levels(side: &Option<Vec<(Dec, Dec)>>) -> Option<Vec<(i128, u32, i128, u32)>> {
    side.as_ref().map(|v| v.iter().map(|(p, q)| (p.mantissa(), p.scale(), q.mantissa(), q.scale())).collect())
}

#[test]
fn binance_event_reads_symbol_ids_and_sides() {
    let msg = doc(r#"{"e":"depthUpdate","s":"BTCUSDT","U":10,"u":12,"pu":9,"b":[["100.5","1"]],"a":[["101","0"]]}"#);
    let e = binance_depth_event(&msg).unwrap();
    assert_eq!(e.symbol, "BTCUSDT");
    assert_eq!((e.first, e.last, e.prev, e.full), (10, 12, Some(9), false));
    assert_eq!(levels(&e.bids), Some(vec![(1005, 1, 1, 0)]));
    assert_eq!(levels(&e.asks), Some(vec![(101, 0, 0, 0)]));
    let u = e.into_update().unwrap();
    assert_eq!((u.first_update_id, u.last_update_id, u.full), (10, 12, false));
    assert_eq!(u.bids.len(), 1);
}

#[test]
fn binance_event_needs_symbol_and_both_ids() {
    assert!(binance_depth_event(&doc(r#"{"s":"BTCUSDT","U":10,"b":[],"a":[]}"#)).is_none());
    assert!(binance_depth_event(&doc(r#"{"s":"BTCUSDT","u":10,"b":[],"a":[]}"#)).is_none());
    assert!(binance_depth_event(&doc(r#"{"U":1,"u":10,"b":[],"a":[]}"#)).is_none());
    assert!(binance_depth_event(&doc(r#"{"s":5,"U":1,"u":10}"#)).is_none());
    assert!(binance_depth_event(&doc(r#"{"s":"X","U":-1,"u":10}"#)).is_none());
    assert!(binance_depth_event(&doc(r#"{"s":"X","U":1.0,"u":10}"#)).is_none());
    assert!(binance_depth_event(&doc(r#"["s","U","u"]"#)).is_none());
    let e = binance_depth_event(&doc(r#"{"s":"X","U":1,"u":18446744073709551615}"#)).unwrap();
    assert_eq!(e.last, u64::MAX);
    assert!(binance_depth_event(&doc(r#"{"s":"X","U":1,"u":18446744073709551616}"#)).is_none());
}

#[test]
fn binance_sides_are_read_only_from_strings() {
    let e = binance_depth_event(&doc(r#"{"s":"X","U":1,"u":2,"b":[[100,"1"]],"a":[["1","2","extra"]]}"#)).unwrap();
    assert!(e.bids.is_none());
    assert_eq!(levels(&e.asks), Some(vec![(1, 0, 2, 0)]));
    assert_eq!(e.prev, None);
    assert!(e.into_update().is_none());
    let missing = binance_depth_event(&doc(r#"{"s":"X","U":1,"u":2,"a":[]}"#)).unwrap();
    assert!(missing.bids.is_none());
    assert_eq!(levels(&missing.asks), Some(vec![]));
}

#[test]
fn gate_spot_event_reads_result() {
    let msg = doc(r#"{"time":1,"result":{"s":"BTC_USDT","U":5,"u":7,"full":true,"b":[["1","2"]],"a":[]}}"#);
    let e = gate_depth_event(&msg, false).unwrap();
    assert_eq!(e.symbol, "BTC_USDT");
    assert_eq!((e.first, e.last, e.prev, e.full), (5, 7, None, true));
    assert_eq!(levels(&e.bids), Some(vec![(1, 0, 2, 0)]));
    let not_full = gate_depth_event(&doc(r#"{"result":{"s":"A","U":5,"u":7,"full":"yes"}}"#), false).unwrap();
    assert!(!not_full.full);
    assert!(gate_depth_event(&doc(r#"{"s":"A","U":5,"u":7}"#), false).is_none());
}

#[test]
fn gate_futures_levels_are_items() {
    let msg = doc(r#"{"result":{"s":"BTC_USDT","U":5,"u":7,"b":[{"p":"1.5","s":10}],"a":[["1e2",3]]}}"#);
    let e = gate_depth_event(&msg, true).unwrap();
    assert_eq!(levels(&e.bids), Some(vec![(15, 1, 10, 0)]));
    assert_eq!(levels(&e.asks), Some(vec![(100, 0, 3, 0)]));
    let spot = gate_depth_event(&msg, false).unwrap();
    assert!(spot.bids.is_none());
    let three = gate_depth_event(&doc(r#"{"result":{"s":"A","U":5,"u":7,"b":[["1","2","3"]]}}"#), true).unwrap();
    assert!(three.bids.is_none());
    let no_size = gate_depth_event(&doc(r#"{"result":{"s":"A","U":5,"u":7,"b":[{"p":"1"}]}}"#), true).unwrap();
    assert!(no_size.bids.is_none());
}

#[test]
fn snapshots_read_id_and_sides() {
    let b = depth_snapshot(&doc(r#"{"lastUpdateId":100,"bids":[["1","2"]],"asks":[[3,"4.5"]]}"#), "lastUpdateId", LevelForm::Pair)
        .unwrap();
    assert_eq!(b.id, 100);
    assert_eq!(b.bids.len(), 1);
    assert_eq!((b.asks[0].0.mantissa(), b.asks[0].1.mantissa(), b.asks[0].1.scale()), (3, 45, 1));
    let g = depth_snapshot(&doc(r#"{"id":9,"bids":[{"p":"1","s":2}],"asks":[]}"#), "id", LevelForm::Item).unwrap();
    assert_eq!(g.id, 9);
    assert!(depth_snapshot(&doc(r#"{"id":9,"bids":[{"p":"1","s":2}],"asks":[]}"#), "id", LevelForm::Pair).is_none());
    assert!(depth_snapshot(&doc(r#"{"bids":[],"asks":[]}"#), "id", LevelForm::Pair).is_none());
    assert!(depth_snapshot(&doc(r#"{"id":1,"bids":[]}"#), "id", LevelForm::Pair).is_none());
}

#[test]
fn error_code_is_an_integer_code_member() {
    assert_eq!(error_code_of_text(r#"{"code":10001,"msg":"x"}"#), Some(10001));
    assert_eq!(error_code_of_text(r#"{"code":-5}"#), Some(-5));
    assert_eq!(error_code_of_text(r#"{"code":-9223372036854775808}"#), Some(i64::MIN));
    assert_eq!(error_code_of_text(r#"{"code":9223372036854775808}"#), None);
    assert_eq!(error_code_of_text(r#"{"code":"1"}"#), None);
    assert_eq!(error_code_of_text(r#"{"code":1.5}"#), None);
    assert_eq!(error_code_of_text(r#"{"msg":"x"}"#), None);
    assert_eq!(error_code_of_text("not json"), None);
}

#[test]
fn server_time_field() {
    assert_eq!(i64_field(&doc(r#"{"serverTime":1700000000000}"#), "serverTime"), Some(1700000000000));
    assert_eq!(i64_field(&doc(r#"{"time":1}"#), "serverTime"), None);
    assert!(parse_json("{").is_none());
}
