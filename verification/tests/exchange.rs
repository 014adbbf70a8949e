use arbitrage_core::account::{apply_order, Balance, Order, OrderRequest, SharedState};
use arbitrage_core::assets::{
    assets_by_symbol, assign_worker, binance_assets, cross_assets, gate_assets, Asset, BinanceSymbolInfo,
    GateSymbolInfo, MarketType,
};
use arbitrage_core::catalog::{build_catalog, put_item, symbol_entry, Item, SymbolData, SymbolItem};
use arbitrage_core::clock::{cached_offset, server_now, time_offset};
use arbitrage_core::decimal::Dec;
use arbitrage_core::mexc::{
    classify_api_error, join_params, order_from_push, orders_start_time,
    sign_request, signed_query, sort_params, ExchangeError,
};
use arbitrage_core::symbols::{
    before, binance_depth_stream, binance_normalize_symbol, future_symbol, gate_book_channel,
    gate_normalize_symbol, gate_split_name, is_mexc_private_orders_channel, mexc_depth_channel,
    mexc_depth_channel_symbol, mexc_normalize_symbol, spot_symbol,
};
use hmac::Mac;

fn d(m: i64, s: u32) -> Dec {
    Dec::new(m, s)
}

fn same(a: Dec, b: Dec) -> bool {
    a == b
}

fn s(x: &str) -> String {
    x.to_string()
}

#[test]
fn before_cuts_at_the_first_character() {
    assert_eq!(before("BTC/USDT:USDT", ':'), "BTC/USDT");
    assert_eq!(before("BTC/USDT", ':'), "BTC/USDT");
    assert_eq!(before(":x", ':'), "");
}

#[test]
fn normalized_symbols() {
    assert_eq!(binance_normalize_symbol("BTC/USDT"), "BTCUSDT@spot");
    assert_eq!(binance_normalize_symbol("BTC/USDT:USDT"), "BTCUSDT@future");
    assert_eq!(gate_normalize_symbol("BTC/USDT:USDT"), "BTC_USDT");
    assert_eq!(gate_normalize_symbol("ETH/USDT"), "ETH_USDT");
    assert_eq!(mexc_normalize_symbol("btc/usdt"), "BTCUSDT");
}

#[test]
fn unified_symbols() {
    assert_eq!(spot_symbol("BTC", "USDT"), "BTC/USDT");
    assert_eq!(future_symbol("BTC", "USDT", "USDT"), "BTC/USDT:USDT");
    assert_eq!(gate_split_name("BTC_USDT"), (s("BTC"), s("USDT")));
    assert_eq!(gate_split_name("BTC"), (s("BTC"), s("")));
}

#[test]
fn stream_and_channel_names() {
    assert_eq!(binance_depth_stream("BTCUSDT"), "btcusdt@depth@100ms");
    assert_eq!(gate_book_channel(false), "spot.order_book_update");
    assert_eq!(gate_book_channel(true), "futures.order_book_update");
    let ch = mexc_depth_channel("BTCUSDT");
    assert_eq!(ch, "spot@public.increase.depth.batch.v3.api.pb@BTCUSDT");
    assert_eq!(mexc_depth_channel_symbol(&ch), Some(s("BTCUSDT")));
    assert_eq!(mexc_depth_channel_symbol("spot@private.orders.v3.api.pb"), None);
    assert!(is_mexc_private_orders_channel("spot@private.orders.v3.api.pb"));
    assert!(!is_mexc_private_orders_channel("spot@public.deals"));
}

#[test]
fn binance_assets_keep_trading_symbols() {
    let infos = vec![
        BinanceSymbolInfo { status: Some(s("TRADING")), base_asset: Some(s("BTC")), quote_asset: Some(s("USDT")) },
        BinanceSymbolInfo { status: Some(s("BREAK")), base_asset: Some(s("ETH")), quote_asset: Some(s("USDT")) },
        BinanceSymbolInfo { status: None, base_asset: Some(s("XRP")), quote_asset: Some(s("USDT")) },
    ];
    let spot = binance_assets(&infos, MarketType::Spot);
    assert_eq!(spot.len(), 1);
    assert_eq!(spot[0].symbol, "BTC/USDT");
    assert_eq!(spot[0].exchange, "Binance");
    let fut = binance_assets(&infos, MarketType::Future);
    assert_eq!(fut[0].symbol, "BTC/USDT:USDT");
    assert_eq!(fut[0].market, MarketType::Future);
}

#[test]
fn gate_assets_keep_tradable_markets() {
    let infos = vec![
        GateSymbolInfo { status: Some(s("trading")), trade_status: None, name: Some(s("BTC_USDT")), id: None },
        GateSymbolInfo { status: Some(s("delisted")), trade_status: None, name: Some(s("ETH_USDT")), id: None },
        GateSymbolInfo { status: None, trade_status: Some(s("tradable")), name: None, id: Some(s("SOL_USDT")) },
    ];
    let fut = gate_assets(&infos, MarketType::Future);
    assert_eq!(fut.len(), 1);
    assert_eq!(fut[0].symbol, "BTC/USDT:USDT");
    assert_eq!((fut[0].base.as_str(), fut[0].quote.as_str()), ("BTC", "USDT"));
    let spot = gate_assets(&infos, MarketType::Spot);
    assert_eq!(spot.len(), 1);
    assert_eq!(spot[0].symbol, "SOL/USDT");
    assert_eq!(spot[0].exchange, "Gate");
}

fn asset(symbol: &str, market: MarketType, exchange: &str) -> Asset {
    Asset { symbol: s(symbol), base: s("BTC"), quote: s("USDT"), market, exchange: s(exchange) }
}

#[test]
fn cross_assets_pairs_spot_with_future_per_symbol() {
    let entries = vec![
        (asset("BTC", MarketType::Spot, "A"), MarketType::Spot),
        (asset("BTC", MarketType::Future, "B"), MarketType::Future),
        (asset("ETH", MarketType::Spot, "A"), MarketType::Spot),
        (asset("BTC", MarketType::Spot, "C"), MarketType::Spot),
    ];
    let r = cross_assets(&entries);
    assert_eq!(r.len(), 1);
    assert_eq!(r[0].0, "BTC");
    let ex: Vec<(String, String)> = r[0].1.iter().map(|(a, b)| (a.exchange.clone(), b.exchange.clone())).collect();
    assert_eq!(ex, vec![(s("A"), s("B")), (s("C"), s("B"))]);
}

#[test]
fn workers_are_assigned_round_robin_once_per_symbol() {
    let mut map: Vec<(String, u32)> = Vec::new();
    let mut next = 0u32;
    assert_eq!(assign_worker(&mut map, &s("BTC"), &mut next, Some(2)), 0);
    assert_eq!(assign_worker(&mut map, &s("ETH"), &mut next, Some(2)), 1);
    assert_eq!(assign_worker(&mut map, &s("SOL"), &mut next, Some(2)), 0);
    assert_eq!(assign_worker(&mut map, &s("ETH"), &mut next, Some(2)), 1);
    assert_eq!(next, 3);
    assert_eq!(map.len(), 3);
    let mut wrap = u32::MAX;
    assert_eq!(assign_worker(&mut map, &s("XRP"), &mut wrap, None), u32::MAX);
    assert_eq!(wrap, 0);
}

#[test]
fn params_sort_and_join() {
    let sorted = sort_params(vec![(s("b"), s("2")), (s("a"), s("1")), (s("ab"), s("3"))]);
    assert_eq!(join_params(&sorted), "a=1&ab=3&b=2");
    assert_eq!(join_params(&vec![]), "");
}

#[test]
fn sign_request_needs_a_secret() {
    assert_eq!(sign_request(None, &vec![]), Err(ExchangeError::MissingCredentials));
    let sig = sign_request(Some("key"), &vec![(s("a"), s("1"))]).unwrap();
    let mut mac = hmac::Hmac::<sha2::Sha256>::new_from_slice(b"key").unwrap();
    mac.update(b"a=1");
    assert_eq!(sig, hex::encode(mac.finalize().into_bytes()));
}

#[test]
fn signed_query_adds_window_timestamp_and_signature() {
    let q = signed_query(vec![(s("symbol"), s("BTCUSDT")), (s("symbol"), s("ETHUSDT"))], 1700, Some("sec"), Some("key"))
        .unwrap();
    let base = "recvWindow=10000&symbol=ETHUSDT&timestamp=1700";
    let mut mac = hmac::Hmac::<sha2::Sha256>::new_from_slice(b"sec").unwrap();
    mac.update(base.as_bytes());
    let sig = hex::encode(mac.finalize().into_bytes());
    assert_eq!(q, format!("recvWindow=10000&signature={}&symbol=ETHUSDT&timestamp=1700", sig));
    assert_eq!(signed_query(vec![], 1, None, Some("key")), Err(ExchangeError::MissingCredentials));
    let q = signed_query(vec![], -1700, Some("sec"), Some("key")).unwrap();
    assert!(q.starts_with("recvWindow=10000&signature="));
    assert!(q.ends_with("&timestamp=-1700"));
    assert_eq!(signed_query(vec![], 1, Some("sec"), None), Err(ExchangeError::MissingCredentials));
}

#[test]
fn api_errors_are_classified_by_code() {
    assert_eq!(classify_api_error(Some(10001), s("m")), ExchangeError::BadRequest(s("m")));
    assert_eq!(classify_api_error(Some(20000), s("m")), ExchangeError::AuthenticationError(s("m")));
    assert_eq!(classify_api_error(Some(39999), s("m")), ExchangeError::InvalidOrder(s("m")));
    assert_eq!(classify_api_error(Some(40000), s("m")), ExchangeError::ApiError(s("m")));
    assert_eq!(classify_api_error(None, s("m")), ExchangeError::ApiError(s("m")));
}

#[test]
fn orders_window_start() {
    assert_eq!(orders_start_time(1000, 500, 300), Ok(1200));
    assert_eq!(
        orders_start_time(i64::MIN + 10, 0, 100),
        Err(ExchangeError::ApiError(s("Duration is too long")))
    );
}

#[test]
fn pushed_orders_are_read() {
    let o = order_from_push(s("1"), "x", "10.5", 1, 3, s("BTC/USDT"), "0", "2").unwrap();
    assert!(same(o.amount, d(0, 0)));
    assert!(same(o.price, d(105, 1)));
    assert_eq!(o.side, "buy");
    assert_eq!(o.status, "filled");
    assert!(same(o.remaning, d(2, 0)));
    let o = order_from_push(s("2"), "1", "1", 2, 9, s("X"), "0", "0").unwrap();
    assert_eq!(o.side, "sell");
    assert_eq!(o.status, "unknown");
    assert!(order_from_push(s("3"), "1", "bad", 1, 1, s("X"), "0", "0").is_none());
}

fn order(id: &str, symbol: &str, side: &str, amount: Dec, price: Dec) -> Order {
    Order {
        id: s(id),
        symbol: s(symbol),
        side: s(side),
        amount,
        price,
        status: s("filled"),
        timestamp: 0,
        filled: d(0, 0),
        remaning: d(0, 0),
    }
}

fn usdt(acc: &[(String, Dec)]) -> Option<Dec> {
    acc.iter().find(|(k, _)| k == "USDT").map(|(_, v)| *v)
}

#[test]
fn orders_move_the_quote_balance() {
    let mut b = Balance::new();
    let buy = OrderRequest { symbol: s("BTC/USDT"), side: s("BUY"), amount: d(2, 0), price: d(10, 0) };
    assert_eq!(apply_order(&mut b, &buy), Some(()));
    assert!(same(usdt(&b.spot).unwrap(), d(-20, 0)));
    let short = OrderRequest { symbol: s("BTC/USDT:USDT"), side: s("sell"), amount: d(1, 0), price: d(10, 0) };
    assert_eq!(apply_order(&mut b, &short), Some(()));
    assert!(same(usdt(&b.future).unwrap(), d(-10, 0)));
    let other = OrderRequest { symbol: s("BTC/USDT"), side: s("hold"), amount: d(1, 0), price: d(1, 0) };
    assert_eq!(apply_order(&mut b, &other), Some(()));
    assert!(same(usdt(&b.spot).unwrap(), d(-20, 0)));
    let upper = OrderRequest { symbol: s("BTC/USDT"), side: s("SELL"), amount: d(1, 0), price: d(5, 0) };
    assert_eq!(apply_order(&mut b, &upper), Some(()));
    assert!(same(usdt(&b.spot).unwrap(), d(-15, 0)));
    let mixed = OrderRequest { symbol: s("BTC/USDT:USDT"), side: s("Buy"), amount: d(1, 0), price: d(4, 0) };
    assert_eq!(apply_order(&mut b, &mixed), Some(()));
    assert!(same(usdt(&b.future).unwrap(), d(-6, 0)));
}

#[test]
fn shared_state_books_each_order_once() {
    let mut st = SharedState::new();
    let o = order("a", "BTC/USDT", "sell", d(1, 0), d(5, 0));
    assert_eq!(st.insert_order(o.clone(), 1_000), Some(()));
    assert_eq!(st.insert_order(o.clone(), 2_000), Some(()));
    assert_eq!(st.get_orders().len(), 1);
    assert!(same(usdt(&st.get_actual_balance().spot).unwrap(), d(5, 0)));
    // 31 seconds later the order is forgotten and books again
    assert_eq!(st.insert_order(o, 31_000_001_000), Some(()));
    assert_eq!(st.get_orders().len(), 1);
    assert!(same(usdt(&st.get_actual_balance().spot).unwrap(), d(10, 0)));
}

#[test]
fn temporary_balance_is_reset_to_the_booked_one() {
    let mut st = SharedState::new();
    let sim = OrderRequest { symbol: s("BTC/USDT"), side: s("buy"), amount: d(1, 0), price: d(3, 0) };
    assert_eq!(st.simulate_order(&sim), Some(()));
    assert!(same(usdt(&st.get_temporary_balance().spot).unwrap(), d(-3, 0)));
    assert!(st.get_actual_balance().spot.is_empty());
    st.reset_temporary_balance();
    assert!(st.get_temporary_balance().spot.is_empty());
}

fn item(cd: &str, vn: &str, mcd: &str) -> SymbolItem {
    SymbolItem { cd: s(cd), vn: s(vn), mcd: s(mcd), image: s("img") }
}

#[test]
fn catalog_items_are_ordered_by_name() {
    let entry = symbol_entry(&vec![item("1", "b", "S"), item("2", "a", "S"), item("3", "b", "T")]);
    assert_eq!(entry.id, "S");
    let names: Vec<(String, String)> = entry.items.iter().map(|(k, v)| (k.clone(), v.id.clone())).collect();
    assert_eq!(names, vec![(s("a"), s("2")), (s("b"), s("3"))]);
}

#[test]
fn put_item_replaces_or_inserts_in_order() {
    let mut items: Vec<(String, Item)> = Vec::new();
    put_item(&mut items, s("m"), Item { id: s("1"), image: s("") });
    put_item(&mut items, s("c"), Item { id: s("2"), image: s("") });
    put_item(&mut items, s("x"), Item { id: s("3"), image: s("") });
    put_item(&mut items, s("m"), Item { id: s("4"), image: s("") });
    let names: Vec<(String, String)> = items.iter().map(|(k, v)| (k.clone(), v.id.clone())).collect();
    assert_eq!(names, vec![(s("c"), s("2")), (s("m"), s("4")), (s("x"), s("3"))]);
}

#[test]
fn catalog_keeps_each_symbol_once() {
    let data = SymbolData {
        symbols: vec![
            (s("BTC"), vec![item("1", "a", "X")]),
            (s("ETH"), vec![item("2", "b", "Y")]),
            (s("BTC"), vec![item("3", "c", "Z")]),
        ],
    };
    let cat = build_catalog(&data);
    assert_eq!(cat.len(), 2);
    let btc = cat.iter().find(|(k, _)| k == "BTC").unwrap();
    assert_eq!(btc.1.id, "Z");
}

#[test]
fn clock_offsets() {
    assert_eq!(cached_offset(i64::MAX), None);
    assert_eq!(cached_offset(-5), Some(-5));
    assert_eq!(time_offset(1_000, 400), Some(600));
    assert_eq!(time_offset(i64::MIN, 1), None);
    assert_eq!(server_now(1_000, -400), Some(600));
    assert_eq!(server_now(i64::MAX, 1), None);
}

#[test]
fn an_order_is_remembered_for_thirty_seconds() {
    let mut st = SharedState::new();
    let o = order("z", "BTC/USDT:USDT", "buy", d(2, 0), d(3, 0));
    assert_eq!(st.insert_order(o.clone(), 5), Some(()));
    // exactly 30 seconds later the order is still remembered
    assert_eq!(st.insert_order(o, 30_000_000_005), Some(()));
    assert_eq!(st.get_orders().len(), 1);
    assert!(same(usdt(&st.get_actual_balance().future).unwrap(), d(6, 0)));
}

#[test]
fn assets_are_indexed_by_symbol() {
    let list = vec![
        asset("BTC", MarketType::Spot, "A"),
        asset("ETH", MarketType::Spot, "A"),
        asset("BTC", MarketType::Spot, "B"),
    ];
    let idx = assets_by_symbol(&list);
    assert_eq!(idx.len(), 2);
    let btc = idx.iter().find(|(k, _)| k == "BTC").unwrap();
    assert_eq!(btc.1.exchange, "B");
}
