use arbitrage_core::account::Order;
use arbitrage_core::assets::{Asset, MarketType};
use arbitrage_core::catch::{add_subscription, next_subscription_id, remove_subscription, OrderCatchState};
use arbitrage_core::channel::{ChannelState, Poll, SendError};
use arbitrage_core::decimal::Dec;
use arbitrage_core::http::{Body, BodyError, HttpBody, HttpRequestBuilder, PrepareError, RequestError};
use arbitrage_core::subscriptions::{choose_client, client_with_symbol, ClientChoice, Subscriptions};
use arbitrage_core::worker::{
    find_exchange, is_future_symbol, monitor_tasks, process_request, Arbitrage, ArbitrageResult, Credentials,
    Request, StartArbitrage, StartMonitor,
};
use arbitrage_core::ws_status::{
    connect_step, is_connected, is_connecting, status_after_connect, ws_step, ConditionalFuture, ConnectStatus,
    ConnectStatusRepr, ConnectStep, WsAction, WsEvent,
};

fn s(x: &str) -> String {
    x.to_string()
}

#[test]
fn channel_delivers_in_order() {
    let mut ch: ChannelState<u32> = ChannelState::new();
    assert!(ch.send(1).is_ok());
    assert!(ch.send(2).is_ok());
    assert_eq!(ch.try_recv(), Some(1));
    assert!(matches!(ch.poll_recv(2), Poll::Ready(Some(2))));
    assert!(matches!(ch.poll_recv(2), Poll::Pending));
    assert!(matches!(ch.poll_recv(1), Poll::Ready(None)));
    assert_eq!(ch.try_recv(), None);
}

#[test]
fn closed_channel_hands_the_message_back() {
    let mut ch: ChannelState<u32> = ChannelState::new();
    ch.send(5).ok();
    ch.close();
    match ch.send(7) {
        Err(e) => assert_eq!(e.into_inner(), 7),
        Ok(()) => panic!("sent on a closed channel"),
    }
    assert!(ch.is_closed(3));
    assert_eq!(ch.try_recv(), Some(5));
    assert!(matches!(ch.poll_recv(3), Poll::Ready(None)));
    assert_eq!(SendError(3u8).into_inner(), 3);
}

#[test]
fn dropping_the_receiver_empties_the_buffer() {
    let mut ch: ChannelState<u32> = ChannelState::new();
    ch.send(1).ok();
    assert!(ch.sender_drop_wakes(2));
    assert!(!ch.sender_drop_wakes(3));
    assert!(ch.is_closed(1));
    assert!(!ch.is_closed(2));
    ch.drop_receiver();
    assert!(ch.buffer.is_empty());
    assert!(!ch.has_receiver);
}

fn order(id: &str) -> Order {
    Order {
        id: s(id),
        symbol: s("BTC/USDT"),
        side: s("buy"),
        amount: Dec::zero(),
        price: Dec::zero(),
        status: s("open"),
        timestamp: 0,
        filled: Dec::zero(),
        remaning: Dec::zero(),
    }
}

#[test]
fn catch_reader_gets_only_newer_orders() {
    let mut st = OrderCatchState::new();
    assert!(st.next_ready(0).is_none());
    st.record(order("a"));
    st.record(order("b"));
    st.record(order("c"));
    let r = st.next_ready(1).unwrap();
    assert_eq!(r.nonce, 3);
    let ids: Vec<String> = r.orders.iter().map(|o| o.id.clone()).collect();
    assert_eq!(ids, vec![s("b"), s("c")]);
    assert!(st.next_ready(3).is_none());
    assert_eq!(st.orders_after(0).len(), 3);
}

#[test]
fn subscription_lists() {
    let mut pending: Vec<(String, Vec<(u32, char)>)> = Vec::new();
    add_subscription(&mut pending, s("BTCUSDT"), 1, 'a');
    add_subscription(&mut pending, s("ETHUSDT"), 2, 'b');
    add_subscription(&mut pending, s("BTCUSDT"), 3, 'c');
    assert_eq!(pending.len(), 2);
    let btc = &pending.iter().find(|(k, _)| k == "BTCUSDT").unwrap().1;
    assert_eq!(btc, &vec![(1, 'a'), (3, 'c')]);
    let mut subs = btc.clone();
    remove_subscription(&mut subs, 1);
    assert_eq!(subs, vec![(3, 'c')]);
    remove_subscription(&mut subs, 9);
    assert_eq!(subs, vec![(3, 'c')]);
    assert_eq!(next_subscription_id(4), Some(5));
    assert_eq!(next_subscription_id(u32::MAX), None);
}

#[test]
fn watch_subscribes_once_and_queues_waiters() {
    let mut subs: Subscriptions<u8, u8> = Subscriptions::new();
    assert!(subs.watch(s("BTC"), 1, 10));
    assert!(!subs.watch(s("BTC"), 2, 11));
    assert!(subs.has_symbol(&s("BTC")));
    assert_eq!(subs.subscribed_count(), 1);
    assert_eq!(subs.book(&s("BTC")), Some(&1));
    assert_eq!(subs.take_waiters(&s("BTC")), Some(vec![10, 11]));
    assert_eq!(subs.unsubscribe(&s("BTC")), Some(1));
    assert!(!subs.has_symbol(&s("BTC")));
    subs.restore(s("ETH"), 3);
    assert_eq!(subs.subscribed_count(), 1);
    subs.clear();
    assert_eq!(subs.subscribed_count(), 0);
}

#[test]
fn client_choice() {
    assert_eq!(choose_client(&vec![(false, 3), (true, 5), (true, 1)], 4), ClientChoice::Existing(1));
    assert_eq!(choose_client(&vec![(false, 4), (false, 2)], 4), ClientChoice::WithRoom(1));
    assert_eq!(choose_client(&vec![(false, 4)], 4), ClientChoice::New);
    assert_eq!(choose_client(&vec![], 4), ClientChoice::New);
    assert_eq!(client_with_symbol(&vec![false, true, true]), Some(1));
    assert_eq!(client_with_symbol(&vec![false]), None);
}

#[test]
fn http_builder_collects_request_parts() {
    let req = HttpRequestBuilder::new(7u8, "GET", "https://example.test/a")
        .set_header("A", "1")
        .set_header("B", "2")
        .set_header("A", "3")
        .set_body(s("payload"))
        .into_request()
        .ok()
        .unwrap();
    assert_eq!(req.client, 7);
    assert_eq!(req.method, "GET");
    assert_eq!(req.url, "https://example.test/a");
    assert_eq!(req.headers, vec![(s("A"), s("3")), (s("B"), s("2"))]);
    assert_eq!(req.body, Some(Body::Text(s("payload"))));
    let bytes = HttpRequestBuilder::new((), "POST", "u").set_body(vec![1u8, 2]).into_request().ok().unwrap();
    assert_eq!(bytes.body, Some(Body::Bytes(vec![1, 2])));
    let none = HttpRequestBuilder::new((), "POST", "u").into_request().ok().unwrap();
    assert_eq!(none.body, None);
}

struct Unsendable;

impl HttpBody for Unsendable {
    fn body_spec(&self) -> Option<Body> {
        None
    }

    fn into_body(self) -> Option<Body> {
        None
    }
}

#[test]
fn http_builder_refuses_unsendable_bodies() {
    let r = HttpRequestBuilder::new((), "POST", "u").set_body(Unsendable).into_request();
    assert!(matches!(r, Err(PrepareError::Body(BodyError()))));
    assert_eq!(BodyError().message(), "Invalid body");
    assert_eq!(RequestError::MissingParams.message(), "Missing uri and method params");
    assert_eq!(RequestError::InvalidResponse.message(), "Invalid response");
    let st: &'static [u8] = b"xy";
    assert_eq!(st.into_body(), Some(Body::Static(&b"xy"[..])));
}

#[test]
fn connect_status_bytes() {
    assert_eq!(ConnectStatusRepr::from_status(ConnectStatus::Connecting).0, 0);
    assert_eq!(ConnectStatusRepr::from_status(ConnectStatus::Connected).0, 1);
    assert_eq!(ConnectStatusRepr::from_status(ConnectStatus::Disconnected).0, 2);
    assert_eq!(ConnectStatus::try_from_repr(ConnectStatusRepr(1)), Ok(ConnectStatus::Connected));
    assert_eq!(ConnectStatus::try_from_repr(ConnectStatusRepr(3)), Err(()));
    assert!(is_connected(ConnectStatusRepr(1)));
    assert!(is_connecting(ConnectStatusRepr(0)));
    assert_eq!(connect_step(ConnectStatusRepr(1)), ConnectStep::Done);
    assert_eq!(connect_step(ConnectStatusRepr(0)), ConnectStep::Wait);
    assert_eq!(connect_step(ConnectStatusRepr(2)), ConnectStep::Connect);
    assert_eq!(status_after_connect(true), ConnectStatusRepr(1));
    assert_eq!(status_after_connect(false), ConnectStatusRepr(2));
}

fn stop_text(a: WsAction<u8>) -> String {
    match a {
        WsAction::Stop(e) => e,
        _ => panic!("the loop goes on"),
    }
}

#[test]
fn ws_loop_steps() {
    assert!(matches!(ws_step::<u8>(WsEvent::PingTick(true)), WsAction::SendPing));
    assert_eq!(stop_text(ws_step(WsEvent::PingTick(false))), "Internal error in ping");
    assert!(matches!(ws_step::<u8>(WsEvent::Binary(vec![1])), WsAction::DeliverBinary(b) if b == vec![1]));
    assert!(matches!(ws_step::<u8>(WsEvent::Text("héllo".as_bytes().to_vec())), WsAction::DeliverText(t) if t == "héllo"));
    assert_eq!(stop_text(ws_step(WsEvent::Text(vec![0xff, 0xfe]))), "Parser utf8 failed");
    assert!(matches!(ws_step::<u8>(WsEvent::Ping(vec![9])), WsAction::SendPong(p) if p == vec![9]));
    assert!(matches!(ws_step::<u8>(WsEvent::Pong), WsAction::Ignore));
    assert_eq!(stop_text(ws_step(WsEvent::Close(s("Normal")))), "Closed socket: Normal");
    assert_eq!(stop_text(ws_step(WsEvent::Continuation)), "Unsupported continuation");
    assert_eq!(stop_text(ws_step(WsEvent::Error(s("bad frame")))), "WebSocket error: bad frame");
    assert_eq!(stop_text(ws_step(WsEvent::StreamEnded)), "Closed channel [message]");
    assert!(matches!(ws_step(WsEvent::Command(Some(4u8))), WsAction::Send(4)));
    assert_eq!(stop_text(ws_step(WsEvent::Command(None))), "Closed channel [maybe_cmd]");
    assert!(matches!(ws_step::<u8>(WsEvent::HandlerDone(true)), WsAction::Ignore));
    assert_eq!(stop_text(ws_step(WsEvent::HandlerDone(false))), "Wsclient failed");
    assert_eq!(stop_text(ws_step(WsEvent::SendDone(None))), "Closed channel [ext_res]");
    assert_eq!(stop_text(ws_step(WsEvent::SendDone(Some(Err(s("x")))))), "Send external failed: x");
    assert!(matches!(ws_step::<u8>(WsEvent::SendDone(Some(Ok(())))), WsAction::Ignore));
}

#[test]
fn conditional_future_gives_value_or_future() {
    let mut f = ConditionalFuture::new(5u8);
    assert_eq!(f.take(), 5);
    assert_eq!(ConditionalFuture::<u8>::outcome(5u8, Some("done")), Ok("done"));
    assert_eq!(ConditionalFuture::<u8>::outcome::<&str>(5u8, None), Err(5));
}

fn asset(base: &str, quote: &str, market: MarketType, exchange: &str) -> Asset {
    Asset { symbol: s(""), base: s(base), quote: s(quote), market, exchange: s(exchange) }
}

#[test]
fn monitor_plan_watches_both_legs() {
    let items = vec![Arbitrage::new(
        asset("BTC", "USDT", MarketType::Spot, "Gate"),
        asset("BTC", "USDT", MarketType::Future, "Binance"),
    )];
    let names = vec![s("Binance"), s("Gate")];
    let tasks = monitor_tasks(&items, &names).unwrap();
    assert_eq!(tasks.len(), 2);
    assert_eq!(tasks[0].symbol, "BTC/USDT");
    assert_eq!(tasks[1].symbol, "BTC/USDT:USDT");
    assert_eq!((tasks[0].spot_exchange, tasks[0].future_exchange, tasks[0].item), (1, 0, 0));
    assert!(monitor_tasks(&items, &vec![s("Gate")]).is_none());
    assert_eq!(find_exchange(&names, &s("Gate")), Some(1));
    assert_eq!(find_exchange(&names, &s("Mexc")), None);
    assert!(is_future_symbol("BTC/USDT:USDT"));
    assert!(!is_future_symbol("BTC/USDT"));
}

#[test]
fn monitor_requests_start_with_zero_premiums() {
    let mut a = Arbitrage::new(
        asset("BTC", "USDT", MarketType::Spot, "Gate"),
        asset("BTC", "USDT", MarketType::Future, "Binance"),
    );
    a.result = ArbitrageResult { entry_percent: Dec::new(5, 0), exit_percent: Dec::new(-3, 0) };
    let m = StartMonitor::from_pairs(vec![a]);
    assert_eq!(m.items.len(), 1);
    assert!(m.items[0].result.entry_percent.is_zero());
    assert!(m.items[0].result.exit_percent.is_zero());
    assert_eq!(m.items[0].spot.exchange, "Gate");
    assert!(process_request(Request::StartMonitor(m)).is_some());
    let trade = StartArbitrage {
        symbol: s("BTC/USDT"),
        quantity: Dec::new(1, 0),
        max_per_order: Dec::new(1, 0),
        entry_percent: Dec::new(1, 0),
        exit_percent: Dec::new(1, 0),
        index: 0,
        is_loop: false,
        credentials: Credentials { api_key: s("k"), secret: s("s"), web_token: s("t") },
    };
    assert!(process_request(Request::StartArbitrage(trade)).is_none());
}
