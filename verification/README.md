# arbitrage_core

A spot/futures arbitrage engine whose decision logic is written in Verus and
proved against its contracts.

- `src/` — the verified library: decimal arithmetic on top of `rust_decimal`,
  the greedy entry/exit matchers (`arbitrage`), order books and depth-stream
  sequencing for Binance and Gate (`order_book`, `depth_sync`), the reading
  of their depth messages and snapshots out of JSON (`json`, `depth_event`), premium
  monitoring (`monitor`), account balances, symbol handling, signed Mexc
  queries, the Mexc symbol catalog, websocket connection decisions, HTTP
  request building and the bookkeeping of subscriptions and channels.
- `tests/` — executable tests of the library.
- `app/` — the service around it: the HTTP front, the exchange connections
  (ntex), JSON (serde) and the float-facing API of the matchers.
