//! Verified core of a spot/futures arbitrage engine: decimal order matching,
//! order books, depth-stream sequencing, premium monitoring, account balances,
//! exchange symbols and signed requests, and the decisions of the websocket,
//! HTTP and channel plumbing around them.
pub mod decimal;
pub mod arbitrage;
pub mod order_book;
pub mod depth_sync;
pub mod text;
pub mod symbols;
pub mod monitor;
pub mod account;
pub mod mexc;
pub mod assets;
pub mod channel;
pub mod catch;
pub mod keyed;
pub mod subscriptions;
pub mod ws_status;
pub mod http;
pub mod worker;
pub mod catalog;
pub mod clock;
pub mod json;
pub mod depth_event;
