use vstd::prelude::*;

pub mod aggregator;
pub mod aster;
pub mod auth;
pub mod binance;
pub mod bingx;
pub mod bitget;
pub mod bybit;
pub mod chunks;
pub mod config;
pub mod history;
pub mod hyperliquid;
pub mod json;
pub mod kucoin;
pub mod listing;
pub mod materialize;
pub mod mexc;
pub mod num;
pub mod reconnect;
pub mod retention;
pub mod scale;
pub mod session;
pub mod sink;
pub mod stream;
pub mod supervisor;
pub mod sysmetrics;
pub mod text;
pub mod timeframes;
pub mod trade;
pub mod url;
pub mod traits;
pub mod types;

verus! {

} // verus!
