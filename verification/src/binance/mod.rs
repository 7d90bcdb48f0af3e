//! Binance: spot and USD-M futures.

pub mod futures_info;
pub mod spot_info;
pub mod futures_trade;
pub mod futures_ws;
pub mod spot_ws;
pub mod streams;
