//! BingX: spot and USDT-margined swaps.

pub mod instruments_info;
pub mod symbols;
pub mod bingx_trade;
pub mod bingx_ws;
