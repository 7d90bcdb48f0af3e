//! Bitget: spot and USDT-margined perpetuals.

pub mod instruments_info;
pub mod bitget_trade;
pub mod bitget_ws;
