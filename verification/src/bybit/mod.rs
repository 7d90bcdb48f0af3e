//! Bybit: spot and linear perpetuals.

pub mod instruments_info;
pub mod bybit_trade;
pub mod bybit_ws;
