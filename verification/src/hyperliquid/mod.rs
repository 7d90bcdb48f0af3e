//! Hyperliquid: USDC-margined perpetuals.

pub mod instruments_info;
pub mod native;
pub mod hyperliquid_trade;
pub mod hyperliquid_ws;
