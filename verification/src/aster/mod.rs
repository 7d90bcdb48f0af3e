//! Aster: the Binance dialect on other hosts.

pub mod instruments_info;
pub mod aster_ws;
