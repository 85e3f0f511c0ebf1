//! A locally reconstructed level-2 order book for one trading symbol, the
//! synchronisation of its incremental updates against a snapshot, and the
//! market metrics derived from both.

pub mod binance;
pub mod book;
pub mod config;
pub mod decimal;
pub mod engine;
pub mod text;
pub mod tui;
