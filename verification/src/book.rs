//! The integer-tick order book and the synchronisation of its updates.

pub mod orderbook;
pub mod scaler;
pub mod sync;
