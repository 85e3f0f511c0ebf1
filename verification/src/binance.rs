//! The venue's messages as typed values.

pub mod exchange_info;
pub mod fake;
pub mod snapshot;
pub mod stream;
pub mod types;
