//! Per-connection price store behind a fixed-size binary protocol: clients
//! insert timestamped prices and query the mean price over a time range.

pub mod codec;
pub mod connection;
pub mod mean;
pub mod store;
