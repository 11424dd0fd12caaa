//! Verified core of a load-testing harness for a streaming data-pull RPC
//! service: the statistics aggregator that consumes completion events from
//! many concurrent workers, the worker-side event construction, and the
//! date-range expression parser that drives finite request sources.

pub mod command;
pub mod date;
pub mod date_range_parser;
pub mod hist;
pub mod laws;
pub mod stats;
pub mod worker;
