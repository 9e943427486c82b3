//! A synthetic-load engine: a rate calculator that spreads a target rate over
//! fixed ticks, the decisions of a producer, an admission governor and a pool
//! of workers, and a coordinator that broadcasts one cancellation and waits
//! until every task has let go of its handle.

pub mod internal;
