use std::sync::Arc;
use vstd::prelude::*;

pub mod channel;
pub mod consumer;
pub mod engine;
pub mod producer;
pub mod rate;
pub mod shutdown;
pub mod trace;

verus! {

/// The callbacks of a run: one for the end of the ticker, one for the end of
/// each processor.
pub struct RunEvents<T, P> {
    pub on_ticker_killed: Arc<T>,
    pub on_processor_killed: Arc<P>,
}

} // verus!
