//! A bounded FIFO queue core: a fixed-capacity buffer with verified
//! check-and-mutate operations, intended to sit behind a lock and a wake
//! signal as the backpressure primitive between producers and consumers.

pub mod model;
pub mod queue;
