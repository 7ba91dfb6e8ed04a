//! Job records and the batching hit counter that keeps their view counts.
//!
//! The hit counter takes "a job was viewed" events from any number of request
//! handlers, folds them into one pending delta per short code, and flushes the
//! deltas to storage in one batch per idle interval. Everything that decides
//! what happens lives here and is verified; the thread, the sleep and the
//! database calls are driven from outside through the small state machines of
//! [`worker`] and [`commit`].

pub mod ask;
pub mod commit;
pub mod counter;
pub mod field;
pub mod graph;
pub mod maintenance;
pub mod query;
pub mod store;
pub mod worker;
