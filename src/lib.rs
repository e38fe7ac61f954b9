//! A fixed-size worker pool and the request routing of a small HTTP responder.
//!
//! `pool` holds the dispatch and lifecycle rules of the pool: which worker gets
//! which job, when a submission is refused, and when the pool has shut down.
//! The threads that run those rules live outside the library; they ask the pool
//! what to do and report back what they did.
//!
//! `laws` states what holds of every run of the pool, proved over its model.
//!
//! `http` holds the routing of a request line and the framing of a response.

pub mod model;
pub mod http;
pub mod laws;
pub mod pool;

pub use model::{PoolModel, PoolState, WorkerStatus};
pub use pool::{Dispatch, PoolError, WorkerPool};
