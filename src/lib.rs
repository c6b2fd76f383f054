//! A fixed-size pool of worker threads fed by one closable FIFO of jobs.
//!
//! The library holds the pool's bookkeeping and decisions, generic over the job type
//! and the thread handle type, so that they can be proved: `queue::JobQueue` is the
//! shared queue and its laws, `pool::ThreadPool` the workers and the order in which
//! shutdown reaps them. Starting threads, locking and waiting stay with the caller.

pub mod pool;
pub mod queue;
pub mod routes;

pub use pool::{PoolCreationError, ThreadPool, Worker};
pub use queue::{JobQueue, Recv};
pub use routes::{Create, DeleteById, Get, GetById, UpdateById};
