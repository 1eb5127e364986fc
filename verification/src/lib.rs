//! The scheduling core of a fixed-size worker pool.
//!
//! A pool is a fixed set of workers around one first-in, first-out queue of
//! jobs. Jobs go in at the back; each worker, whenever it is free, takes the
//! oldest one and runs it; closing the producer side of the queue is the
//! signal to wind down, and the pool is gone once every worker's thread has
//! been joined.
//!
//! This crate holds that logic and nothing else: the queue, the worker's
//! loop as a state machine, the pool's bookkeeping, and the proofs of what
//! the three guarantee together. It starts no threads and takes no locks.

pub mod laws;
pub mod model;
pub mod pool;
pub mod queue;
pub mod worker;

pub use crate::pool::ThreadPool;
pub use crate::queue::{JobQueue, Received};
pub use crate::worker::{Step, Worker, WorkerState};
