//! Where tasks write their log: a [`LogStrategy`] chosen by the user, seen
//! by each task through a [`WorkerLogger`] that names the worker.

use vstd::prelude::*;
use std::sync::Arc;

verus! {

/// A sink for log messages, tagged with the id of the worker that wrote
/// them. Implemented by the user (for example on top of `tracing`).
pub trait LogStrategy {
    fn warn(&self, worker_id: u64, message: &str);

    fn error(&self, worker_id: u64, message: &str);

    fn info(&self, worker_id: u64, message: &str);

    fn debug(&self, worker_id: u64, message: &str);

    fn trace(&self, worker_id: u64, message: &str);
}

/// The log as one worker sees it: every message goes to the shared strategy
/// `L` under this worker's id.
pub struct WorkerLogger<L: LogStrategy + ?Sized> {
    pub logger: Arc<L>,
    pub worker_id: u64,
}

impl<L: LogStrategy + ?Sized> WorkerLogger<L> {
    /// The log of the worker `worker_id`.
    pub fn new(logger: Arc<L>, worker_id: u64) -> (r: Self)
        ensures
            r.logger == logger,
            r.worker_id == worker_id,
    {
        WorkerLogger { logger, worker_id }
    }

    /// Logs a warning under this worker's id.
    pub fn warn(&self, message: &str) {
        self.logger.warn(self.worker_id, message);
    }

    /// Logs an error under this worker's id.
    pub fn error(&self, message: &str) {
        self.logger.error(self.worker_id, message);
    }

    /// Logs information under this worker's id.
    pub fn info(&self, message: &str) {
        self.logger.info(self.worker_id, message);
    }

    /// Logs a debug message under this worker's id.
    pub fn debug(&self, message: &str) {
        self.logger.debug(self.worker_id, message);
    }

    /// Logs a trace message under this worker's id.
    pub fn trace(&self, message: &str) {
        self.logger.trace(self.worker_id, message);
    }
}

} // verus!
