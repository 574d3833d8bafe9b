//! The states of a task, the events a subscriber receives, and the errors
//! of workers and handlers.

use vstd::prelude::*;

verus! {

/// Where a task is in its life: waiting in the queue, being run by a
/// worker, or finished.
#[derive(Copy, Clone, Eq, PartialEq, Structural, Debug)]
pub enum TaskState {
    Queued,
    Running,
    Done,
}

/// What a subscriber of a task is told.
#[derive(Copy, Clone, Eq, PartialEq, Structural, Debug)]
pub enum TaskSubscriberEvent {
    CommInit,
    TaskDone,
}

/// The errors of a worker thread.
#[derive(Debug)]
pub enum WorkerError {
    /// A message could not be sent to the worker.
    Channel(String),
    /// The worker's thread could not be joined.
    Join,
}

/// The errors of a task.
#[derive(Debug)]
pub enum TaskError {
    Worker(WorkerError),
}

} // verus!
