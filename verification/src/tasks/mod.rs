//! Background tasks: the logging interface that tasks write to, the states
//! of a task, and the decisions of the handler that hands tasks to workers.

pub mod handler;
pub mod logging;
pub mod state;
