//! Cooperative multitasking: the table of tasks, the queue of those that are
//! ready to run, and the decisions of the loop that runs them.

pub mod executor;
pub mod task;
