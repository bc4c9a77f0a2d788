//! Repository layer of a small task tracker: tasks, labels, the fold that turns
//! joined rows into tasks with their labels, the in-memory stores, and the
//! step-by-step plans of the relational stores' units of work.

pub mod engine;
pub mod error;
pub mod fold_laws;
pub mod join;
pub mod label;
pub mod label_memory;
pub mod label_work;
pub mod laws;
pub mod statement;
pub mod todo;
pub mod todo_memory;
pub mod todo_work;
pub mod work_laws;
