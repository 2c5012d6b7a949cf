//! What happens while an agent runs.

pub mod context;
pub mod execution;
pub mod laws;
pub mod memory;
pub mod task_store;
pub mod web;
