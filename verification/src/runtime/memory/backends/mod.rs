//! Stores for long-term memory.

pub mod in_memory;
pub mod ranking;
