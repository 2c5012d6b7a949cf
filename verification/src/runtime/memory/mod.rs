//! Long-term memory: past conversations, user facts and documents, kept apart per user.

pub mod backends;
pub mod chunks;
pub mod extensions;
pub mod facades;
pub mod laws;
pub mod service;
pub mod types;
