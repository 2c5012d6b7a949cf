//! Verified core of an agent development kit.

pub mod a2a;
pub mod agent;
pub mod errors;
pub mod json;
pub mod laws;
pub mod models;
pub mod runtime;
pub mod text;
pub mod tools;
