//! Working on requests.

pub mod executor;
pub mod flow;
pub mod laws;
pub mod status_mapper;
