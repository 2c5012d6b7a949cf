//! Providers of models.

pub mod encoding;
pub mod gemini_computer_use;
pub mod gemini_llm;
pub mod laws;
