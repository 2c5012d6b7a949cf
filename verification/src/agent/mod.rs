//! Agents and their skills.

pub mod agentskill;
pub mod builder;
pub mod frontmatter;
pub mod laws;
pub mod llm_skill;
pub mod skill;
