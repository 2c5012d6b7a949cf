//! Building agents.

use radkit::agent::agentskill::AgentSkillDef;
use radkit::agent::builder::{Agent, AgentBuilder, AgentDefinition};
use radkit::agent::frontmatter::SkillFrontmatter;
use radkit::agent::skill::{RegisteredSkill, SkillMetadata};
use std::collections::HashMap;
use std::sync::Arc;

/// What handles requests in these tests: a name.
type Handler = &'static str;

struct DummySkill;

impl RegisteredSkill<Handler> for DummySkill {
    fn metadata() -> Arc<SkillMetadata> {
        Arc::new(SkillMetadata::new(
            "dummy_skill",
            "Dummy Skill",
            "A test skill used for verifying registration behaviour.",
            &[],
            &[],
            &[],
            &[],
        ))
    }

    fn into_handler(self) -> Handler {
        "dummy"
    }
}

struct SecondarySkill;

impl RegisteredSkill<Handler> for SecondarySkill {
    fn metadata() -> Arc<SkillMetadata> {
        Arc::new(SkillMetadata::new(
            "secondary_skill",
            "Secondary Skill",
            "A second skill for ordering tests.",
            &["order"],
            &["an example"],
            &["text/plain"],
            &["text/plain"],
        ))
    }

    fn into_handler(self) -> Handler {
        "secondary"
    }
}

/// The name and the description in a head.
fn read_head(yaml: &str) -> Result<SkillFrontmatter, String> {
    let fields: HashMap<String, String> =
        serde_yaml::from_str(yaml).map_err(|e| e.to_string())?;
    let field = |key: &str| fields.get(key).cloned().ok_or(format!("missing field `{key}`"));
    Ok(SkillFrontmatter {
        name: field("name")?,
        description: field("description")?,
        license: None,
        compatibility: None,
        allowed_tools: None,
    })
}

fn builder() -> AgentBuilder<Handler> {
    Agent::builder()
}

const VALID_SKILL_MD: &str = "\
---
name: test-skill
description: A skill used in builder tests.
---

## Instructions

Do the thing.
";

#[test]
fn build_applies_defaults() {
    let agent = builder().with_name("Test".to_string()).build();

    assert_eq!(agent.name(), "Test");
    assert_eq!(agent.version(), "0.0.1");
    assert!(agent.description().is_none());
    assert!(agent.dispatcher_prompt().is_none());
    assert!(agent.skills().is_empty());
}

#[test]
fn build_preserves_all_fields() {
    let agent = builder()
        .with_name("Custom Agent".to_string())
        .with_version("1.2.3".to_string())
        .with_description("A helpful description".to_string())
        .with_dispatcher_prompt("Route wisely".to_string())
        .with_skill(DummySkill)
        .build();

    assert_eq!(agent.name(), "Custom Agent");
    assert_eq!(agent.version(), "1.2.3");
    assert_eq!(agent.description(), Some("A helpful description"));
    assert_eq!(agent.dispatcher_prompt(), Some("Route wisely"));

    let skills = agent.skills();
    assert_eq!(skills.len(), 1);
    assert_eq!(skills[0].id(), DummySkill::metadata().id);
    assert_eq!(skills[0].name(), DummySkill::metadata().name);
}

#[test]
fn skills_maintain_registration_order() {
    let agent = builder().with_skill(DummySkill).with_skill(SecondarySkill).build();

    let skills = agent.skills();
    assert_eq!(skills.len(), 2);
    assert_eq!(skills[0].id(), DummySkill::metadata().id);
    assert_eq!(skills[1].id(), SecondarySkill::metadata().id);
}

#[test]
fn with_skill_def_queues_pending_def() {
    let def = AgentSkillDef::from_skill_md_str(VALID_SKILL_MD, "", read_head).expect("valid skill");

    let builder = builder().with_name("Test".to_string()).with_skill_def(def);

    assert_eq!(builder.pending_skill_defs.len(), 1);
    assert_eq!(builder.pending_skill_defs[0].id(), "test-skill");
}

#[test]
fn multiple_skill_defs_maintain_order() {
    let def1 = AgentSkillDef::from_skill_md_str(VALID_SKILL_MD, "", read_head).expect("valid");
    let def2 = AgentSkillDef::from_skill_md_str(
        "---\nname: second-skill\ndescription: Another skill.\n---\nbody",
        "",
        read_head,
    )
    .expect("valid second skill");

    let builder = builder().with_skill_def(def1).with_skill_def(def2);

    assert_eq!(builder.pending_skill_defs.len(), 2);
    assert_eq!(builder.pending_skill_defs[0].id(), "test-skill");
    assert_eq!(builder.pending_skill_defs[1].id(), "second-skill");
}

#[test]
fn build_splits_correctly_via_into_parts() {
    let def = AgentSkillDef::from_skill_md_str(VALID_SKILL_MD, "", read_head).expect("valid skill");
    let (agent_def, pending) =
        builder().with_name("Test".to_string()).with_skill_def(def).into_parts();

    assert_eq!(agent_def.skills().len(), 0);
    assert_eq!(pending.len(), 1);
    assert_eq!(pending[0].id(), "test-skill");
}

#[test]
fn with_skill_dir_returns_error_for_nonexistent_path() {
    let result = builder().with_skill_dir(
        "/does/not/exist/SKILL.md",
        "exist",
        Err("No such file or directory (os error 2)".to_string()),
        read_head,
    );
    assert!(result.is_err());
}

#[test]
fn agentskill_and_rust_skill_can_coexist() {
    let def = AgentSkillDef::from_skill_md_str(VALID_SKILL_MD, "", read_head).expect("valid skill");
    let builder = builder().with_skill(DummySkill).with_skill_def(def);

    assert_eq!(builder.inner.skills.len(), 1);
    assert_eq!(builder.pending_skill_defs.len(), 1);
}

#[test]
fn from_agentdefinition_produces_empty_pending_defs() {
    let def = builder().with_name("Test".to_string()).build();
    let builder: AgentBuilder<Handler> = def.into();
    assert_eq!(builder.pending_skill_defs.len(), 0);
}

#[test]
fn skill_directories_are_queued() {
    let builder = builder()
        .with_skill_dir(
            "skills/test-skill/SKILL.md",
            "test-skill",
            Ok(VALID_SKILL_MD.to_string()),
            read_head,
        )
        .expect("valid skill");
    assert_eq!(builder.pending_skill_defs.len(), 1);
    assert_eq!(builder.pending_skill_defs[0].id(), "test-skill");
}

#[test]
fn registrations_give_their_parts() {
    let agent = builder().with_skill(DummySkill).with_skill(SecondarySkill).build();
    let skill = &agent.skills()[1];
    assert_eq!(*skill.handler(), "secondary");
    assert_eq!(skill.handler_arc(), "secondary");
    assert_eq!(skill.description(), "A second skill for ordering tests.");
    assert_eq!(skill.metadata().tags, vec!["order"]);
    assert_eq!(skill.metadata_arc().examples, vec!["an example"]);
    assert_eq!(skill.metadata().input_modes, vec!["text/plain"]);
    assert_eq!(skill.metadata().output_modes, vec!["text/plain"]);
}

#[test]
fn empty_versions_are_filled_in() {
    let agent: AgentDefinition<Handler> = builder().with_version(String::new()).build();
    assert_eq!(agent.version(), "0.0.1");
    let kept: AgentDefinition<Handler> = builder().with_version("2.0".to_string()).build();
    assert_eq!(kept.version(), "2.0");
}

#[test]
fn prompts_are_set_in_any_order() {
    let one = builder()
        .with_dispatcher_prompt("Route.".to_string())
        .with_name("Test".to_string())
        .with_skill(DummySkill)
        .build();
    let two = builder()
        .with_skill(DummySkill)
        .with_name("Test".to_string())
        .with_dispatcher_prompt("Route.".to_string())
        .build();
    for agent in [one, two] {
        assert_eq!(agent.dispatcher_prompt(), Some("Route."));
        assert_eq!(agent.name(), "Test");
        assert_eq!(agent.skills().len(), 1);
    }
}
