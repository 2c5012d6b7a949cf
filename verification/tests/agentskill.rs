//! Skills that are read from files.

use radkit::agent::agentskill::{
    to_display_name, validate_description, validate_skill_name, AgentSkillDef, IncludedSkill,
};
use radkit::agent::frontmatter::{
    check_shape, split_frontmatter, split_skill_file, with_body, SkillFrontmatter,
};
use radkit::errors::AgentError;
use serde::de::{Error, IgnoredAny, MapAccess, Visitor};
use serde::{Deserialize, Deserializer};
use std::collections::HashMap;

/// A head as `serde_yaml` reads it.
struct Head(SkillFrontmatter);

struct HeadVisitor;

fn fill<'de, A: MapAccess<'de>, T: Deserialize<'de>>(
    place: &mut Option<T>,
    key: &'static str,
    map: &mut A,
) -> Result<(), A::Error> {
    if place.is_some() {
        return Err(A::Error::duplicate_field(key));
    }
    *place = Some(map.next_value()?);
    Ok(())
}

impl<'de> Visitor<'de> for HeadVisitor {
    type Value = Head;

    fn expecting(&self, f: &mut std::fmt::Formatter<'_>) -> std::fmt::Result {
        f.write_str("struct SkillFrontmatter")
    }

    fn visit_map<A: MapAccess<'de>>(self, mut map: A) -> Result<Head, A::Error> {
        let mut name: Option<String> = None;
        let mut description: Option<String> = None;
        let mut license: Option<Option<String>> = None;
        let mut compatibility: Option<Option<String>> = None;
        let mut metadata: Option<HashMap<String, String>> = None;
        let mut allowed_tools: Option<Option<String>> = None;
        while let Some(key) = map.next_key::<String>()? {
            match key.as_str() {
                "name" => fill(&mut name, "name", &mut map)?,
                "description" => fill(&mut description, "description", &mut map)?,
                "license" => fill(&mut license, "license", &mut map)?,
                "compatibility" => fill(&mut compatibility, "compatibility", &mut map)?,
                "metadata" => fill(&mut metadata, "metadata", &mut map)?,
                "allowed-tools" => fill(&mut allowed_tools, "allowed-tools", &mut map)?,
                _ => {
                    map.next_value::<IgnoredAny>()?;
                }
            }
        }
        Ok(Head(SkillFrontmatter {
            name: name.ok_or_else(|| A::Error::missing_field("name"))?,
            description: description.ok_or_else(|| A::Error::missing_field("description"))?,
            license: license.flatten(),
            compatibility: compatibility.flatten(),
            allowed_tools: allowed_tools.flatten(),
        }))
    }
}

impl<'de> Deserialize<'de> for Head {
    fn deserialize<D: Deserializer<'de>>(deserializer: D) -> Result<Head, D::Error> {
        let fields =
            &["name", "description", "license", "compatibility", "metadata", "allowed-tools"];
        deserializer.deserialize_struct("SkillFrontmatter", fields, HeadVisitor)
    }
}

fn read_head(yaml: &str) -> Result<SkillFrontmatter, String> {
    serde_yaml::from_str::<Head>(yaml).map(|h| h.0).map_err(|e| e.to_string())
}

const MINIMAL_SKILL_MD: &str = "\
---
name: my-skill
description: Does something useful when you need it.
---

# Instructions

Step 1: do the thing.
";

const FULL_SKILL_MD: &str = "\
---
name: pdf-processing
description: Extracts text from PDFs. Use when working with PDF files.
license: MIT
compatibility: Requires no special packages.
allowed-tools: Bash(python3:*) Read Write
metadata:
  author: example-org
  version: \"1.0\"
---

Extract text, tables, and metadata from PDF documents.
";

#[test]
fn parses_minimal_frontmatter() {
    let def = AgentSkillDef::from_skill_md_str(MINIMAL_SKILL_MD, "my-skill", read_head).expect("valid skill");

    assert_eq!(def.id(), "my-skill");
    assert_eq!(def.metadata().name, "My Skill");
    assert_eq!(def.metadata().description, "Does something useful when you need it.");
    assert!(def.metadata().license.is_none());
    assert!(def.metadata().allowed_tools.is_empty());
    assert!(def.instructions.contains("Step 1: do the thing."));
}

#[test]
fn parses_full_frontmatter() {
    let def =
        AgentSkillDef::from_skill_md_str(FULL_SKILL_MD, "pdf-processing", read_head).expect("valid skill");

    assert_eq!(def.id(), "pdf-processing");
    assert_eq!(def.metadata().name, "Pdf Processing");
    assert_eq!(def.metadata().license.as_deref(), Some("MIT"));
    assert_eq!(
        def.metadata().compatibility.as_deref(),
        Some("Requires no special packages.")
    );
    assert_eq!(
        def.metadata().allowed_tools,
        vec!["Bash(python3:*)", "Read", "Write"]
    );
    assert!(def.metadata().instructions.is_some());
}

#[test]
fn skips_name_validation_when_dir_name_empty() {
    let def = AgentSkillDef::from_skill_md_str(MINIMAL_SKILL_MD, "", read_head)
        .expect("should succeed without dir check");
    assert_eq!(def.id(), "my-skill");
}

#[test]
fn rejects_name_mismatch() {
    let err = AgentSkillDef::from_skill_md_str(MINIMAL_SKILL_MD, "wrong-dir", read_head)
        .expect_err("name mismatch should fail");
    assert!(err.to_string().contains("must match"));
}

#[test]
fn rejects_uppercase_name() {
    let content = "---\nname: MySkill\ndescription: A skill.\n---\n\nbody";
    let err = AgentSkillDef::from_skill_md_str(content, "", read_head).expect_err("uppercase rejected");
    assert!(err.to_string().contains("lowercase"));
}

#[test]
fn rejects_leading_hyphen() {
    let content = "---\nname: -skill\ndescription: A skill.\n---\n\nbody";
    let err = AgentSkillDef::from_skill_md_str(content, "", read_head).expect_err("leading hyphen rejected");
    assert!(err.to_string().contains("hyphen"));
}

#[test]
fn rejects_trailing_hyphen() {
    let content = "---\nname: skill-\ndescription: A skill.\n---\n\nbody";
    let err = AgentSkillDef::from_skill_md_str(content, "", read_head).expect_err("trailing hyphen rejected");
    assert!(err.to_string().contains("hyphen"));
}

#[test]
fn rejects_consecutive_hyphens() {
    let content = "---\nname: my--skill\ndescription: A skill.\n---\n\nbody";
    let err =
        AgentSkillDef::from_skill_md_str(content, "", read_head).expect_err("consecutive hyphens rejected");
    assert!(err.to_string().contains("consecutive"));
}

#[test]
fn rejects_empty_description() {
    let content = "---\nname: my-skill\ndescription: \"\"\n---\n\nbody";
    let err =
        AgentSkillDef::from_skill_md_str(content, "", read_head).expect_err("empty description rejected");
    assert!(err.to_string().contains("description"));
}

#[test]
fn rejects_missing_frontmatter_delimiter() {
    let content = "name: my-skill\ndescription: test\n\nbody";
    let err = AgentSkillDef::from_skill_md_str(content, "", read_head).expect_err("missing --- rejected");
    assert!(err.to_string().contains("frontmatter"));
}

#[test]
fn rejects_unclosed_frontmatter() {
    let content = "---\nname: my-skill\ndescription: test\n\nbody";
    let err = AgentSkillDef::from_skill_md_str(content, "", read_head).expect_err("unclosed --- rejected");
    assert!(err.to_string().contains("not closed"));
}

#[test]
fn display_name_conversion() {
    assert_eq!(to_display_name("pdf-processing"), "Pdf Processing");
    assert_eq!(to_display_name("my-skill"), "My Skill");
    assert_eq!(to_display_name("single"), "Single");
    assert_eq!(to_display_name("a-b-c"), "A B C");
}

#[test]
fn allowed_tools_parsed_from_space_delimited_string() {
    let content = "\
---
name: my-skill
description: A skill.
allowed-tools: Bash(git:*) Read Write
---
body";
    let def = AgentSkillDef::from_skill_md_str(content, "", read_head).expect("valid");
    assert_eq!(
        def.metadata().allowed_tools,
        vec!["Bash(git:*)", "Read", "Write"]
    );
}

#[test]
fn display_names_follow_unicode_upper_case() {
    assert_eq!(to_display_name("\u{df}-x"), "SS X");
    assert_eq!(to_display_name("a--b"), "A  B");
    assert_eq!(to_display_name(""), "");
    assert_eq!(to_display_name("\u{e9}tude"), "\u{c9}tude");
}

#[test]
fn names_have_at_most_64_characters() {
    let longest = "a".repeat(64);
    let longer = "a".repeat(65);
    assert!(validate_skill_name(&longest).is_ok());
    assert!(validate_skill_name(&longer).is_err());
    assert!(validate_skill_name("").is_err());
    assert!(validate_skill_name("a1-b2").is_ok());
    assert!(validate_skill_name("a b").is_err());
    assert!(validate_skill_name("\u{e9}").is_err());
}

#[test]
fn descriptions_have_at_most_1024_characters() {
    assert!(validate_description(&"x".repeat(1024)).is_ok());
    assert!(validate_description(&"x".repeat(1025)).is_err());
    assert!(validate_description("").is_err());
    assert!(validate_description("x").is_ok());
    assert!(validate_description(&"\u{e9}".repeat(1024)).is_ok());
    assert!(validate_description(&"\u{e9}".repeat(1025)).is_err());
}

#[test]
fn files_are_split_at_the_delimiters() {
    let (yaml, body) = split_skill_file("---\na: b\n---\n\n\nbody\n").expect("well-formed");
    assert_eq!(yaml, "\na: b");
    assert_eq!(body, "body\n");
    assert!(split_skill_file("").is_err());
    assert!(split_skill_file("---").is_err());
}

#[test]
fn frontmatter_is_read_by_its_fields() {
    let (front, body) = split_frontmatter(FULL_SKILL_MD, read_head).expect("well-formed");
    assert_eq!(front.name, "pdf-processing");
    assert_eq!(
        front.description,
        "Extracts text from PDFs. Use when working with PDF files."
    );
    assert_eq!(front.allowed_tools.as_deref(), Some("Bash(python3:*) Read Write"));
    assert_eq!(body, "Extract text, tables, and metadata from PDF documents.\n");
}

#[test]
fn frontmatter_needs_its_required_fields() {
    for content in [
        "---\nname: my-skill\n---\nbody",
        "---\ndescription: A skill.\n---\nbody",
        "---\nname: [a]\ndescription: A skill.\n---\nbody",
        "---\nname: my-skill\ndescription: {a: b}\n---\nbody",
        "---\n- a\n- b\n---\nbody",
        "---\nname: \"open\n---\nbody",
    ] {
        let err = split_frontmatter(content, read_head).expect_err("must be refused");
        assert!(!err.to_string().is_empty());
    }
}

#[test]
fn directories_give_what_their_file_gives() {
    let good = AgentSkillDef::from_dir(
        "skills/my-skill/SKILL.md",
        "my-skill",
        Ok(MINIMAL_SKILL_MD.to_string()),
        read_head,
    )
    .expect("valid skill");
    assert_eq!(good.id(), "my-skill");
    let err = AgentSkillDef::from_dir(
        "skills/my-skill/SKILL.md",
        "my-skill",
        Err("No such file or directory".to_string()),
        read_head,
    )
    .expect_err("missing file");
    assert!(err.to_string().contains("No such file or directory"));
}

#[test]
fn shapes_are_checked_before_a_skill_is_built_in() {
    assert!(check_shape("skills/a", MINIMAL_SKILL_MD).is_ok());
    assert!(check_shape("skills/a", "no frontmatter").is_err());
    assert!(check_shape("skills/a", "---\nname: x\n").is_err());
}

#[test]
fn read_skills_have_checked_names() {
    let def = AgentSkillDef::from_skill_md_str(MINIMAL_SKILL_MD, "", read_head).expect("valid skill");
    assert!(validate_skill_name(def.id()).is_ok());
    assert!(validate_description(&def.metadata().description).is_ok());
}

#[test]
fn registrations_carry_the_instructions() {
    let def = AgentSkillDef::from_skill_md_str(MINIMAL_SKILL_MD, "", read_head).expect("valid skill");
    let registration = def.into_registration("a model");
    assert_eq!(registration.id(), "my-skill");
    assert_eq!(registration.handler().llm, "a model");
    assert!(registration.handler().instructions.contains("Step 1"));
}

#[test]
fn refused_files_name_the_reason() {
    let err = AgentSkillDef::from_skill_md_str("x", "", read_head).expect_err("refused");
    match err {
        AgentError::InvalidInput(reason) => {
            assert_eq!(reason, "SKILL.md must begin with YAML frontmatter (---)");
        }
        other => panic!("unexpected error: {other:?}"),
    }
}

#[test]
fn heads_keep_the_text_of_their_fields() {
    let read = |head: &str| {
        split_frontmatter(&format!("---\n{head}\n---\nbody"), read_head).map(|(f, _)| f)
    };
    assert_eq!(read("name: a\ndescription: ~").expect("a head").description, "~");
    assert_eq!(read("name: 1e3\ndescription: x").expect("a head").name, "1e3");
    assert_eq!(read("name: 0x10\ndescription: x").expect("a head").name, "0x10");
    let licensed = read("name: a\ndescription: x\nlicense: 1.10").expect("a head");
    assert_eq!(licensed.license.as_deref(), Some("1.10"));
    assert!(read("name: a\ndescription: x\nother: 1\nother: [2]").is_ok());
    assert!(read("name: a\ndescription: x\nmetadata:\n  k: 1\n  k: 2").is_ok());
    assert!(read("name: a\ndescription: x\nmetadata: ~").is_err());
    assert!(read("name: a\nname: b\ndescription: x").is_err());
}

#[test]
fn heads_that_cannot_be_read_are_refused_with_the_reason() {
    match with_body(Err("no YAML".to_string()), "body".to_string()) {
        Err(AgentError::InvalidInput(reason)) => {
            assert_eq!(reason, "Invalid SKILL.md frontmatter: no YAML");
        }
        other => panic!("unexpected result: {other:?}"),
    }
    let seen = |yaml: &str| Err::<SkillFrontmatter, String>(format!("<{yaml}>"));
    match AgentSkillDef::from_skill_md_str("---\na: b\n---\nbody", "", seen) {
        Err(AgentError::InvalidInput(reason)) => {
            assert_eq!(reason, "Invalid SKILL.md frontmatter: <\na: b>");
        }
        other => panic!("unexpected result: {other:?}"),
    }
}

#[test]
fn display_names_give_identifiers_back() {
    for id in ["pdf-processing", "a", "0x10", "a1-b2-c3"] {
        assert!(validate_skill_name(id).is_ok());
        let name = to_display_name(id);
        assert_eq!(name.to_ascii_lowercase().replace(' ', "-"), id);
    }
}

#[test]
fn skills_are_built_in_with_their_directory() {
    let file = "/work/skills/my-skill/SKILL.md";
    let of = |read: Result<String, String>| {
        IncludedSkill::new("./skills/my-skill", file, "my-skill", read)
    };
    let included = of(Ok(MINIMAL_SKILL_MD.to_string())).expect("built in");
    assert_eq!(included.define(read_head).expect("a skill").id(), "my-skill");
    assert_eq!(
        of(Err("gone".to_string())).expect_err("no file"),
        "include_skill!: cannot read /work/skills/my-skill/SKILL.md: gone"
    );
    assert_eq!(
        of(Ok("name: x".to_string())).expect_err("no head"),
        "include_skill!: /work/skills/my-skill/SKILL.md must begin with YAML frontmatter (---)"
    );
    let other = of(Ok("---\nname: other\ndescription: x\n---\n".to_string())).expect("built in");
    let text = other.define(read_head).expect_err("another name");
    assert!(text.starts_with("include_skill!(\"./skills/my-skill\") — invalid SKILL.md: "));
    assert!(text.contains("must match"));
}
