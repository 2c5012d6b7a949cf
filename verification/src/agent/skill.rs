//! What a skill is, and what it answers.

use crate::a2a::Artifact;
use crate::json::JsonValue;
use crate::models::Content;
use crate::text::texts;
use std::sync::Arc;
use vstd::prelude::*;

verus! {

/// What is known of a skill.
#[derive(Debug)]
pub struct SkillMetadata {
    pub id: String,
    pub name: String,
    pub description: String,
    pub tags: Vec<String>,
    pub examples: Vec<String>,
    pub input_modes: Vec<String>,
    pub output_modes: Vec<String>,
    pub instructions: Option<String>,
    pub license: Option<String>,
    pub compatibility: Option<String>,
    pub allowed_tools: Vec<String>,
}

/// What a skill keeps while it waits for the user.
#[derive(Debug)]
pub struct SkillSlot {
    pub value: JsonValue,
}

/// The answer of a skill to a request.
#[derive(Debug)]
#[allow(inconsistent_fields)]
pub enum OnRequestResult {
    Completed { message: Option<Content>, artifacts: Vec<Artifact> },
    InputRequired { message: Content, slot: SkillSlot },
    Failed { error: Content },
    Rejected { reason: Content },
}

/// The answer of a skill to what the user gave it.
#[derive(Debug)]
#[allow(inconsistent_fields)]
pub enum OnInputResult {
    Completed { message: Option<Content>, artifacts: Vec<Artifact> },
    InputRequired { message: Content, slot: SkillSlot },
    Failed { error: Content },
}

/// How far a model has come with a request.
#[derive(Debug)]
pub enum WorkStatus {
    Complete { message: String },
    NeedsInput { message: String },
    Failed { reason: String },
}

impl SkillSlot {
    /// A slot with what is kept.
    pub fn new(value: JsonValue) -> (r: SkillSlot)
        ensures
            r.value == value,
    {
        SkillSlot { value }
    }
}

/// A skill that can be registered with an agent whose handlers are of type `H`.
pub trait RegisteredSkill<H>: Sized {
    /// What is known of the skill.
    fn metadata() -> Arc<SkillMetadata>;

    /// What runs the skill.
    fn into_handler(self) -> H;
}

fn to_strings(v: &[&str]) -> (r: Vec<String>)
    ensures
        r@.len() == v@.len(),
        forall|i: int| 0 <= i < v@.len() ==> (#[trigger] r@[i])@ == v@[i]@,
{
    let mut out: Vec<String> = Vec::new();
    let mut i: usize = 0;
    while i < v.len()
        invariant
            i <= v@.len(),
            out@.len() == i,
            forall|j: int| 0 <= j < i ==> (#[trigger] out@[j])@ == v@[j]@,
        decreases v@.len() - i,
    {
        out.push(v[i].to_owned());
        i = i + 1;
    }
    out
}

/// What a row of texts stands for.
pub open spec fn str_texts(v: Seq<&str>) -> Seq<Seq<char>> {
    Seq::new(v.len(), |i: int| v[i]@)
}

impl SkillMetadata {
    /// Metadata of a skill without instructions.
    pub fn new(
        id: &str,
        name: &str,
        description: &str,
        tags: &[&str],
        examples: &[&str],
        input_modes: &[&str],
        output_modes: &[&str],
    ) -> (r: SkillMetadata)
        ensures
            r.id@ == id@,
            r.name@ == name@,
            r.description@ == description@,
            texts(r.tags@) == str_texts(tags@),
            texts(r.examples@) == str_texts(examples@),
            texts(r.input_modes@) == str_texts(input_modes@),
            texts(r.output_modes@) == str_texts(output_modes@),
            r.instructions is None,
            r.license is None,
            r.compatibility is None,
            r.allowed_tools@.len() == 0,
    {
        let r = SkillMetadata {
            id: id.to_owned(),
            name: name.to_owned(),
            description: description.to_owned(),
            tags: to_strings(tags),
            examples: to_strings(examples),
            input_modes: to_strings(input_modes),
            output_modes: to_strings(output_modes),
            instructions: None,
            license: None,
            compatibility: None,
            allowed_tools: Vec::new(),
        };
        proof {
            assert(texts(r.tags@) =~= str_texts(tags@));
            assert(texts(r.examples@) =~= str_texts(examples@));
            assert(texts(r.input_modes@) =~= str_texts(input_modes@));
            assert(texts(r.output_modes@) =~= str_texts(output_modes@));
        }
        r
    }
}

} // verus!
