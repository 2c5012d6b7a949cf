//! Putting an agent together.

use crate::agent::agentskill::{cannot_read, file_gives, AgentSkillDef};
use crate::agent::frontmatter::SkillFrontmatter;
use crate::agent::skill::{RegisteredSkill, SkillMetadata};
use crate::errors::AgentError;
use crate::text::{blank, is_blank};
use std::sync::Arc;
use vstd::prelude::*;
use vstd::std_specs::convert::FromSpecImpl;

verus! {

/// The version of an agent that was given none.
pub open spec fn default_agent_version() -> Seq<char> {
    "0.0.1"@
}

/// An agent: its name and its skills, whose handlers are of type `H`.
pub struct AgentDefinition<H> {
    pub name: String,
    pub version: String,
    pub description: Option<String>,
    pub dispatcher_prompt: Option<String>,
    pub skills: Vec<SkillRegistration<H>>,
}

/// An agent that is being put together.
pub struct AgentBuilder<H> {
    pub inner: AgentDefinition<H>,
    pub pending_skill_defs: Vec<AgentSkillDef>,
}

/// The way to an agent.
pub struct Agent;

/// A skill of an agent.
pub struct SkillRegistration<H> {
    pub metadata: Arc<SkillMetadata>,
    pub handler: H,
}

/// `Arc::clone`: another handle to the same value.
#[verifier::external_body]
fn share(a: &Arc<SkillMetadata>) -> (r: Arc<SkillMetadata>)
    ensures
        r == *a,
{
    Arc::clone(a)
}

impl Agent {
    /// An agent without a name and without skills, in the version that stands for none.
    #[must_use]
    pub fn builder<H>() -> (r: AgentBuilder<H>)
        ensures
            r.inner.name@.len() == 0,
            r.inner.version@ == default_agent_version(),
            r.inner.description is None,
            r.inner.dispatcher_prompt is None,
            r.inner.skills@.len() == 0,
            r.pending_skill_defs@.len() == 0,
    {
        AgentBuilder {
            inner: AgentDefinition {
                name: String::new(),
                version: "0.0.1".to_owned(),
                description: None,
                dispatcher_prompt: None,
                skills: Vec::new(),
            },
            pending_skill_defs: Vec::new(),
        }
    }
}

/// The agent, its version in place of a blank one.
pub open spec fn versioned<H>(before: AgentDefinition<H>, after: AgentDefinition<H>) -> bool {
    &&& after.name == before.name
    &&& after.description == before.description
    &&& after.dispatcher_prompt == before.dispatcher_prompt
    &&& after.skills == before.skills
    &&& after.version@ == if is_blank(before.version@) {
        default_agent_version()
    } else {
        before.version@
    }
}

impl<H> AgentBuilder<H> {
    /// The agent with this name.
    pub open spec fn named(self, name: String) -> AgentBuilder<H> {
        AgentBuilder { inner: AgentDefinition { name, ..self.inner }, ..self }
    }

    /// The agent with this version.
    pub open spec fn at_version(self, version: String) -> AgentBuilder<H> {
        AgentBuilder { inner: AgentDefinition { version, ..self.inner }, ..self }
    }

    /// The agent with this description.
    pub open spec fn described(self, description: String) -> AgentBuilder<H> {
        AgentBuilder {
            inner: AgentDefinition { description: Some(description), ..self.inner },
            ..self
        }
    }

    /// The agent with this prompt.
    pub open spec fn prompted(self, prompt: String) -> AgentBuilder<H> {
        AgentBuilder {
            inner: AgentDefinition { dispatcher_prompt: Some(prompt), ..self.inner },
            ..self
        }
    }

    /// `r` is the agent with this skill behind those that are there.
    pub open spec fn with_more<T: RegisteredSkill<H>>(self, skill: T, r: AgentBuilder<H>) -> bool {
        &&& r.same_but_skills(self)
        &&& r.pending_skill_defs == self.pending_skill_defs
        &&& r.inner.skills@.len() == self.inner.skills@.len() + 1
        &&& r.inner.skills@.drop_last() == self.inner.skills@
        &&& call_ensures(T::metadata, (), r.inner.skills@.last().metadata)
        &&& call_ensures(T::into_handler, (skill,), r.inner.skills@.last().handler)
    }

    /// `r` is the agent with this skill given by a file behind those that are there.
    pub open spec fn with_def(self, def: AgentSkillDef, r: AgentBuilder<H>) -> bool {
        &&& r.inner == self.inner
        &&& r.pending_skill_defs@ == self.pending_skill_defs@.push(def)
    }

    /// Sets the name.
    #[must_use]
    pub fn with_name(self, name: String) -> (r: AgentBuilder<H>)
        ensures
            r == self.named(name),
    {
        AgentBuilder { inner: AgentDefinition { name, ..self.inner }, ..self }
    }

    /// Sets the version.
    #[must_use]
    pub fn with_version(self, version: String) -> (r: AgentBuilder<H>)
        ensures
            r == self.at_version(version),
    {
        AgentBuilder { inner: AgentDefinition { version, ..self.inner }, ..self }
    }

    /// Sets the description.
    #[must_use]
    pub fn with_description(self, description: String) -> (r: AgentBuilder<H>)
        ensures
            r == self.described(description),
    {
        AgentBuilder {
            inner: AgentDefinition { description: Some(description), ..self.inner },
            ..self
        }
    }

    /// Sets the prompt by which requests are handed to skills.
    #[must_use]
    pub fn with_dispatcher_prompt(self, prompt: String) -> (r: AgentBuilder<H>)
        ensures
            r == self.prompted(prompt),
    {
        AgentBuilder {
            inner: AgentDefinition { dispatcher_prompt: Some(prompt), ..self.inner },
            ..self
        }
    }

    /// Everything but the skills is as in the other.
    pub open spec fn same_but_skills(self, other: AgentBuilder<H>) -> bool {
        &&& self.inner.name == other.inner.name
        &&& self.inner.version == other.inner.version
        &&& self.inner.description == other.inner.description
        &&& self.inner.dispatcher_prompt == other.inner.dispatcher_prompt
    }

    /// Adds a skill behind those that are there.
    #[must_use]
    pub fn with_skill<T: RegisteredSkill<H>>(self, skill: T) -> (r: AgentBuilder<H>)
        ensures
            self.with_more(skill, r),
    {
        let mut skills = self.inner.skills;
        let ghost before = skills@;
        skills.push(SkillRegistration { metadata: T::metadata(), handler: skill.into_handler() });
        proof {
            assert(skills@.drop_last() =~= before);
        }
        AgentBuilder {
            inner: AgentDefinition {
                name: self.inner.name,
                version: self.inner.version,
                description: self.inner.description,
                dispatcher_prompt: self.inner.dispatcher_prompt,
                skills,
            },
            pending_skill_defs: self.pending_skill_defs,
        }
    }

    /// Adds a skill given by a file behind those that are there.
    #[must_use]
    pub fn with_skill_def(self, def: AgentSkillDef) -> (r: AgentBuilder<H>)
        ensures
            self.with_def(def, r),
    {
        let mut defs = self.pending_skill_defs;
        defs.push(def);
        AgentBuilder { inner: self.inner, pending_skill_defs: defs }
    }

    /// Adds the skill in a directory. `path` is the path of the file, `dir_name` the name of
    /// the directory, or empty; `read` is what reading the file gave, and `parse` reads the YAML
    /// of its head.
    pub fn with_skill_dir<F: FnOnce(&str) -> Result<SkillFrontmatter, String>>(
        self,
        path: &str,
        dir_name: &str,
        read: Result<String, String>,
        parse: F,
    ) -> (r: Result<AgentBuilder<H>, AgentError>)
        requires
            forall|y: &str| call_requires(parse, (y,)),
        ensures
            match read {
                Err(m) => r matches Err(x) && x@ == cannot_read(path@, m@),
                Ok(content) => exists|def: Result<AgentSkillDef, AgentError>| #[trigger]
                    file_gives(content@, dir_name@, parse, def) && self.with_read(def, r),
            },
    {
        let ghost content = read;
        let ghost before = self.pending_skill_defs@;
        let def = AgentSkillDef::from_dir(path, dir_name, read, parse);
        proof {
            assert(content matches Ok(c) ==> file_gives(c@, dir_name@, parse, def));
        }
        match def {
            Ok(def) => {
                let b = self.with_skill_def(def);
                proof {
                    assert(self.with_read(Ok(def), Ok(b)));
                }
                Ok(b)
            },
            Err(e) => Err(e),
        }
    }

    /// `r` is the agent with this skill behind those that are there, or the error in its place.
    pub open spec fn with_read(
        self,
        def: Result<AgentSkillDef, AgentError>,
        r: Result<AgentBuilder<H>, AgentError>,
    ) -> bool {
        match def {
            Ok(d) => r matches Ok(b) && self.with_def(d, b),
            Err(e) => r matches Err(x) && x == e,
        }
    }

    /// The agent. A blank version becomes the one that stands for none.
    #[must_use]
    pub fn build(self) -> (r: AgentDefinition<H>)
        ensures
            versioned(self.inner, r),
    {
        if blank(self.inner.version.as_str()) {
            AgentDefinition { version: "0.0.1".to_owned(), ..self.inner }
        } else {
            self.inner
        }
    }

    /// The agent, and the skills given by files.
    pub fn into_parts(self) -> (r: (AgentDefinition<H>, Vec<AgentSkillDef>))
        ensures
            versioned(self.inner, r.0),
            r.1 == self.pending_skill_defs,
    {
        let inner = if blank(self.inner.version.as_str()) {
            AgentDefinition { version: "0.0.1".to_owned(), ..self.inner }
        } else {
            self.inner
        };
        (inner, self.pending_skill_defs)
    }
}

impl<H> FromSpecImpl<AgentDefinition<H>> for AgentBuilder<H> {
    open spec fn obeys_from_spec() -> bool {
        false
    }

    open spec fn from_spec(def: AgentDefinition<H>) -> AgentBuilder<H> {
        arbitrary()
    }
}

impl<H> From<AgentDefinition<H>> for AgentBuilder<H> {
    fn from(def: AgentDefinition<H>) -> (r: AgentBuilder<H>)
        ensures
            r.inner == def,
            r.pending_skill_defs@.len() == 0,
    {
        AgentBuilder { inner: def, pending_skill_defs: Vec::new() }
    }
}

fn option_str(s: &Option<String>) -> (r: Option<&str>)
    ensures
        match (r, *s) {
            (Some(a), Some(b)) => a@ == b@,
            (None, None) => true,
            _ => false,
        },
{
    match s {
        Some(t) => Some(t.as_str()),
        None => None,
    }
}

impl<H> AgentDefinition<H> {
    /// The name.
    #[must_use]
    pub fn name(&self) -> (r: &str)
        ensures
            r@ == self.name@,
    {
        self.name.as_str()
    }

    /// The version.
    #[must_use]
    pub fn version(&self) -> (r: &str)
        ensures
            r@ == self.version@,
    {
        self.version.as_str()
    }

    /// The description.
    #[must_use]
    pub fn description(&self) -> (r: Option<&str>)
        ensures
            match (r, self.description) {
                (Some(a), Some(b)) => a@ == b@,
                (None, None) => true,
                _ => false,
            },
    {
        option_str(&self.description)
    }

    /// The prompt by which requests are handed to skills.
    #[must_use]
    pub fn dispatcher_prompt(&self) -> (r: Option<&str>)
        ensures
            match (r, self.dispatcher_prompt) {
                (Some(a), Some(b)) => a@ == b@,
                (None, None) => true,
                _ => false,
            },
    {
        option_str(&self.dispatcher_prompt)
    }

    /// The skills, in the order in which they were added.
    #[must_use]
    pub fn skills(&self) -> (r: &[SkillRegistration<H>])
        ensures
            r@ == self.skills@,
    {
        self.skills.as_slice()
    }
}

impl<H> SkillRegistration<H> {
    /// The name of the skill for people.
    #[must_use]
    pub fn name(&self) -> (r: &str)
        ensures
            r@ == self.metadata.name@,
    {
        self.metadata.name.as_str()
    }

    /// The identifier of the skill.
    #[must_use]
    pub fn id(&self) -> (r: &str)
        ensures
            r@ == self.metadata.id@,
    {
        self.metadata.id.as_str()
    }

    /// The description of the skill.
    #[must_use]
    pub fn description(&self) -> (r: &str)
        ensures
            r@ == self.metadata.description@,
    {
        self.metadata.description.as_str()
    }

    /// What runs the skill.
    #[must_use]
    pub fn handler(&self) -> (r: &H)
        ensures
            *r == self.handler,
    {
        &self.handler
    }

    /// Another handle to what runs the skill.
    #[must_use]
    pub fn handler_arc(&self) -> (r: H) where H: Clone
        ensures
            cloned(self.handler, r),
    {
        self.handler.clone()
    }

    /// What is known of the skill.
    #[must_use]
    pub fn metadata(&self) -> (r: &SkillMetadata)
        ensures
            *r == *self.metadata,
    {
        &self.metadata
    }

    /// Another handle to what is known of the skill.
    #[must_use]
    pub fn metadata_arc(&self) -> (r: Arc<SkillMetadata>)
        ensures
            r == self.metadata,
    {
        share(&self.metadata)
    }
}

// ---------------------------------------------------------------------------
// Laws
// ---------------------------------------------------------------------------

/// A version of an agent that was built is never blank, and building again changes nothing.
pub proof fn built_versions_stay<H>(
    before: AgentDefinition<H>,
    after: AgentDefinition<H>,
    again: AgentDefinition<H>,
)
    requires
        versioned(before, after),
        versioned(after, again),
    ensures
        !is_blank(after.version@),
        again.version@ == after.version@,
{
    reveal_strlit("0.0.1");
    assert(!crate::text::is_white_space(default_agent_version()[0]));
    assert(!is_blank(default_agent_version()));
}

/// Setting the prompt before another setting comes to the same as setting it after: every agent
/// that the one order gives, the other gives too, with this prompt when it is built.
pub proof fn prompts_may_come_first<H, T: RegisteredSkill<H>>(
    b: AgentBuilder<H>,
    prompt: String,
    text: String,
    skill: T,
    def: AgentSkillDef,
    after: AgentBuilder<H>,
    built: AgentDefinition<H>,
)
    ensures
        b.named(text).prompted(prompt) == b.prompted(prompt).named(text),
        b.at_version(text).prompted(prompt) == b.prompted(prompt).at_version(text),
        b.described(text).prompted(prompt) == b.prompted(prompt).described(text),
        b.with_more(skill, after) ==> b.prompted(prompt).with_more(skill, after.prompted(prompt)),
        b.with_def(def, after) ==> b.prompted(prompt).with_def(def, after.prompted(prompt)),
        versioned(after.prompted(prompt).inner, built) ==> built.dispatcher_prompt == Some(prompt),
{
}

} // verus!
