//! What skills do with what they keep.

use radkit::a2a::Artifact;
use radkit::agent::builder::{Agent, AgentDefinition};
use radkit::agent::skill::{
    OnInputResult, OnRequestResult, RegisteredSkill, SkillMetadata, SkillSlot,
};
use radkit::errors::AgentError;
use radkit::json::JsonValue;
use radkit::models::Content;
use radkit::runtime::context::State;
use std::sync::Arc;

trait Handler {
    fn on_request(&self, state: &mut State, content: Content) -> Result<OnRequestResult, AgentError>;

    fn on_input_received(
        &self,
        _state: &mut State,
        _content: Content,
    ) -> Result<OnInputResult, AgentError> {
        Err(AgentError::NotImplemented { feature: "input".to_string() })
    }
}

type AnyHandler = Box<dyn Handler>;

fn text(t: &str) -> Content {
    Content::from_text(t.to_string())
}

fn agent_with<T: RegisteredSkill<AnyHandler>>(skill: T) -> AgentDefinition<AnyHandler> {
    Agent::builder().with_skill(skill).build()
}

fn keep(state: &mut State, slot: SkillSlot) {
    state.set_slot(Ok(slot.value)).unwrap();
}

struct LifecycleSkill;

impl Handler for LifecycleSkill {
    fn on_request(&self, state: &mut State, _: Content) -> Result<OnRequestResult, AgentError> {
        state.task().save("request_seen", Ok(JsonValue::Bool(true)))?;
        Ok(OnRequestResult::InputRequired {
            message: text("Please provide input."),
            slot: SkillSlot::new(JsonValue::text("AwaitingInput")),
        })
    }

    fn on_input_received(
        &self,
        state: &mut State,
        content: Content,
    ) -> Result<OnInputResult, AgentError> {
        let request_seen = state
            .task()
            .load("request_seen", |v| match v {
                JsonValue::Bool(b) => Ok(b),
                _ => Err("not a truth value".to_string()),
            })?
            .unwrap_or(false);
        assert!(request_seen, "on_request should have been called first");

        let slot = state.slot(|v| Ok(v))?.expect("slot should be set");
        assert_eq!(slot.as_str(), Some("AwaitingInput"));

        let input_text = content.first_text().unwrap_or("");
        if input_text == "complete" {
            Ok(OnInputResult::Completed {
                message: Some(text("Completed!")),
                artifacts: vec![],
            })
        } else {
            Ok(OnInputResult::Failed { error: text("Invalid input") })
        }
    }
}

impl RegisteredSkill<AnyHandler> for LifecycleSkill {
    fn metadata() -> Arc<SkillMetadata> {
        Arc::new(SkillMetadata::new(
            "lifecycle_skill",
            "Lifecycle Skill",
            "A skill for testing the execution lifecycle.",
            &[],
            &[],
            &[],
            &[],
        ))
    }

    fn into_handler(self) -> AnyHandler {
        Box::new(self)
    }
}

#[test]
fn test_skill_lifecycle() {
    let agent = agent_with(LifecycleSkill);
    let skill = agent.skills().first().unwrap();
    let mut state = State::new();

    let request_result = skill.handler().on_request(&mut state, text("start")).unwrap();
    match request_result {
        OnRequestResult::InputRequired { message, slot } => {
            assert_eq!(message.first_text(), Some("Please provide input."));
            assert_eq!(slot.value.as_str(), Some("AwaitingInput"));
            keep(&mut state, slot);
        }
        _ => panic!("Expected InputRequired"),
    }

    let input_result = skill.handler().on_input_received(&mut state, text("complete")).unwrap();
    match input_result {
        OnInputResult::Completed { message, .. } => {
            assert_eq!(message.unwrap().first_text(), Some("Completed!"));
        }
        _ => panic!("Expected Completed"),
    }
}

#[test]
fn test_skill_lifecycle_with_failure() {
    let agent = agent_with(LifecycleSkill);
    let skill = agent.skills().first().unwrap();
    let mut state = State::new();

    let request_result = skill.handler().on_request(&mut state, text("start")).unwrap();
    if let OnRequestResult::InputRequired { slot, .. } = request_result {
        keep(&mut state, slot);
    }

    let input_result = skill.handler().on_input_received(&mut state, text("invalid")).unwrap();
    match input_result {
        OnInputResult::Failed { error } => {
            assert_eq!(error.first_text(), Some("Invalid input"));
        }
        _ => panic!("Expected Failed"),
    }
}

struct ImmediateSkill;

impl Handler for ImmediateSkill {
    fn on_request(&self, _: &mut State, content: Content) -> Result<OnRequestResult, AgentError> {
        let said = content.first_text().unwrap_or("no input");
        Ok(OnRequestResult::Completed {
            message: Some(text(&format!("Processed: {said}"))),
            artifacts: vec![Artifact {
                artifact_id: "a".to_string(),
                name: "result".to_string(),
                description: String::new(),
                content: text("success"),
                metadata: None,
            }],
        })
    }
}

impl RegisteredSkill<AnyHandler> for ImmediateSkill {
    fn metadata() -> Arc<SkillMetadata> {
        Arc::new(SkillMetadata::new(
            "immediate_skill",
            "Immediate Skill",
            "A skill that completes immediately.",
            &[],
            &[],
            &[],
            &[],
        ))
    }

    fn into_handler(self) -> AnyHandler {
        Box::new(self)
    }
}

#[test]
fn test_immediate_completion_skill() {
    let agent = agent_with(ImmediateSkill);
    let skill = agent.skills().first().unwrap();
    let mut state = State::new();

    let request_result = skill.handler().on_request(&mut state, text("test")).unwrap();
    match request_result {
        OnRequestResult::Completed { message, artifacts } => {
            assert_eq!(message.unwrap().first_text(), Some("Processed: test"));
            assert_eq!(artifacts.len(), 1);
            assert_eq!(artifacts[0].name, "result");
        }
        _ => panic!("Expected Completed"),
    }
}

struct RejectingSkill;

impl Handler for RejectingSkill {
    fn on_request(&self, _: &mut State, content: Content) -> Result<OnRequestResult, AgentError> {
        let said = content.first_text().unwrap_or("");
        if said.contains("forbidden") {
            Ok(OnRequestResult::Rejected { reason: text("This request is forbidden") })
        } else {
            Ok(OnRequestResult::Completed {
                message: Some(text("Accepted")),
                artifacts: vec![],
            })
        }
    }
}

impl RegisteredSkill<AnyHandler> for RejectingSkill {
    fn metadata() -> Arc<SkillMetadata> {
        Arc::new(SkillMetadata::new(
            "rejecting_skill",
            "Rejecting Skill",
            "A skill that rejects certain requests.",
            &[],
            &[],
            &[],
            &[],
        ))
    }

    fn into_handler(self) -> AnyHandler {
        Box::new(self)
    }
}

#[test]
fn test_rejecting_skill() {
    let agent = agent_with(RejectingSkill);
    let skill = agent.skills().first().unwrap();
    let mut state = State::new();

    let request_result = skill.handler().on_request(&mut state, text("forbidden action")).unwrap();
    match request_result {
        OnRequestResult::Rejected { reason } => {
            assert_eq!(reason.first_text(), Some("This request is forbidden"));
        }
        _ => panic!("Expected Rejected"),
    }

    let mut state = State::new();
    let request_result = skill.handler().on_request(&mut state, text("allowed action")).unwrap();
    match request_result {
        OnRequestResult::Completed { .. } => {}
        _ => panic!("Expected Completed"),
    }
}

struct MultiRoundSkill;

impl Handler for MultiRoundSkill {
    fn on_request(&self, _: &mut State, _: Content) -> Result<OnRequestResult, AgentError> {
        Ok(OnRequestResult::InputRequired {
            message: text("What is your name?"),
            slot: SkillSlot::new(JsonValue::text("AwaitingName")),
        })
    }

    fn on_input_received(
        &self,
        state: &mut State,
        content: Content,
    ) -> Result<OnInputResult, AgentError> {
        let slot = state.slot(|v| Ok(v))?.expect("slot should be set");
        if slot.as_str() == Some("AwaitingName") {
            let name = content.first_text().unwrap_or("Unknown").to_string();
            return Ok(OnInputResult::InputRequired {
                message: text("What is your age?"),
                slot: SkillSlot::new(JsonValue::object1("AwaitingAge", JsonValue::text(&name))),
            });
        }
        let name = slot.str_at("AwaitingAge").expect("a name").to_string();
        let age = content.first_text().unwrap_or("0");
        Ok(OnInputResult::Completed {
            message: Some(text(&format!("Hello {name}, age {age}!"))),
            artifacts: vec![],
        })
    }
}

impl RegisteredSkill<AnyHandler> for MultiRoundSkill {
    fn metadata() -> Arc<SkillMetadata> {
        Arc::new(SkillMetadata::new(
            "multi_round_skill",
            "Multi-Round Skill",
            "A skill that requires multiple rounds of input.",
            &[],
            &[],
            &[],
            &[],
        ))
    }

    fn into_handler(self) -> AnyHandler {
        Box::new(self)
    }
}

#[test]
fn test_multi_round_input_skill() {
    let agent = agent_with(MultiRoundSkill);
    let skill = agent.skills().first().unwrap();
    let mut state = State::new();

    match skill.handler().on_request(&mut state, text("start")).unwrap() {
        OnRequestResult::InputRequired { message, slot } => {
            assert_eq!(message.first_text(), Some("What is your name?"));
            keep(&mut state, slot);
        }
        _ => panic!("Expected InputRequired"),
    }

    match skill.handler().on_input_received(&mut state, text("Alice")).unwrap() {
        OnInputResult::InputRequired { message, slot } => {
            assert_eq!(message.first_text(), Some("What is your age?"));
            keep(&mut state, slot);
        }
        _ => panic!("Expected InputRequired"),
    }

    match skill.handler().on_input_received(&mut state, text("30")).unwrap() {
        OnInputResult::Completed { message, .. } => {
            assert_eq!(message.unwrap().first_text(), Some("Hello Alice, age 30!"));
        }
        _ => panic!("Expected Completed"),
    }
}
