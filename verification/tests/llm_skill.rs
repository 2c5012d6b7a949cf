//! Skills whose work a model does.

use radkit::agent::llm_skill::{
    work_status_to_input_result, work_status_to_request_result, LlmSkillHandler,
};
use radkit::agent::skill::{OnInputResult, OnRequestResult, SkillSlot, WorkStatus};
use radkit::errors::AgentError;
use radkit::json::JsonValue;
use radkit::models::{Content, Event, Role, Thread};
use radkit::runtime::context::{SessionState, State, TaskState};

fn make_state() -> State {
    State::with_states(TaskState::new(), SessionState::new())
}

fn text(t: &str) -> Content {
    Content::from_text(t.to_string())
}

/// A conversation as it stands in a slot: the texts of its events.
fn to_slot(thread: &Thread) -> JsonValue {
    let mut texts: Vec<JsonValue> = Vec::new();
    for event in &thread.events {
        texts.push(JsonValue::text(event.content.first_text().unwrap_or("")));
    }
    JsonValue::Array(texts)
}

fn from_slot(value: JsonValue) -> Result<Thread, String> {
    let Some(texts) = value.as_array() else {
        return Err("not a conversation".to_string());
    };
    let events = texts.iter().map(|t| Event::user(text(t.as_str().unwrap_or("")))).collect();
    Ok(Thread { system: None, events })
}

fn first_thread(request: &str) -> Thread {
    Thread { system: None, events: vec![Event::user(text(request))] }
}

#[test]
fn complete_response_produces_completed_result() {
    let status = WorkStatus::Complete { message: "Here is your answer.".to_string() };
    let result = work_status_to_request_result(status, to_slot(&first_thread("Do something")));

    match result {
        OnRequestResult::Completed { message, .. } => {
            assert_eq!(
                message.expect("message present").first_text(),
                Some("Here is your answer.")
            );
        }
        other => panic!("expected Completed, got {other:?}"),
    }
}

#[test]
fn needs_input_produces_input_required_with_thread_in_slot() {
    let status =
        WorkStatus::NeedsInput { message: "Which language should I translate to?".to_string() };
    let result = work_status_to_request_result(status, to_slot(&first_thread("Translate: Hello")));

    match result {
        OnRequestResult::InputRequired { message, slot } => {
            assert!(message.first_text().unwrap_or("").contains("language"));
            let thread = from_slot(slot.value).expect("slot should be a Thread");
            assert!(!thread.events.is_empty(), "thread should have events");
        }
        other => panic!("expected InputRequired, got {other:?}"),
    }
}

#[test]
fn failed_response_produces_failed_result() {
    let status = WorkStatus::Failed { reason: "I cannot do that.".to_string() };
    let result =
        work_status_to_request_result(status, to_slot(&first_thread("Do something impossible")));

    match result {
        OnRequestResult::Failed { error } => {
            assert!(error.first_text().unwrap_or("").contains("cannot"));
        }
        other => panic!("expected Failed, got {other:?}"),
    }
}

#[test]
fn on_input_received_missing_slot_returns_internal_error() {
    let kept = make_state().slot(from_slot);
    let err = LlmSkillHandler::<()>::on_input_received(kept, text("More info"))
        .expect_err("should fail when slot is absent");

    assert!(matches!(err, AgentError::Internal { .. }));
}

#[test]
fn on_input_received_restores_thread_and_completes() {
    let mut state = make_state();
    let first = work_status_to_request_result(
        WorkStatus::NeedsInput { message: "What language?".to_string() },
        to_slot(&first_thread("Translate: Hello")),
    );
    let slot = match first {
        OnRequestResult::InputRequired { slot, .. } => slot,
        other => panic!("expected InputRequired, got {other:?}"),
    };
    state.set_pending_slot(slot);

    let thread = LlmSkillHandler::<()>::on_input_received(state.slot(from_slot), text("Spanish"))
        .expect("turn 2 ok");
    assert_eq!(thread.events.len(), 2);
    assert_eq!(thread.events[0].content.first_text(), Some("Translate: Hello"));
    assert_eq!(thread.events[1].content.first_text(), Some("Spanish"));
    assert!(thread.events[1].role == Role::User);

    let second = work_status_to_input_result(
        WorkStatus::Complete { message: "Hola".to_string() },
        to_slot(&thread),
    );
    match second {
        OnInputResult::Completed { message, .. } => {
            assert_eq!(message.expect("message present").first_text(), Some("Hola"));
        }
        other => panic!("expected Completed, got {other:?}"),
    }
}

#[test]
fn on_input_received_can_chain_multiple_needs_input_rounds() {
    let mut state = make_state();
    state.set_pending_slot(SkillSlot::new(to_slot(&first_thread("Translate: Hello"))));

    let thread = LlmSkillHandler::<()>::on_input_received(state.slot(from_slot), text("Spanish"))
        .expect("no error");
    let result = work_status_to_input_result(
        WorkStatus::NeedsInput { message: "And the target dialect?".to_string() },
        to_slot(&thread),
    );

    match result {
        OnInputResult::InputRequired { slot, .. } => {
            let thread = from_slot(slot.value).expect("slot is Thread");
            assert!(
                thread.events.len() >= 2,
                "thread should accumulate events: got {}",
                thread.events.len()
            );
        }
        other => panic!("expected InputRequired again, got {other:?}"),
    }
}

#[test]
fn failed_work_on_input_is_told() {
    let result = work_status_to_input_result(
        WorkStatus::Failed { reason: "no".to_string() },
        JsonValue::Null,
    );
    match result {
        OnInputResult::Failed { error } => assert_eq!(error.first_text(), Some("no")),
        other => panic!("expected Failed, got {other:?}"),
    }
}

#[test]
fn handlers_keep_their_instructions() {
    let handler = LlmSkillHandler::new("model", "You are a helper.".to_string());
    assert_eq!(handler.llm, "model");
    assert_eq!(handler.instructions, "You are a helper.");
}

#[test]
fn unreadable_slots_are_handed_on() {
    let mut state = make_state();
    state.set_pending_slot(SkillSlot::new(JsonValue::Null));
    let err = LlmSkillHandler::<()>::on_input_received(state.slot(from_slot), text("x"))
        .expect_err("unreadable");
    assert!(matches!(err, AgentError::SkillSlot(_)));
}
