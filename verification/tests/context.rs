//! What tasks and conversations keep, and how progress is told.

use radkit::a2a::{Artifact, TaskEvent, TaskState as State2, Timestamp};
use radkit::errors::AgentError;
use radkit::json::{JsonNumber, JsonValue};
use radkit::models::{Content, Role};
use radkit::runtime::context::{AuthContext, ProgressSender, SessionState, State, TaskState};

fn number(n: u64) -> Result<JsonValue, String> {
    Ok(JsonValue::Number(JsonNumber::PosInt(n)))
}

fn string(s: &str) -> Result<JsonValue, String> {
    Ok(JsonValue::text(s))
}

fn as_number(value: JsonValue) -> Result<u64, String> {
    value.as_u64().ok_or_else(|| "not a number".to_string())
}

fn as_string(value: JsonValue) -> Result<String, String> {
    value.as_str().map(str::to_string).ok_or_else(|| "not a text".to_string())
}

fn as_numbers(value: JsonValue) -> Result<Vec<u64>, String> {
    match value.as_array() {
        Some(v) => v.iter().map(|n| n.as_u64().ok_or_else(|| "not a number".to_string())).collect(),
        None => Err("not an array".to_string()),
    }
}

#[test]
fn session_state_save_load_roundtrip() {
    let mut session = SessionState::new();
    session.save("key", number(42)).expect("save");

    let value: Option<u64> = session.load("key", as_number).expect("load");
    assert_eq!(value, Some(42));

    let missing: Option<u64> = session.load("missing", as_number).expect("load");
    assert!(missing.is_none());
}

#[test]
fn session_state_remove_and_contains() {
    let mut session = SessionState::new();
    assert!(!session.contains("key"));
    assert!(session.is_empty());

    session.save("key", string("value")).expect("save");
    assert!(session.contains("key"));
    assert_eq!(session.len(), 1);

    session.remove("key");
    assert!(!session.contains("key"));
    assert!(session.is_empty());
}

#[test]
fn task_state_save_load_roundtrip() {
    let mut task = TaskState::new();
    let list = JsonValue::Array(
        [1, 2, 3].iter().map(|n| JsonValue::Number(JsonNumber::PosInt(*n))).collect(),
    );
    task.save("partial", Ok(list)).expect("save");

    let value: Option<Vec<u64>> = task.load("partial", as_numbers).expect("load");
    assert_eq!(value, Some(vec![1, 2, 3]));
}

#[derive(Debug, PartialEq, Eq)]
enum MySlot {
    NeedEmail,
    NeedPhone { name: String },
}

fn encode(slot: &MySlot) -> Result<JsonValue, String> {
    match slot {
        MySlot::NeedEmail => Ok(JsonValue::text("NeedEmail")),
        MySlot::NeedPhone { name } => Ok(JsonValue::object1(
            "NeedPhone",
            JsonValue::object1("name", JsonValue::text(name)),
        )),
    }
}

fn decode(value: JsonValue) -> Result<MySlot, String> {
    if value.as_str() == Some("NeedEmail") {
        return Ok(MySlot::NeedEmail);
    }
    match value.get("NeedPhone").and_then(|v| v.str_at("name")) {
        Some(name) => Ok(MySlot::NeedPhone { name: name.to_string() }),
        None => Err("unknown slot".to_string()),
    }
}

#[test]
fn task_state_slot_roundtrip() {
    let mut task = TaskState::new();

    task.set_slot(encode(&MySlot::NeedEmail)).expect("set slot");
    let slot: Option<MySlot> = task.slot(decode).expect("get slot");
    assert_eq!(slot, Some(MySlot::NeedEmail));

    task.set_slot(encode(&MySlot::NeedPhone { name: "Alice".into() })).expect("set slot");
    let slot: Option<MySlot> = task.slot(decode).expect("get slot");
    assert_eq!(slot, Some(MySlot::NeedPhone { name: "Alice".into() }));

    task.clear_slot();
    let slot: Option<MySlot> = task.slot(decode).expect("get slot");
    assert!(slot.is_none());
}

#[test]
fn state_provides_scoped_access() {
    let mut state = State::new();

    state.task().save("task_key", string("task_value")).expect("save");
    let task_val: Option<String> = state.task().load("task_key", as_string).expect("load");
    assert_eq!(task_val, Some("task_value".to_string()));

    state.session().save("session_key", string("session_value")).expect("save");
    let session_val: Option<String> =
        state.session().load("session_key", as_string).expect("load");
    assert_eq!(session_val, Some("session_value".to_string()));

    let task_missing: Option<String> = state.task().load("session_key", as_string).expect("load");
    assert!(task_missing.is_none());
}

#[test]
fn state_with_existing_states() {
    let mut task = TaskState::new();
    task.save("key", number(1)).expect("save");

    let mut session = SessionState::new();
    session.save("key", number(2)).expect("save");

    let state = State::with_states(task, session);

    let task_val: Option<u64> = state.task_ref().load("key", as_number).expect("load");
    let session_val: Option<u64> = state.session_ref().load("key", as_number).expect("load");

    assert_eq!(task_val, Some(1));
    assert_eq!(session_val, Some(2));
}

#[test]
fn state_into_parts() {
    let mut state = State::new();
    state.task().save("t", number(1)).expect("save");
    state.session().save("s", number(2)).expect("save");

    let (task, session) = state.into_parts();

    let t: Option<u64> = task.load("t", as_number).expect("load");
    let s: Option<u64> = session.load("s", as_number).expect("load");
    assert_eq!(t, Some(1));
    assert_eq!(s, Some(2));
}

#[test]
fn values_that_do_not_fit_are_told() {
    let mut session = SessionState::new();
    let refused = session.save("key", Err("cannot be written".to_string()));
    assert!(matches!(refused, Err(AgentError::ContextError(_))));
    assert!(!session.contains("key"));

    session.save("key", string("text")).expect("save");
    let unreadable = session.load("key", as_number);
    assert!(matches!(unreadable, Err(AgentError::ContextError(_))));
}

#[test]
fn saving_again_replaces() {
    let mut task = TaskState::default();
    task.save("key", number(1)).expect("save");
    task.save("key", number(2)).expect("save");
    assert_eq!(task.load("key", as_number).expect("load"), Some(2));
    assert!(task.remove("key").is_some());
    assert!(task.remove("key").is_none());
}

#[test]
fn pending_slots_are_the_slots_of_the_task() {
    let mut state = State::default();
    assert!(state.current_slot().is_none());
    state.set_slot(encode(&MySlot::NeedEmail)).expect("set");
    assert_eq!(state.slot(decode).expect("slot"), Some(MySlot::NeedEmail));
    let kept = state.current_slot().expect("slot");
    state.clear_slot();
    assert!(state.task_ref().current_slot().is_none());
    state.set_pending_slot(kept);
    assert_eq!(state.slot(decode).expect("slot"), Some(MySlot::NeedEmail));
    state.clear_pending_slot();
    assert!(state.current_slot().is_none());

    let refused = state.set_slot(Err("cannot be written".to_string()));
    assert!(matches!(refused, Err(AgentError::SkillSlot(_))));
}

fn auth() -> AuthContext {
    AuthContext { app_name: "app".to_string(), user_name: "user".to_string() }
}

fn now() -> Timestamp {
    Timestamp { seconds: 10, nanos: 20 }
}

#[test]
fn progress_is_told_as_a_working_status() {
    let sender = ProgressSender::new(auth(), "ctx".to_string(), "task".to_string());
    let content = Content::from_text("half way".to_string());
    match sender.send_update(content, "m-1".to_string(), now()) {
        Some(TaskEvent::StatusUpdate(update)) => {
            assert_eq!(update.task_id, "task");
            assert_eq!(update.context_id, "ctx");
            assert!(!update.is_final);
            let status = update.status.expect("status");
            assert_eq!(status.state, State2::Working.to_code());
            let message = status.message.expect("message");
            assert_eq!(message.message_id, "m-1");
            assert!(message.role == Role::Assistant);
            assert_eq!(message.content.first_text(), Some("half way"));
        }
        other => panic!("unexpected event: {other:?}"),
    }
}

fn artifact() -> Artifact {
    Artifact {
        artifact_id: "a-1".to_string(),
        name: "report".to_string(),
        description: String::new(),
        content: Content::from_text("text".to_string()),
        metadata: None,
    }
}

#[test]
fn artifacts_are_told_in_parts() {
    let sender = ProgressSender::new(auth(), "ctx".to_string(), "task".to_string());
    match sender.send_partial_artifact(artifact()) {
        Some(TaskEvent::ArtifactUpdate(update)) => {
            assert_eq!(update.task_id, "task");
            assert_eq!(update.artifact.expect("artifact").name, "report");
            assert!(!update.last_chunk);
        }
        other => panic!("unexpected event: {other:?}"),
    }
}

#[test]
fn nobody_hears_of_progress_without_a_task() {
    let sender = ProgressSender::noop();
    let content = Content::from_text("x".to_string());
    assert!(sender.send_update(content, "m".to_string(), now()).is_none());
    assert!(sender.send_partial_artifact(artifact()).is_none());
}
