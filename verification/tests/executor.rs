//! Requests from the message to the answer, with a store in this process and skills that answer
//! at once.

use radkit::a2a::{
    Artifact, Message, Task, TaskEvent, TaskState as Stage, TaskStatus, TaskView, Timestamp,
};
use radkit::agent::builder::{Agent, AgentDefinition};
use radkit::agent::skill::{
    OnInputResult, OnRequestResult, RegisteredSkill, SkillMetadata, SkillSlot,
};
use radkit::errors::AgentError;
use radkit::json::JsonValue;
use radkit::models::{Content, ContentPart, Role};
use radkit::runtime::context::{SessionState, State, TaskState};
use radkit::runtime::execution::executor::{
    blocking_response, collect_new_events, new_identifier, streaming_response, DeliveryMode,
    DeliveryOutcome, ExecutionPhase, ExecutionResult, MessageRoute, NegotiationDecision,
    PreparedSendMessage, RequestExecutor, SendMessageRequest, SendMessageResponse, StoreEffect,
};
use radkit::runtime::execution::flow::{
    drive_task, DriveAction, DriveReply, FlowAction, FlowReply, Launch,
};
use radkit::runtime::execution::status_mapper::{can_continue, is_terminal_status};
use radkit::runtime::web::{
    build_jsonrpc_success_response, initial_responses, json_rpc_method, method_name,
    parse_rpc_params, JsonRpcId, RpcMethod, StreamResponse,
};
use std::collections::BTreeMap;
use std::sync::Arc;

// ---------------------------------------------------------------------------
// Skills
// ---------------------------------------------------------------------------

trait Handler {
    fn on_request(&self, state: &mut State, content: Content) -> Result<OnRequestResult, AgentError>;

    fn on_input_received(
        &self,
        state: &mut State,
        content: Content,
    ) -> Result<OnInputResult, AgentError>;
}

type AnyHandler = Box<dyn Handler>;

fn text(t: &str) -> Content {
    Content::from_text(t.to_string())
}

fn metadata(id: &str, name: &str, description: &str) -> Arc<SkillMetadata> {
    Arc::new(SkillMetadata::new(id, name, description, &[], &[], &[], &[]))
}

struct SimpleSkill;

impl Handler for SimpleSkill {
    fn on_request(&self, _: &mut State, _: Content) -> Result<OnRequestResult, AgentError> {
        Ok(OnRequestResult::Completed { message: Some(text("done")), artifacts: Vec::new() })
    }

    fn on_input_received(&self, _: &mut State, _: Content) -> Result<OnInputResult, AgentError> {
        unreachable!("never continues")
    }
}

impl RegisteredSkill<AnyHandler> for SimpleSkill {
    fn metadata() -> Arc<SkillMetadata> {
        metadata("simple-skill", "Simple Skill", "Completes immediately")
    }

    fn into_handler(self) -> AnyHandler {
        Box::new(self)
    }
}

struct MultiTurnSkill;

impl Handler for MultiTurnSkill {
    fn on_request(&self, state: &mut State, _: Content) -> Result<OnRequestResult, AgentError> {
        state.task().save("asked", Ok(JsonValue::Bool(true)))?;
        Ok(OnRequestResult::InputRequired {
            message: text("Need more info"),
            slot: SkillSlot::new(JsonValue::text("details")),
        })
    }

    fn on_input_received(
        &self,
        _: &mut State,
        content: Content,
    ) -> Result<OnInputResult, AgentError> {
        let response = format!("Received: {}", content.joined_texts().unwrap_or_default());
        Ok(OnInputResult::Completed {
            message: Some(Content::from_text(response)),
            artifacts: Vec::new(),
        })
    }
}

impl RegisteredSkill<AnyHandler> for MultiTurnSkill {
    fn metadata() -> Arc<SkillMetadata> {
        metadata("multi-skill", "Multi-turn Skill", "Requests additional input")
    }

    fn into_handler(self) -> AnyHandler {
        Box::new(self)
    }
}

struct ImmediateSkill;

impl Handler for ImmediateSkill {
    fn on_request(&self, _: &mut State, _: Content) -> Result<OnRequestResult, AgentError> {
        Ok(OnRequestResult::Completed {
            message: Some(text("Task completed immediately!")),
            artifacts: vec![artifact("a-1"), artifact("a-2")],
        })
    }

    fn on_input_received(&self, _: &mut State, _: Content) -> Result<OnInputResult, AgentError> {
        unreachable!("immediate skill should not receive input")
    }
}

impl RegisteredSkill<AnyHandler> for ImmediateSkill {
    fn metadata() -> Arc<SkillMetadata> {
        metadata("immediate", "Immediate Skill", "Completes immediately")
    }

    fn into_handler(self) -> AnyHandler {
        Box::new(self)
    }
}

struct DoneSkill;

impl Handler for DoneSkill {
    fn on_request(&self, _: &mut State, _: Content) -> Result<OnRequestResult, AgentError> {
        Ok(OnRequestResult::Completed { message: Some(text("Done")), artifacts: Vec::new() })
    }

    fn on_input_received(&self, _: &mut State, _: Content) -> Result<OnInputResult, AgentError> {
        unreachable!("immediate skill never continues")
    }
}

impl RegisteredSkill<AnyHandler> for DoneSkill {
    fn metadata() -> Arc<SkillMetadata> {
        metadata("immediate-skill", "Immediate Skill", "Completes immediately")
    }

    fn into_handler(self) -> AnyHandler {
        Box::new(self)
    }
}

struct GreetingSkill;

impl Handler for GreetingSkill {
    fn on_request(&self, _: &mut State, _: Content) -> Result<OnRequestResult, AgentError> {
        Ok(OnRequestResult::InputRequired {
            message: text("What is your name?"),
            slot: SkillSlot::new(JsonValue::text("AwaitingName")),
        })
    }

    fn on_input_received(
        &self,
        state: &mut State,
        input: Content,
    ) -> Result<OnInputResult, AgentError> {
        let slot = state.slot(|v| Ok(v))?.expect("slot should be available");
        assert_eq!(slot.as_str(), Some("AwaitingName"));
        let name = input.first_text().unwrap_or("Friend");
        Ok(OnInputResult::Completed {
            message: Some(Content::from_text(format!("Hello, {}!", name))),
            artifacts: vec![],
        })
    }
}

impl RegisteredSkill<AnyHandler> for GreetingSkill {
    fn metadata() -> Arc<SkillMetadata> {
        metadata("greeting", "Greeting Skill", "Greets user by name")
    }

    fn into_handler(self) -> AnyHandler {
        Box::new(self)
    }
}

struct FailingSkill;

impl Handler for FailingSkill {
    fn on_request(&self, _: &mut State, _: Content) -> Result<OnRequestResult, AgentError> {
        Err(AgentError::Internal {
            component: "FailingSkill".to_string(),
            reason: "Intentional failure for testing".to_string(),
        })
    }

    fn on_input_received(&self, _: &mut State, _: Content) -> Result<OnInputResult, AgentError> {
        unreachable!()
    }
}

impl RegisteredSkill<AnyHandler> for FailingSkill {
    fn metadata() -> Arc<SkillMetadata> {
        metadata("failing", "Failing Skill", "Always fails")
    }

    fn into_handler(self) -> AnyHandler {
        Box::new(self)
    }
}

// ---------------------------------------------------------------------------
// A store and a loop that runs requests
// ---------------------------------------------------------------------------

type Executor = RequestExecutor<AgentDefinition<AnyHandler>>;

fn copy_task(t: &Task) -> Task {
    Task {
        id: t.id.clone(),
        context_id: t.context_id.clone(),
        status: t.status.clone(),
        artifacts: t.artifacts.clone(),
    }
}

fn copy_event(e: &TaskEvent) -> TaskEvent {
    match e {
        TaskEvent::StatusUpdate(u) => TaskEvent::StatusUpdate(radkit::a2a::TaskStatusUpdate {
            task_id: u.task_id.clone(),
            context_id: u.context_id.clone(),
            status: u.status.clone(),
            is_final: u.is_final,
        }),
        TaskEvent::ArtifactUpdate(u) => {
            TaskEvent::ArtifactUpdate(radkit::a2a::TaskArtifactUpdate {
                task_id: u.task_id.clone(),
                context_id: u.context_id.clone(),
                artifact: u.artifact.clone(),
                append: u.append,
                last_chunk: u.last_chunk,
            })
        }
        TaskEvent::Message(m) => TaskEvent::Message(m.clone()),
    }
}

fn copy_state(s: &TaskState) -> TaskState {
    TaskState { data: s.data.clone(), slot: s.slot.clone() }
}

#[derive(Default)]
struct World {
    tasks: BTreeMap<String, Task>,
    events: BTreeMap<String, Vec<TaskEvent>>,
    negotiating: Vec<Message>,
    skills: BTreeMap<String, String>,
    task_states: BTreeMap<String, TaskState>,
    sessions: BTreeMap<String, SessionState>,
    decisions: Vec<NegotiationDecision>,
    clock: i64,
}

impl World {
    fn deciding(decision: NegotiationDecision) -> World {
        World { decisions: vec![decision], ..World::default() }
    }

    fn starting(skill_id: &str) -> World {
        World::deciding(NegotiationDecision::StartTask {
            skill_id: skill_id.to_string(),
            reasoning: "Test selected this skill".to_string(),
        })
    }

    fn now(&mut self) -> Timestamp {
        self.clock += 1;
        Timestamp { seconds: self.clock, nanos: 0 }
    }

    fn events_of(&self, task_id: &str) -> Vec<TaskEvent> {
        self.events.get(task_id).map(|v| v.iter().map(copy_event).collect()).unwrap_or_default()
    }

    fn store(&mut self, effect: StoreEffect) {
        match effect {
            StoreEffect::SaveTask(task) => {
                self.tasks.insert(task.id.clone(), task);
            }
            StoreEffect::SetTaskSkill { task_id, skill_id } => {
                self.skills.insert(task_id, skill_id);
            }
            StoreEffect::SaveTaskState { task_id, state } => {
                self.task_states.insert(task_id, state);
            }
            StoreEffect::SaveSessionState { context_id, state } => {
                self.sessions.insert(context_id, state);
            }
            StoreEffect::PushEvent(event) => {
                let task_id = match &event {
                    TaskEvent::StatusUpdate(u) => u.task_id.clone(),
                    TaskEvent::ArtifactUpdate(u) => u.task_id.clone(),
                    TaskEvent::Message(m) => m.task_id.clone(),
                };
                match event {
                    TaskEvent::Message(m) if task_id.is_empty() => self.negotiating.push(m),
                    event => self.events.entry(task_id).or_default().push(event),
                }
            }
        }
    }

    fn drive(&mut self, executor: &Executor, launch: Launch) -> Result<Task, AgentError> {
        let (mut phase, mut action) = drive_task(launch);
        loop {
            let reply = match action {
                DriveAction::LoadSession(id) => DriveReply::Session(
                    self.sessions.get(&id).map(|s| SessionState { data: s.data.clone() }),
                ),
                DriveAction::RunSkill { skill_index, state, phase, .. } => {
                    let mut state = state;
                    let handler = executor.runtime.skills[skill_index].handler();
                    let answer = match phase {
                        ExecutionPhase::Initial(c) => {
                            handler.on_request(&mut state, c).map(ExecutionResult::Initial)
                        }
                        ExecutionPhase::Input(c) => {
                            handler.on_input_received(&mut state, c).map(ExecutionResult::Input)
                        }
                    };
                    match answer {
                        Ok(result) => DriveReply::Answer { state, result },
                        Err(e) => DriveReply::Failed(e),
                    }
                }
                DriveAction::Store(effect) => {
                    self.store(effect);
                    DriveReply::Stored
                }
                DriveAction::Done(result) => return result,
            };
            assert!(phase.is_waiting_for(&reply));
            let now = self.now();
            (phase, action) = phase.step(reply, new_identifier(), now);
        }
    }

    fn dispatch(
        &mut self,
        executor: &Executor,
        params: SendMessageRequest,
        mode: DeliveryMode,
    ) -> Result<DeliveryOutcome, AgentError> {
        let (mut flow, mut action) = match mode {
            DeliveryMode::Blocking => {
                executor.handle_send_message(params, new_identifier(), new_identifier())
            }
            DeliveryMode::Streaming => {
                executor.handle_message_stream(params, new_identifier(), new_identifier())
            }
        };
        loop {
            let reply = match action {
                FlowAction::LoadTask(id) => FlowReply::Task(self.tasks.get(&id).map(copy_task)),
                FlowAction::LoadEvents(id) => FlowReply::Events(self.events_of(&id)),
                FlowAction::LoadContext(id) => FlowReply::Context {
                    related_tasks: self.tasks.values().filter(|t| t.context_id == id).count(),
                    messages: self
                        .negotiating
                        .iter()
                        .filter(|m| m.context_id == id)
                        .cloned()
                        .collect(),
                },
                FlowAction::LoadTaskSkill(id) => FlowReply::Skill(self.skills.get(&id).cloned()),
                FlowAction::LoadTaskState(id) => {
                    FlowReply::State(self.task_states.get(&id).map(copy_state))
                }
                FlowAction::Store(effect) => {
                    self.store(effect);
                    FlowReply::Stored
                }
                FlowAction::Negotiate { .. } => FlowReply::Decision(self.decisions.remove(0)),
                FlowAction::Run(launch) => match self.drive(executor, launch) {
                    Ok(task) => FlowReply::Ran(task),
                    Err(e) => FlowReply::Failed(e),
                },
                FlowAction::Follow(launch) => {
                    self.drive(executor, launch).expect("a run on the side");
                    FlowReply::Following
                }
                FlowAction::Done(result) => return result,
            };
            assert!(flow.is_waiting_for(&reply));
            let now = self.now();
            (flow, action) = executor.step(flow, reply, new_identifier(), new_identifier(), now);
        }
    }

    fn send(
        &mut self,
        executor: &Executor,
        params: SendMessageRequest,
    ) -> Result<SendMessageResponse, AgentError> {
        let outcome = self.dispatch(executor, params, DeliveryMode::Blocking)?;
        blocking_response(outcome)
    }
}

fn executor_with<T: RegisteredSkill<AnyHandler>>(skill: T) -> Executor {
    RequestExecutor::new(Agent::builder().with_name("Agent".to_string()).with_skill(skill).build())
}

fn request(t: &str, context_id: Option<&str>, task_id: Option<&str>) -> SendMessageRequest {
    SendMessageRequest {
        message: Some(Message {
            message_id: new_identifier(),
            context_id: context_id.unwrap_or_default().to_string(),
            task_id: task_id.unwrap_or_default().to_string(),
            role: Role::User,
            content: text(t),
        }),
    }
}

fn task_of(response: SendMessageResponse) -> TaskView {
    match response {
        SendMessageResponse::Task(task) => task,
        other => panic!("expected task result, got {other:?}"),
    }
}

fn stage_of(task: &TaskView) -> i32 {
    task.status.as_ref().expect("status").state
}

fn artifact(id: &str) -> Artifact {
    Artifact {
        artifact_id: id.to_string(),
        name: "result".to_string(),
        description: String::new(),
        content: text("success"),
        metadata: None,
    }
}

// ---------------------------------------------------------------------------
// Requests
// ---------------------------------------------------------------------------

#[test]
fn new_context_creates_task_and_records_events() {
    let mut world = World::starting("simple-skill");
    let executor = executor_with(SimpleSkill);

    let result = world.send(&executor, request("Do the task", None, None)).expect("result");
    let task = task_of(result);

    assert_eq!(stage_of(&task), Stage::Completed.to_code());
    let stored = world.tasks.get(&task.id).expect("task exists");
    assert_eq!(stored.status.state, Stage::Completed.to_code());

    let events = world.events_of(&task.id);
    assert!(events
        .iter()
        .any(|event| matches!(event, TaskEvent::Message(msg) if msg.role == Role::Assistant)));
}

#[test]
fn continuation_flow_updates_task() {
    let mut world = World::starting("multi-skill");
    let executor = executor_with(MultiTurnSkill);

    let task = task_of(world.send(&executor, request("Start", None, None)).expect("first"));
    assert_eq!(stage_of(&task), Stage::InputRequired.to_code());

    let continued = world
        .send(
            &executor,
            request("Provide details", Some(&task.context_id), Some(&task.id)),
        )
        .expect("continuation");
    let updated = task_of(continued);
    assert_eq!(stage_of(&updated), Stage::Completed.to_code());

    let task_state = world.task_states.get(&updated.id).expect("state present");
    let slot: Option<JsonValue> = task_state.slot(|v| Ok(v)).expect("slot load");
    assert!(slot.is_none());
    assert!(task_state.data.contains_key("asked"));
}

#[test]
fn negotiation_clarification_yields_message() {
    let mut world = World::deciding(NegotiationDecision::AskClarification {
        message: "Need more details".to_string(),
    });
    let executor = executor_with(SimpleSkill);

    match world.send(&executor, request("Clarify", None, None)).expect("clarification") {
        SendMessageResponse::Message(msg) => {
            assert!(msg.role == Role::Assistant);
            assert!(!msg.context_id.is_empty());
            assert_eq!(msg.content.first_text(), Some("Need more details"));
        }
        other => panic!("expected message result, got {other:?}"),
    }
}

#[test]
fn negotiation_reject_returns_message() {
    let mut world =
        World::deciding(NegotiationDecision::Reject { reason: "Out of scope".to_string() });
    let executor = executor_with(SimpleSkill);

    match world.send(&executor, request("Reject", None, None)).expect("rejection") {
        SendMessageResponse::Message(msg) => {
            assert!(msg.role == Role::Assistant);
            assert!(!msg.context_id.is_empty());
        }
        other => panic!("expected message result, got {other:?}"),
    }
}

#[test]
fn cancel_task_returns_not_implemented() {
    let err = Executor::handle_cancel_task("task-1").expect_err("expected not implemented");
    match err {
        AgentError::NotImplemented { feature } => {
            assert!(feature.contains("tasks/cancel"));
        }
        other => panic!("unexpected error: {other:?}"),
    }
}

#[test]
fn test_new_task_immediate_completion() {
    let mut world = World::starting("immediate");
    let executor = executor_with(ImmediateSkill);

    let result = world.send(&executor, request("Hello", None, None));
    assert!(result.is_ok(), "send_message should succeed");
    let task = task_of(result.unwrap());
    assert_eq!(stage_of(&task), Stage::Completed.to_code());
    assert!(!task.history.is_empty(), "should have messages in history");
    assert_eq!(task.artifacts.len(), 2);
}

#[test]
fn test_task_continuation_with_input() {
    let mut world = World::starting("greeting");
    let executor = executor_with(GreetingSkill);

    let first = task_of(world.send(&executor, request("Greet me", None, None)).unwrap());
    assert_eq!(stage_of(&first), Stage::InputRequired.to_code());

    let second = task_of(
        world
            .send(&executor, request("Alice", Some(&first.context_id), Some(&first.id)))
            .unwrap(),
    );
    assert_eq!(stage_of(&second), Stage::Completed.to_code());
    let final_msg = second
        .history
        .iter()
        .rfind(|msg| msg.role == Role::Assistant)
        .expect("should have agent message");
    let text = match &final_msg.content.parts[0] {
        ContentPart::Text(t) => t,
        _ => panic!("expected text content"),
    };
    assert!(text.contains("Hello, Alice!"), "should greet by name");
}

#[test]
fn test_task_failure() {
    let mut world = World::starting("failing");
    let executor = executor_with(FailingSkill);

    let result = world.send(&executor, request("Do something", None, None));
    assert!(result.is_err(), "Should fail when skill throws error");
    match result.unwrap_err() {
        AgentError::Internal { component, reason } => {
            assert_eq!(component, "FailingSkill");
            assert!(reason.contains("Intentional failure"));
        }
        other => panic!("Expected Internal error, got {:?}", other),
    }
}

#[test]
fn test_get_task() {
    let mut world = World::starting("immediate");
    let executor = executor_with(ImmediateSkill);
    let task_id = task_of(world.send(&executor, request("test", None, None)).unwrap()).id;

    let get_result = Executor::handle_get_task(
        world.tasks.get(&task_id).map(copy_task),
        &task_id,
        world.events_of(&task_id),
    );
    assert!(get_result.is_ok(), "should retrieve task");
    let retrieved_task = get_result.unwrap();
    assert_eq!(retrieved_task.id, task_id);
    assert_eq!(stage_of(&retrieved_task), Stage::Completed.to_code());
}

#[test]
fn test_get_nonexistent_task() {
    let result = Executor::handle_get_task(None, "nonexistent-task-id", Vec::new());
    assert!(result.is_err(), "should fail for nonexistent task");
    match result.unwrap_err() {
        AgentError::TaskNotFound { task_id } => {
            assert_eq!(task_id, "nonexistent-task-id");
        }
        _ => panic!("expected TaskNotFound error"),
    }
}

#[test]
fn test_invalid_context_task_combination() {
    let mut world = World::starting("greeting");
    let executor = executor_with(GreetingSkill);
    let task1_id = task_of(world.send(&executor, request("Hello", None, None)).unwrap()).id;

    let result2 =
        world.send(&executor, request("Continue", Some("wrong-context-id"), Some(&task1_id)));
    assert!(result2.is_err(), "should fail with mismatched context/task");
}

#[test]
fn json_rpc_handler_accepts_v1_send_message() {
    let mut world = World::starting("immediate-skill");
    let executor = executor_with(DoneSkill);
    let id = Some(JsonRpcId::String("req-v1".to_string()));

    let method = json_rpc_method("2.0", "SendMessage").expect("a method");
    assert!(method == RpcMethod::SendMessage);
    let params = parse_rpc_params(Ok(request("hello", None, None)), method_name(method));
    let task = task_of(world.send(&executor, params.expect("params")).expect("send response"));
    let stage = Stage::from_code(stage_of(&task)).expect("task state");
    assert!(stage == Stage::Completed);

    let response = build_jsonrpc_success_response(&id, JsonValue::text(&task.id));
    assert_eq!(response.str_at("id"), Some("req-v1"));
    assert_eq!(response.str_at("result"), Some(task.id.as_str()));
}

#[test]
fn message_send_handler_returns_v1_task() {
    let mut world = World::starting("immediate-skill");
    let executor = executor_with(DoneSkill);

    match world.send(&executor, request("hello", None, None)).expect("send response") {
        SendMessageResponse::Task(task) => {
            let stage = Stage::from_code(stage_of(&task)).expect("task state");
            assert!(stage == Stage::Completed);
        }
        other => panic!("expected task payload, got {other:?}"),
    }
}

#[test]
fn message_stream_handler_emits_terminal_task_event() {
    let mut world = World::starting("immediate-skill");
    let executor = executor_with(DoneSkill);

    let outcome = world
        .dispatch(&executor, request("hello", None, None), DeliveryMode::Streaming)
        .expect("outcome");
    let stream = match streaming_response(outcome).expect("stream") {
        PreparedSendMessage::Task(s) => s,
        other => panic!("expected a stream, got {other:?}"),
    };
    let task_id = match &stream.initial_events[0] {
        TaskEvent::Message(m) => m.task_id.clone(),
        other => panic!("expected the request, got {other:?}"),
    };
    let (events, ended) = initial_responses(world.events_of(&task_id));
    assert!(ended);
    match events.last().expect("final event") {
        StreamResponse::StatusUpdate(update) => {
            let state = update.status.as_ref().expect("status").state;
            assert!(Stage::from_code(state) == Some(Stage::Completed));
        }
        other => panic!("expected final status update event, got {other:?}"),
    }
}

// ---------------------------------------------------------------------------
// More of the same
// ---------------------------------------------------------------------------

#[test]
fn routes_follow_the_identifiers_of_a_message() {
    assert!(matches!(
        MessageRoute::from_params(&request("x", None, None)),
        Ok(MessageRoute::NewContext)
    ));
    assert!(matches!(
        MessageRoute::from_params(&request("x", Some("c"), None)),
        Ok(MessageRoute::ExistingContext { .. })
    ));
    assert!(matches!(
        MessageRoute::from_params(&request("x", Some("c"), Some("t"))),
        Ok(MessageRoute::ExistingTask { .. })
    ));
    assert!(matches!(
        MessageRoute::from_params(&request("x", None, Some("t"))),
        Err(AgentError::InvalidInput(_))
    ));
    assert!(matches!(
        MessageRoute::from_params(&SendMessageRequest { message: None }),
        Err(AgentError::InvalidInput(_))
    ));
}

#[test]
fn unknown_conversations_and_tasks_are_refused() {
    let executor = executor_with(SimpleSkill);
    let mut world = World::default();
    assert!(matches!(
        world.send(&executor, request("x", Some("nowhere"), None)),
        Err(AgentError::InvalidInput(_))
    ));
    assert!(matches!(
        world.send(&executor, request("x", Some("c"), Some("t"))),
        Err(AgentError::TaskNotFound { .. })
    ));
    assert!(world.tasks.is_empty());
    assert!(world.negotiating.is_empty());
}

#[test]
fn conversations_go_on_after_a_question() {
    let executor = executor_with(SimpleSkill);
    let mut world = World::deciding(NegotiationDecision::AskClarification {
        message: "What exactly?".to_string(),
    });
    let asked = match world.send(&executor, request("Help", None, None)).expect("question") {
        SendMessageResponse::Message(m) => m,
        other => panic!("expected message result, got {other:?}"),
    };
    world.decisions.push(NegotiationDecision::StartTask {
        skill_id: "simple-skill".to_string(),
        reasoning: "clear now".to_string(),
    });
    let task = task_of(
        world.send(&executor, request("This", Some(&asked.context_id), None)).expect("task"),
    );
    assert_eq!(task.context_id, asked.context_id);
    assert_eq!(stage_of(&task), Stage::Completed.to_code());
    let said: Vec<Option<&str>> =
        world.negotiating.iter().map(|m| m.content.first_text()).collect();
    assert_eq!(
        said,
        vec![Some("Help"), Some("What exactly?"), Some("This"), Some("clear now")]
    );
}

#[test]
fn finished_tasks_do_not_go_on() {
    let executor = executor_with(SimpleSkill);
    let mut world = World::starting("simple-skill");
    let task = task_of(world.send(&executor, request("Go", None, None)).expect("task"));
    let again = world.send(&executor, request("More", Some(&task.context_id), Some(&task.id)));
    assert!(matches!(again, Err(AgentError::InvalidTaskStateTransition { .. })));
    let status = &world.tasks[&task.id].status;
    assert_eq!(status.state, Stage::Completed.to_code());
    assert!(is_terminal_status(status));
    assert!(!can_continue(status));
}

#[test]
fn unknown_skills_are_refused() {
    let executor = executor_with(SimpleSkill);
    let mut world = World::starting("other-skill");
    let refused = world.send(&executor, request("Go", None, None));
    assert!(matches!(refused, Err(AgentError::SkillNotFound { .. })));
    assert!(world.tasks.is_empty());
    assert!(executor.find_skill_by_id("simple-skill").is_ok());
    assert!(executor.find_skill_by_id("other-skill").is_err());
}

#[test]
fn tasks_without_a_skill_do_not_go_on() {
    let executor = executor_with(MultiTurnSkill);
    let mut world = World::starting("multi-skill");
    let task = task_of(world.send(&executor, request("Start", None, None)).expect("task"));
    world.skills.clear();
    let again = world.send(&executor, request("More", Some(&task.context_id), Some(&task.id)));
    assert!(matches!(again, Err(AgentError::Internal { .. })));
}

#[test]
fn everything_that_happens_is_stored() {
    let executor = executor_with(ImmediateSkill);
    let mut world = World::starting("immediate");
    let task = task_of(world.send(&executor, request("Hello", None, None)).expect("task"));
    let kinds: Vec<&str> = world
        .events_of(&task.id)
        .iter()
        .map(|e| match e {
            TaskEvent::Message(m) if m.role == Role::User => "user",
            TaskEvent::Message(_) => "agent",
            TaskEvent::ArtifactUpdate(_) => "artifact",
            TaskEvent::StatusUpdate(_) => "status",
        })
        .collect();
    assert_eq!(kinds, vec!["user", "artifact", "artifact", "agent", "status"]);
    assert_eq!(task.history.len(), 2);
    assert_eq!(world.skills[&task.id], "immediate");
    assert!(world.sessions.contains_key(&task.context_id));
    assert!(world.task_states.contains_key(&task.id));
}

#[test]
fn waiting_tasks_keep_their_slot() {
    let executor = executor_with(MultiTurnSkill);
    let mut world = World::starting("multi-skill");
    let task = task_of(world.send(&executor, request("Start", None, None)).expect("task"));
    let kept = world.task_states[&task.id].slot.as_ref().expect("slot");
    assert_eq!(kept.as_str(), Some("details"));
}

struct PausingSkill;

impl Handler for PausingSkill {
    fn on_request(&self, state: &mut State, _: Content) -> Result<OnRequestResult, AgentError> {
        state.task().save("work", Ok(JsonValue::text("half done")))?;
        Ok(OnRequestResult::InputRequired {
            message: text("And then?"),
            slot: SkillSlot::new(JsonValue::text("rest")),
        })
    }

    fn on_input_received(
        &self,
        state: &mut State,
        content: Content,
    ) -> Result<OnInputResult, AgentError> {
        let slot = state.slot(|v| Ok(v))?.expect("slot");
        assert_eq!(slot.as_str(), Some("rest"));
        let work = state.task().load("work", |v| Ok(v))?.expect("work");
        assert_eq!(work.as_str(), Some("half done"));
        assert_eq!(content.first_text(), Some("the rest"));
        Ok(OnInputResult::Completed { message: None, artifacts: Vec::new() })
    }
}

impl RegisteredSkill<AnyHandler> for PausingSkill {
    fn metadata() -> Arc<SkillMetadata> {
        metadata("pausing", "Pausing Skill", "Keeps its work between turns")
    }

    fn into_handler(self) -> AnyHandler {
        Box::new(self)
    }
}

#[test]
fn work_is_kept_between_turns() {
    let executor = executor_with(PausingSkill);
    let mut world = World::starting("pausing");
    let first = task_of(world.send(&executor, request("Start", None, None)).expect("task"));
    assert_eq!(stage_of(&first), Stage::InputRequired.to_code());
    let again = request("the rest", Some(&first.context_id), Some(&first.id));
    let second = task_of(world.send(&executor, again).expect("task"));
    assert_eq!(stage_of(&second), Stage::Completed.to_code());
    assert!(world.task_states[&first.id].data.contains_key("work"));
}

#[test]
fn streams_begin_with_what_happened_so_far() {
    let executor = executor_with(MultiTurnSkill);
    let mut world = World::starting("multi-skill");
    let outcome =
        world.dispatch(&executor, request("Start", None, None), DeliveryMode::Streaming).unwrap();
    let stream = match streaming_response(outcome).expect("stream") {
        PreparedSendMessage::Task(s) => s,
        other => panic!("expected a stream, got {other:?}"),
    };
    assert!(stream.follow);
    assert_eq!(stream.initial_events.len(), 1);
    let (context_id, task_id) = match &stream.initial_events[0] {
        TaskEvent::Message(m) => (m.context_id.clone(), m.task_id.clone()),
        other => panic!("expected the request, got {other:?}"),
    };

    let outcome = world
        .dispatch(
            &executor,
            request("More", Some(&context_id), Some(&task_id)),
            DeliveryMode::Streaming,
        )
        .unwrap();
    match outcome {
        DeliveryOutcome::Stream(s) => {
            assert_eq!(s.initial_events.len(), 1);
            match &s.initial_events[0] {
                TaskEvent::Message(m) => assert_eq!(m.content.first_text(), Some("More")),
                other => panic!("expected the input, got {other:?}"),
            }
        }
        other => panic!("expected a stream, got {other:?}"),
    }
    assert_eq!(world.tasks[&task_id].status.state, Stage::Completed.to_code());
}

#[test]
fn answers_fit_the_way_they_are_delivered() {
    let message = || Message {
        message_id: "m".to_string(),
        context_id: "c".to_string(),
        task_id: String::new(),
        role: Role::Assistant,
        content: text("x"),
    };
    assert!(matches!(
        blocking_response(DeliveryOutcome::Message(message())),
        Ok(SendMessageResponse::Message(_))
    ));
    assert!(matches!(
        streaming_response(DeliveryOutcome::Message(message())),
        Ok(PreparedSendMessage::Message(_))
    ));
    let view = TaskView {
        id: "t".to_string(),
        context_id: "c".to_string(),
        status: None,
        history: Vec::new(),
        artifacts: Vec::new(),
    };
    assert!(streaming_response(DeliveryOutcome::Task(view)).is_err());
}

#[test]
fn clients_can_follow_again() {
    let task = |stage: Stage| Task {
        id: "t".to_string(),
        context_id: "c".to_string(),
        status: TaskStatus { state: stage.to_code(), timestamp: None, message: None },
        artifacts: Vec::new(),
    };
    let running = Executor::handle_task_resubscribe(Some(task(Stage::Working)), "t", Vec::new());
    assert!(running.expect("stream").follow);
    let ended = Executor::handle_task_resubscribe(Some(task(Stage::Completed)), "t", Vec::new());
    assert!(!ended.expect("stream").follow);
    let missing = Executor::handle_task_resubscribe(None, "t", Vec::new());
    assert!(matches!(missing, Err(AgentError::TaskNotFound { .. })));
    assert!(collect_new_events(Vec::new(), 3).is_empty());
}

#[test]
fn identifiers_are_fresh() {
    assert_ne!(new_identifier(), new_identifier());
    assert_eq!(new_identifier().len(), 36);
}
