//! Working on requests: which task a message belongs to, and what is stored and published on
//! the way.
//!
//! The functions here decide; whoever calls them reads from the store, runs the skills and
//! carries out the effects, in the order in which they are given, up to the first that fails.

use crate::a2a::{
    artifact_models, copy_artifacts, task_with_history, tells, Artifact, ArtifactModel, Message,
    MessageModel, Task, TaskArtifactUpdate, TaskEvent, TaskEventModel, TaskModel,
    TaskState as A2aTaskState, TaskStatus, TaskStatusUpdate, TaskView, Timestamp,
};
use crate::agent::builder::{AgentDefinition, SkillRegistration};
use crate::agent::skill::{OnInputResult, OnRequestResult, SkillSlot};
use crate::errors::{AgentError, ErrorView};
use crate::json::Json;
use crate::models::{Content, PartModel, Role};
use crate::runtime::context::{SessionState, State, TaskState, TaskStateModel};
use crate::runtime::execution::status_mapper::{
    can_continue, continuable, input_state, is_terminal, is_terminal_status, on_input_to_state,
    on_request_to_state, plain_status, request_state, status_without_message,
};
use crate::runtime::memory::types::{is_uuid, new_uuid};
use crate::text::{
    concat2, concat3, is_empty_text, same_text, signed_decimal, signed_decimal_text,
};
use vstd::prelude::*;

verus! {

// ---------------------------------------------------------------------------
// Requests and answers
// ---------------------------------------------------------------------------

/// A message to the agent.
#[derive(Debug)]
pub struct SendMessageRequest {
    pub message: Option<Message>,
}

/// Whether the caller waits for the end of the task, or follows its events.
#[derive(Debug, Clone, Copy, PartialEq, Eq, Structural)]
pub enum DeliveryMode {
    Blocking,
    Streaming,
}

/// The events of a task so far, and whether more may follow.
#[derive(Debug)]
pub struct TaskStream {
    pub initial_events: Vec<TaskEvent>,
    pub follow: bool,
}

/// How a message was dealt with.
#[derive(Debug)]
pub enum DeliveryOutcome {
    Task(TaskView),
    Message(Message),
    Stream(TaskStream),
}

/// The answer to a message.
#[derive(Debug)]
pub enum SendMessageResponse {
    Task(TaskView),
    Message(Message),
}

/// The answer to a message whose task is followed.
#[derive(Debug)]
pub enum PreparedSendMessage {
    Task(TaskStream),
    Message(Message),
}

/// Where a message belongs.
#[derive(Debug)]
pub enum MessageRoute {
    ExistingTask { context_id: String, task_id: String },
    ExistingContext { context_id: String },
    NewContext,
}

/// What the agent decided on a request that belongs to no task.
#[derive(Debug)]
pub enum NegotiationDecision {
    StartTask { skill_id: String, reasoning: String },
    AskClarification { message: String },
    Reject { reason: String },
}

/// A conversation and a task in it.
#[derive(Debug)]
pub struct TaskIdentifiers {
    pub context_id: String,
    pub task_id: String,
}

/// What a skill is asked: to begin with a request, or to go on with input.
#[derive(Debug)]
pub enum ExecutionPhase {
    Initial(Content),
    Input(Content),
}

/// What a skill answered.
#[derive(Debug)]
pub enum ExecutionResult {
    Initial(OnRequestResult),
    Input(OnInputResult),
}

/// Something to store or to publish.
#[derive(Debug)]
#[allow(inconsistent_fields)]
pub enum StoreEffect {
    SaveTask(Task),
    SetTaskSkill { task_id: String, skill_id: String },
    /// Store the event, then publish it.
    PushEvent(TaskEvent),
    SaveTaskState { task_id: String, state: TaskState },
    SaveSessionState { context_id: String, state: SessionState },
}

/// The model of an effect.
#[allow(inconsistent_fields)]
pub enum EffectModel {
    SaveTask(TaskModel),
    SetTaskSkill { task_id: Seq<char>, skill_id: Seq<char> },
    PushEvent(TaskEventModel),
    SaveTaskState { task_id: Seq<char>, state: TaskStateModel },
    SaveSessionState { context_id: Seq<char>, state: Map<Seq<char>, Json> },
}

impl View for StoreEffect {
    type V = EffectModel;

    open spec fn view(&self) -> EffectModel {
        match *self {
            StoreEffect::SaveTask(t) => EffectModel::SaveTask(t@),
            StoreEffect::SetTaskSkill { task_id, skill_id } => EffectModel::SetTaskSkill {
                task_id: task_id@,
                skill_id: skill_id@,
            },
            StoreEffect::PushEvent(e) => EffectModel::PushEvent(e@),
            StoreEffect::SaveTaskState { task_id, state } => EffectModel::SaveTaskState {
                task_id: task_id@,
                state: state@,
            },
            StoreEffect::SaveSessionState { context_id, state } => EffectModel::SaveSessionState {
                context_id: context_id@,
                state: state@,
            },
        }
    }
}

/// The models of a row of effects.
pub open spec fn effect_models(v: Seq<StoreEffect>) -> Seq<EffectModel> {
    Seq::new(v.len(), |i: int| v[i]@)
}

proof fn lemma_effect_push(s: Seq<StoreEffect>, e: StoreEffect)
    ensures
        effect_models(s.push(e)) == effect_models(s).push(e@),
{
    assert(effect_models(s.push(e)) =~= effect_models(s).push(e@));
}

impl TaskIdentifiers {
    /// A conversation and a task in it.
    pub fn new(context_id: String, task_id: String) -> (r: TaskIdentifiers)
        ensures
            r == (TaskIdentifiers { context_id, task_id }),
    {
        TaskIdentifiers { context_id, task_id }
    }
}

// ---------------------------------------------------------------------------
// Where a message belongs
// ---------------------------------------------------------------------------

impl MessageRoute {
    /// Where a message belongs: to the task it names in the conversation it names, to the
    /// conversation it names, or to a new one. A task without its conversation is refused.
    pub fn from_params(params: &SendMessageRequest) -> (r: Result<MessageRoute, AgentError>)
        ensures
            match params.message {
                None => r matches Err(e) && e@ == ErrorView::InvalidInput("message is required"@),
                Some(m) => {
                    let context = m.context_id@.len() > 0;
                    let task = m.task_id@.len() > 0;
                    match r {
                        Ok(MessageRoute::ExistingTask { context_id, task_id }) => context && task
                            && context_id == m.context_id && task_id == m.task_id,
                        Ok(MessageRoute::ExistingContext { context_id }) => context && !task
                            && context_id == m.context_id,
                        Ok(MessageRoute::NewContext) => !context && !task,
                        Err(e) => !context && task && e@ == ErrorView::InvalidInput(
                            "context_id is required when passing task_id"@,
                        ),
                    }
                },
            },
    {
        let msg = match &params.message {
            Some(m) => m,
            None => {
                return Err(AgentError::InvalidInput("message is required".to_owned()));
            },
        };
        let no_context = is_empty_text(msg.context_id.as_str());
        let no_task = is_empty_text(msg.task_id.as_str());
        if no_context {
            if no_task {
                Ok(MessageRoute::NewContext)
            } else {
                Err(
                    AgentError::InvalidInput(
                        "context_id is required when passing task_id".to_owned(),
                    ),
                )
            }
        } else if no_task {
            Ok(MessageRoute::ExistingContext { context_id: msg.context_id.clone() })
        } else {
            Ok(
                MessageRoute::ExistingTask {
                    context_id: msg.context_id.clone(),
                    task_id: msg.task_id.clone(),
                },
            )
        }
    }
}

/// The model of a message of the protocol.
pub open spec fn message_model(
    message_id: Seq<char>,
    context_id: Seq<char>,
    task_id: Option<Seq<char>>,
    role: Role,
    content: Seq<PartModel>,
) -> MessageModel {
    MessageModel {
        message_id,
        context_id,
        task_id: match task_id {
            Some(t) => t,
            None => Seq::empty(),
        },
        role,
        content,
    }
}

/// A message in a conversation, and of a task where there is one.
pub fn create_message(
    message_id: String,
    context_id: &str,
    task_id: Option<&str>,
    role: Role,
    content: Content,
) -> (r: Message)
    ensures
        r@ == message_model(
            message_id@,
            context_id@,
            match task_id {
                Some(t) => Some(t@),
                None => None,
            },
            role,
            content@,
        ),
{
    let task = match task_id {
        Some(t) => t.to_owned(),
        None => {
            let s = String::new();
            proof {
                assert(s@ =~= Seq::<char>::empty());
            }
            s
        },
    };
    Message { message_id, context_id: context_id.to_owned(), task_id: task, role, content }
}

// ---------------------------------------------------------------------------
// What a skill answered
// ---------------------------------------------------------------------------

impl ExecutionResult {
    /// The state that the task comes to.
    pub open spec fn state(self) -> A2aTaskState {
        match self {
            ExecutionResult::Initial(r) => request_state(r),
            ExecutionResult::Input(r) => input_state(r),
        }
    }

    /// What is said, if anything.
    pub open spec fn says(self) -> Option<Content> {
        match self {
            ExecutionResult::Initial(OnRequestResult::Completed { message, .. }) => message,
            ExecutionResult::Input(OnInputResult::Completed { message, .. }) => message,
            ExecutionResult::Initial(OnRequestResult::InputRequired { message, .. }) => Some(message),
            ExecutionResult::Input(OnInputResult::InputRequired { message, .. }) => Some(message),
            ExecutionResult::Initial(OnRequestResult::Failed { error }) => Some(error),
            ExecutionResult::Input(OnInputResult::Failed { error }) => Some(error),
            ExecutionResult::Initial(OnRequestResult::Rejected { reason }) => Some(reason),
        }
    }

    /// What is kept while the user is asked, if anything.
    pub open spec fn keeps(self) -> Option<SkillSlot> {
        match self {
            ExecutionResult::Initial(OnRequestResult::InputRequired { slot, .. }) => Some(slot),
            ExecutionResult::Input(OnInputResult::InputRequired { slot, .. }) => Some(slot),
            _ => None,
        }
    }

    /// What was produced, where the task was completed.
    pub open spec fn produced(self) -> Option<Seq<Artifact>> {
        match self {
            ExecutionResult::Initial(OnRequestResult::Completed { artifacts, .. }) => Some(
                artifacts@,
            ),
            ExecutionResult::Input(OnInputResult::Completed { artifacts, .. }) => Some(artifacts@),
            _ => None,
        }
    }

    /// The status that the task comes to.
    pub fn status(&self, now: Timestamp) -> (r: TaskStatus)
        ensures
            r@ == plain_status(self.state(), now),
            r.message is None,
    {
        let state = match self {
            ExecutionResult::Initial(result) => on_request_to_state(result),
            ExecutionResult::Input(result) => on_input_to_state(result),
        };
        status_without_message(state, now)
    }

    /// What is said, if anything.
    pub fn message_content(&self) -> (r: Option<&Content>)
        ensures
            match r {
                Some(c) => self.says() == Some(*c),
                None => self.says() is None,
            },
    {
        match self {
            ExecutionResult::Initial(OnRequestResult::Completed { message, .. }) => message.as_ref(),
            ExecutionResult::Input(OnInputResult::Completed { message, .. }) => message.as_ref(),
            ExecutionResult::Initial(OnRequestResult::InputRequired { message, .. }) => Some(message),
            ExecutionResult::Input(OnInputResult::InputRequired { message, .. }) => Some(message),
            ExecutionResult::Initial(OnRequestResult::Failed { error }) => Some(error),
            ExecutionResult::Input(OnInputResult::Failed { error }) => Some(error),
            ExecutionResult::Initial(OnRequestResult::Rejected { reason }) => Some(reason),
        }
    }

    /// What is kept while the user is asked, if anything.
    pub fn slot(&self) -> (r: Option<&SkillSlot>)
        ensures
            match r {
                Some(s) => self.keeps() == Some(*s),
                None => self.keeps() is None,
            },
    {
        match self {
            ExecutionResult::Initial(OnRequestResult::InputRequired { slot, .. }) => Some(slot),
            ExecutionResult::Input(OnInputResult::InputRequired { slot, .. }) => Some(slot),
            _ => None,
        }
    }

    /// What was produced, where the task was completed.
    pub fn artifacts(&self) -> (r: Option<&Vec<Artifact>>)
        ensures
            match r {
                Some(a) => self.produced() == Some(a@),
                None => self.produced() is None,
            },
    {
        match self {
            ExecutionResult::Initial(OnRequestResult::Completed { artifacts, .. }) => Some(
                artifacts,
            ),
            ExecutionResult::Input(OnInputResult::Completed { artifacts, .. }) => Some(artifacts),
            _ => None,
        }
    }
}

// ---------------------------------------------------------------------------
// Running a task
// ---------------------------------------------------------------------------

/// What was kept, as a skill is handed it.
pub fn begin_run(task_state: TaskState, session_state: Option<SessionState>) -> (r: State)
    ensures
        r.task == task_state,
        match session_state {
            Some(s) => r.session == s,
            None => r.session@ == Map::<Seq<char>, Json>::empty(),
        },
{
    let session = match session_state {
        Some(s) => s,
        None => SessionState::new(),
    };
    State::with_states(task_state, session)
}

/// A task after a run, and what is to be stored and published.
#[derive(Debug)]
pub struct FinishedRun {
    pub task: Task,
    pub effects: Vec<StoreEffect>,
}

/// The event for an artifact.
pub open spec fn artifact_event(
    context_id: Seq<char>,
    task_id: Seq<char>,
    artifact: ArtifactModel,
) -> TaskEventModel {
    TaskEventModel::ArtifactUpdate {
        task_id,
        context_id,
        artifact: Some(artifact),
        append: false,
        last_chunk: true,
    }
}

/// One event for each artifact.
pub open spec fn artifact_effects(
    context_id: Seq<char>,
    task_id: Seq<char>,
    artifacts: Seq<ArtifactModel>,
) -> Seq<EffectModel> {
    Seq::new(
        artifacts.len(),
        |i: int| EffectModel::PushEvent(artifact_event(context_id, task_id, artifacts[i])),
    )
}

/// The models of what was produced, none where nothing was.
pub open spec fn produced_models(result: ExecutionResult) -> Seq<ArtifactModel> {
    match result.produced() {
        Some(a) => artifact_models(a),
        None => Seq::empty(),
    }
}

/// The task after a run: with its new status, and with what was produced in place of what it
/// had, where it was completed.
pub open spec fn finished_task(task: TaskModel, result: ExecutionResult, now: Timestamp) -> TaskModel {
    TaskModel {
        status: plain_status(result.state(), now),
        artifacts: match result.produced() {
            Some(a) => artifact_models(a),
            None => task.artifacts,
        },
        ..task
    }
}

/// What is kept for the task after a run: the slot exactly while the user is asked.
pub open spec fn finished_state(state: TaskStateModel, result: ExecutionResult) -> TaskStateModel {
    TaskStateModel {
        slot: match result.keeps() {
            Some(s) => Some(s.value@),
            None => None,
        },
        ..state
    }
}

/// The event for what is said, if anything.
pub open spec fn message_effects(
    context_id: Seq<char>,
    task_id: Seq<char>,
    message_id: Seq<char>,
    result: ExecutionResult,
) -> Seq<EffectModel> {
    match result.says() {
        Some(c) => seq![
            EffectModel::PushEvent(
                TaskEventModel::Message(
                    message_model(message_id, context_id, Some(task_id), Role::Assistant, c@),
                ),
            ),
        ],
        None => Seq::empty(),
    }
}

/// The event for the status that a task comes to.
pub open spec fn status_event(
    context_id: Seq<char>,
    task_id: Seq<char>,
    state: A2aTaskState,
    now: Timestamp,
) -> TaskEventModel {
    TaskEventModel::StatusUpdate {
        task_id,
        context_id,
        status: Some(plain_status(state, now)),
        is_final: is_terminal(state.code()) || state == A2aTaskState::InputRequired,
    }
}

/// What is stored and published after a run, in order: the artifacts, what is kept for the task
/// and for the conversation, what is said, the status, and the task.
pub open spec fn finish_effects(
    task: TaskModel,
    context_id: Seq<char>,
    task_id: Seq<char>,
    state: TaskStateModel,
    session: Map<Seq<char>, Json>,
    result: ExecutionResult,
    message_id: Seq<char>,
    now: Timestamp,
) -> Seq<EffectModel> {
    artifact_effects(context_id, task_id, produced_models(result)) + seq![
        EffectModel::SaveTaskState { task_id, state: finished_state(state, result) },
        EffectModel::SaveSessionState { context_id, state: session },
    ] + message_effects(context_id, task_id, message_id, result) + seq![
        EffectModel::PushEvent(status_event(context_id, task_id, result.state(), now)),
        EffectModel::SaveTask(finished_task(task, result, now)),
    ]
}

fn push_artifacts(
    effects: &mut Vec<StoreEffect>,
    context_id: &str,
    task_id: &str,
    artifacts: &Vec<Artifact>,
)
    ensures
        effect_models(final(effects)@) == effect_models(old(effects)@) + artifact_effects(
            context_id@,
            task_id@,
            artifact_models(artifacts@),
        ),
{
    let ghost before = effect_models(effects@);
    let ghost all = artifact_effects(context_id@, task_id@, artifact_models(artifacts@));
    let mut i: usize = 0;
    proof {
        assert(before + all.take(0) =~= before);
    }
    while i < artifacts.len()
        invariant
            i <= artifacts.len(),
            all == artifact_effects(context_id@, task_id@, artifact_models(artifacts@)),
            effect_models(effects@) == before + all.take(i as int),
        decreases artifacts.len() - i,
    {
        let e = StoreEffect::PushEvent(
            TaskEvent::ArtifactUpdate(
                TaskArtifactUpdate {
                    task_id: task_id.to_owned(),
                    context_id: context_id.to_owned(),
                    artifact: Some(artifacts[i].clone()),
                    append: false,
                    last_chunk: true,
                },
            ),
        );
        let ghost now = effects@;
        effects.push(e);
        proof {
            lemma_effect_push(now, e);
            assert(artifact_models(artifacts@)[i as int] == artifacts@[i as int]@);
            assert(all[i as int] == e@);
            assert(effect_models(effects@) =~= before + all.take(i + 1));
        }
        i = i + 1;
    }
    proof {
        assert(all.take(all.len() as int) =~= all);
    }
}

fn copy_slot(slot: &SkillSlot) -> (r: SkillSlot)
    ensures
        r.value@ == slot.value@,
{
    SkillSlot { value: slot.value.clone() }
}

/// What follows the answer of a skill: the task with its new status, and what is to be stored
/// and published. What is said gets the identifier, the status the time that are given.
pub fn finish_run(
    task: Task,
    identifiers: &TaskIdentifiers,
    state: State,
    result: &ExecutionResult,
    message_id: String,
    now: Timestamp,
) -> (r: FinishedRun)
    ensures
        r.task@ == finished_task(task@, *result, now),
        effect_models(r.effects@) == finish_effects(
            task@,
            identifiers.context_id@,
            identifiers.task_id@,
            state@.task,
            state@.session,
            *result,
            message_id@,
            now,
        ),
{
    let context_id = identifiers.context_id.as_str();
    let task_id = identifiers.task_id.as_str();
    let mut effects: Vec<StoreEffect> = Vec::new();
    proof {
        assert(effect_models(effects@) =~= Seq::<EffectModel>::empty());
    }
    let (kept, saved) = match result.artifacts() {
        Some(artifacts) => {
            push_artifacts(&mut effects, context_id, task_id, artifacts);
            (copy_artifacts(artifacts), copy_artifacts(artifacts))
        },
        None => {
            let copy = copy_artifacts(&task.artifacts);
            (task.artifacts, copy)
        },
    };
    proof {
        assert(effect_models(effects@) =~= artifact_effects(
            context_id@,
            task_id@,
            produced_models(*result),
        ));
    }
    let ghost e0 = effect_models(effects@);
    let mut state = state;
    match result.slot() {
        Some(slot) => {
            state.set_pending_slot(copy_slot(slot));
        },
        None => {
            state.clear_pending_slot();
        },
    }
    let (task_state, session_state) = state.into_parts();
    let s1 = StoreEffect::SaveTaskState { task_id: task_id.to_owned(), state: task_state };
    let ghost b1 = effects@;
    effects.push(s1);
    let s2 = StoreEffect::SaveSessionState {
        context_id: context_id.to_owned(),
        state: session_state,
    };
    let ghost b2 = effects@;
    effects.push(s2);
    proof {
        lemma_effect_push(b1, s1);
        lemma_effect_push(b2, s2);
    }
    let ghost e1 = effect_models(effects@);
    match result.message_content() {
        Some(content) => {
            let m = create_message(
                message_id,
                context_id,
                Some(task_id),
                Role::Assistant,
                content.clone(),
            );
            let e = StoreEffect::PushEvent(TaskEvent::Message(m));
            let ghost b = effects@;
            effects.push(e);
            proof {
                lemma_effect_push(b, e);
            }
        },
        None => {},
    }
    proof {
        assert(effect_models(effects@) =~= e1 + message_effects(
            context_id@,
            task_id@,
            message_id@,
            *result,
        ));
    }
    let ghost e2 = effect_models(effects@);
    let status = result.status(now);
    let is_final = is_terminal_status(&status) || can_continue(&status);
    let s3 = StoreEffect::PushEvent(
        TaskEvent::StatusUpdate(
            TaskStatusUpdate {
                task_id: task_id.to_owned(),
                context_id: context_id.to_owned(),
                status: Some(status),
                is_final,
            },
        ),
    );
    let ghost b3 = effects@;
    effects.push(s3);
    let s4 = StoreEffect::SaveTask(
        Task {
            id: task.id.clone(),
            context_id: task.context_id.clone(),
            status: result.status(now),
            artifacts: saved,
        },
    );
    let ghost b4 = effects@;
    effects.push(s4);
    proof {
        lemma_effect_push(b3, s3);
        lemma_effect_push(b4, s4);
        assert(e1 =~= e0 + seq![s1@, s2@]);
        assert(effect_models(effects@) =~= e2 + seq![s3@, s4@]);
    }
    FinishedRun {
        task: Task {
            id: task.id,
            context_id: task.context_id,
            status: result.status(now),
            artifacts: kept,
        },
        effects,
    }
}

// ---------------------------------------------------------------------------
// Events and answers
// ---------------------------------------------------------------------------

/// The events from `baseline_len` on.
pub fn collect_new_events(events: Vec<TaskEvent>, baseline_len: usize) -> (r: Vec<TaskEvent>)
    ensures
        r@ == if baseline_len <= events@.len() {
            events@.skip(baseline_len as int)
        } else {
            Seq::empty()
        },
{
    let mut events = events;
    if baseline_len >= events.len() {
        proof {
            if baseline_len == events@.len() {
                assert(events@.skip(baseline_len as int) =~= Seq::<TaskEvent>::empty());
            }
        }
        return Vec::new();
    }
    let ghost all = events@;
    let r = events.split_off(baseline_len);
    proof {
        assert(r@ =~= all.skip(baseline_len as int));
    }
    r
}

/// The answer to a caller that waits for the end of the task.
pub fn blocking_response(outcome: DeliveryOutcome) -> (r: Result<SendMessageResponse, AgentError>)
    ensures
        match outcome {
            DeliveryOutcome::Task(t) => r == Ok::<SendMessageResponse, AgentError>(
                SendMessageResponse::Task(t),
            ),
            DeliveryOutcome::Message(m) => r == Ok::<SendMessageResponse, AgentError>(
                SendMessageResponse::Message(m),
            ),
            DeliveryOutcome::Stream(_) => r matches Err(e) && e@ == (ErrorView::Internal {
                component: "runtime"@,
                reason: "streaming response produced for blocking message/send"@,
            }),
        },
{
    match outcome {
        DeliveryOutcome::Task(t) => Ok(SendMessageResponse::Task(t)),
        DeliveryOutcome::Message(m) => Ok(SendMessageResponse::Message(m)),
        DeliveryOutcome::Stream(_) => Err(
            AgentError::Internal {
                component: "runtime".to_owned(),
                reason: "streaming response produced for blocking message/send".to_owned(),
            },
        ),
    }
}

/// The answer to a caller that follows the events of the task.
pub fn streaming_response(outcome: DeliveryOutcome) -> (r: Result<PreparedSendMessage, AgentError>)
    ensures
        match outcome {
            DeliveryOutcome::Stream(s) => r == Ok::<PreparedSendMessage, AgentError>(
                PreparedSendMessage::Task(s),
            ),
            DeliveryOutcome::Message(m) => r == Ok::<PreparedSendMessage, AgentError>(
                PreparedSendMessage::Message(m),
            ),
            DeliveryOutcome::Task(_) => r matches Err(e) && e@ == (ErrorView::Internal {
                component: "runtime"@,
                reason: "blocking task returned while handling message/stream"@,
            }),
        },
{
    match outcome {
        DeliveryOutcome::Stream(s) => Ok(PreparedSendMessage::Task(s)),
        DeliveryOutcome::Message(m) => Ok(PreparedSendMessage::Message(m)),
        DeliveryOutcome::Task(_) => Err(
            AgentError::Internal {
                component: "runtime".to_owned(),
                reason: "blocking task returned while handling message/stream".to_owned(),
            },
        ),
    }
}

// ---------------------------------------------------------------------------
// The executor
// ---------------------------------------------------------------------------

/// What runs requests knows the agent that they are for.
pub trait ExecutorRuntime {
    /// What runs the skills of the agent.
    type Handler;

    /// The agent: an implementation says which it is.
    open spec fn definition(&self) -> AgentDefinition<Self::Handler> {
        arbitrary()
    }

    /// The agent.
    fn agent(&self) -> (r: &AgentDefinition<Self::Handler>)
        ensures
            *r == self.definition(),
    ;
}

impl<H> ExecutorRuntime for AgentDefinition<H> {
    type Handler = H;

    open spec fn definition(&self) -> AgentDefinition<H> {
        *self
    }

    fn agent(&self) -> (r: &AgentDefinition<H>) {
        self
    }
}

/// Decides on requests to an agent.
pub struct RequestExecutor<R: ExecutorRuntime> {
    pub runtime: R,
}

/// A task that begins, with the skill that runs it, and what is to be stored and published.
#[derive(Debug)]
pub struct InitializedTask {
    pub task: Task,
    pub skill_index: usize,
    pub task_state: TaskState,
    pub identifiers: TaskIdentifiers,
    pub effects: Vec<StoreEffect>,
}

/// A task that goes on, with the skill that runs it, and what is to be stored.
#[derive(Debug)]
pub struct PreparedContinuation {
    pub task: Task,
    pub skill_index: usize,
    pub task_state: TaskState,
    pub identifiers: TaskIdentifiers,
    pub effects: Vec<StoreEffect>,
}

/// What follows a decision.
#[derive(Debug)]
pub enum NegotiationNext {
    /// A task of this skill begins.
    Start { skill_id: String, mode: DeliveryMode },
    /// The message is the answer.
    Reply,
}

/// What the agent says on a request that belongs to no task, and what follows.
#[derive(Debug)]
pub struct NegotiationDelivery {
    pub message: Message,
    pub next: NegotiationNext,
}

/// The skill at `i` is the first with this identifier.
pub open spec fn first_skill<H>(skills: Seq<SkillRegistration<H>>, id: Seq<char>, i: int) -> bool {
    &&& 0 <= i < skills.len()
    &&& skills[i].metadata.id@ == id
    &&& forall|j: int| 0 <= j < i ==> (#[trigger] skills[j]).metadata.id@ != id
}

/// No skill has this identifier.
pub open spec fn no_skill<H>(skills: Seq<SkillRegistration<H>>, id: Seq<char>) -> bool {
    forall|j: int| 0 <= j < skills.len() ==> (#[trigger] skills[j]).metadata.id@ != id
}

/// A task that has just begun.
pub open spec fn new_task(task_id: Seq<char>, context_id: Seq<char>, now: Timestamp) -> TaskModel {
    TaskModel {
        id: task_id,
        context_id,
        status: plain_status(A2aTaskState::Working, now),
        artifacts: Seq::empty(),
    }
}

/// What is stored and published when a task begins, in order: the task, its skill, and what
/// the user said.
pub open spec fn start_effects(
    task_id: Seq<char>,
    context_id: Seq<char>,
    skill_id: Seq<char>,
    message_id: Seq<char>,
    content: Seq<PartModel>,
    now: Timestamp,
) -> Seq<EffectModel> {
    seq![
        EffectModel::SaveTask(new_task(task_id, context_id, now)),
        EffectModel::SetTaskSkill { task_id, skill_id },
        EffectModel::PushEvent(
            TaskEventModel::Message(
                message_model(message_id, context_id, Some(task_id), Role::User, content),
            ),
        ),
    ]
}

fn working_task(task_id: &str, context_id: &str, now: Timestamp) -> (r: Task)
    ensures
        r@ == new_task(task_id@, context_id@, now),
{
    let t = Task {
        id: task_id.to_owned(),
        context_id: context_id.to_owned(),
        status: status_without_message(A2aTaskState::Working, now),
        artifacts: Vec::new(),
    };
    proof {
        assert(artifact_models(t.artifacts@) =~= Seq::<ArtifactModel>::empty());
    }
    t
}

/// A fresh identifier for a task or a conversation.
pub fn new_identifier() -> (r: String)
    ensures
        is_uuid(r@),
{
    new_uuid()
}

impl<R: ExecutorRuntime> RequestExecutor<R> {
    /// Decides on requests to the agent of a runtime.
    #[must_use]
    pub fn new(runtime: R) -> (r: RequestExecutor<R>)
        ensures
            r.runtime == runtime,
    {
        RequestExecutor { runtime }
    }

    fn skill_position(&self, skill_id: &str) -> (r: Result<usize, AgentError>)
        ensures
            match r {
                Ok(i) => first_skill(self.runtime.definition().skills@, skill_id@, i as int),
                Err(e) => no_skill(self.runtime.definition().skills@, skill_id@) && e@ == (
                ErrorView::SkillNotFound { skill_id: skill_id@ }),
            },
    {
        let agent = self.runtime.agent();
        let mut i: usize = 0;
        while i < agent.skills.len()
            invariant
                i <= agent.skills.len(),
                *agent == self.runtime.definition(),
                forall|j: int|
                    0 <= j < i ==> (#[trigger] agent.skills@[j]).metadata.id@ != skill_id@,
            decreases agent.skills.len() - i,
        {
            if same_text(agent.skills[i].id(), skill_id) {
                return Ok(i);
            }
            i = i + 1;
        }
        Err(AgentError::SkillNotFound { skill_id: skill_id.to_owned() })
    }

    /// The first skill with this identifier.
    pub fn find_skill_by_id(&self, skill_id: &str) -> (r: Result<
        &SkillRegistration<R::Handler>,
        AgentError,
    >)
        ensures
            match r {
                Ok(s) => exists|i: int| #[trigger]
                    first_skill(self.runtime.definition().skills@, skill_id@, i) && *s
                        == self.runtime.definition().skills@[i],
                Err(e) => no_skill(self.runtime.definition().skills@, skill_id@) && e@ == (
                ErrorView::SkillNotFound { skill_id: skill_id@ }),
            },
    {
        match self.skill_position(skill_id) {
            Ok(i) => {
                let agent = self.runtime.agent();
                Ok(&agent.skills[i])
            },
            Err(e) => Err(e),
        }
    }

    /// The task that a message goes on with. `stored` is what the store has under its
    /// identifier; it must be there, and belong to the conversation.
    pub fn handle_existing_task(stored: Option<Task>, context_id: &str, task_id: &str) -> (r: Result<
        Task,
        AgentError,
    >)
        ensures
            match stored {
                None => r matches Err(e) && e@ == (ErrorView::TaskNotFound { task_id: task_id@ }),
                Some(task) => if task.context_id@ == context_id@ {
                    r == Ok::<Task, AgentError>(task)
                } else {
                    r matches Err(e) && e@ == ErrorView::InvalidInput(
                        "Task id "@ + task_id@ + " does not belong to context id "@ + context_id@,
                    )
                },
            },
    {
        match stored {
            None => Err(AgentError::TaskNotFound { task_id: task_id.to_owned() }),
            Some(task) => {
                if same_text(task.context_id.as_str(), context_id) {
                    Ok(task)
                } else {
                    let mut s = concat3("Task id ", task_id, " does not belong to context id ");
                    s.append(context_id);
                    Err(AgentError::InvalidInput(s))
                }
            },
        }
    }

    /// Checks that a conversation is known: there are tasks in it, or messages that belong to
    /// no task.
    pub fn handle_existing_context(
        context_id: &str,
        related_tasks: usize,
        negotiation_messages: usize,
    ) -> (r: Result<(), AgentError>)
        ensures
            match r {
                Ok(_) => related_tasks > 0 || negotiation_messages > 0,
                Err(e) => related_tasks == 0 && negotiation_messages == 0 && e@
                    == ErrorView::InvalidInput("Invalid context id "@ + context_id@),
            },
    {
        if related_tasks == 0 && negotiation_messages == 0 {
            Err(AgentError::InvalidInput(concat2("Invalid context id ", context_id)))
        } else {
            Ok(())
        }
    }

    /// What the agent says on a request that belongs to no task, and what follows: a task that
    /// begins, or nothing but what is said.
    pub fn deliver_negotiation_decision(
        decision: NegotiationDecision,
        context_id: &str,
        message_id: String,
        mode: DeliveryMode,
    ) -> (r: NegotiationDelivery)
        ensures
            r.message@ == message_model(
                message_id@,
                context_id@,
                None,
                Role::Assistant,
                seq![
                    PartModel::Text(
                        match decision {
                            NegotiationDecision::StartTask { reasoning, .. } => reasoning@,
                            NegotiationDecision::AskClarification { message } => message@,
                            NegotiationDecision::Reject { reason } => reason@,
                        },
                    ),
                ],
            ),
            match decision {
                NegotiationDecision::StartTask { skill_id, .. } => r.next
                    == NegotiationNext::Start { skill_id, mode },
                _ => r.next == NegotiationNext::Reply,
            },
    {
        let (text, next) = match decision {
            NegotiationDecision::StartTask { skill_id, reasoning } => (
                reasoning,
                NegotiationNext::Start { skill_id, mode },
            ),
            NegotiationDecision::AskClarification { message } => (message, NegotiationNext::Reply),
            NegotiationDecision::Reject { reason } => (reason, NegotiationNext::Reply),
        };
        let message = create_message(
            message_id,
            context_id,
            None,
            Role::Assistant,
            Content::from_text(text),
        );
        NegotiationDelivery { message, next }
    }

    /// The beginning of a task of a skill. Nothing is stored where there is no such skill.
    pub fn initialize_new_task(
        &self,
        task_id: String,
        context_id: &str,
        skill_id: &str,
        initial_message: Content,
        message_id: String,
        now: Timestamp,
    ) -> (r: Result<InitializedTask, AgentError>)
        ensures
            match r {
                Ok(t) => {
                    &&& first_skill(
                        self.runtime.definition().skills@,
                        skill_id@,
                        t.skill_index as int,
                    )
                    &&& t.task@ == new_task(task_id@, context_id@, now)
                    &&& t.task_state@ == TaskStateModel::empty()
                    &&& t.identifiers.task_id@ == task_id@
                    &&& t.identifiers.context_id@ == context_id@
                    &&& effect_models(t.effects@) == start_effects(
                        task_id@,
                        context_id@,
                        skill_id@,
                        message_id@,
                        initial_message@,
                        now,
                    )
                },
                Err(e) => no_skill(self.runtime.definition().skills@, skill_id@) && e@ == (
                ErrorView::SkillNotFound { skill_id: skill_id@ }),
            },
    {
        let skill_index = match self.skill_position(skill_id) {
            Ok(i) => i,
            Err(e) => {
                return Err(e);
            },
        };
        let mut effects: Vec<StoreEffect> = Vec::new();
        effects.push(StoreEffect::SaveTask(working_task(task_id.as_str(), context_id, now)));
        effects.push(
            StoreEffect::SetTaskSkill {
                task_id: task_id.clone(),
                skill_id: skill_id.to_owned(),
            },
        );
        let m = create_message(
            message_id,
            context_id,
            Some(task_id.as_str()),
            Role::User,
            initial_message,
        );
        effects.push(StoreEffect::PushEvent(TaskEvent::Message(m)));
        proof {
            assert(effect_models(effects@) =~= start_effects(
                task_id@,
                context_id@,
                skill_id@,
                message_id@,
                initial_message@,
                now,
            ));
        }
        Ok(
            InitializedTask {
                task: working_task(task_id.as_str(), context_id, now),
                skill_index,
                task_state: TaskState::new(),
                identifiers: TaskIdentifiers::new(context_id.to_owned(), task_id),
                effects,
            },
        )
    }

    /// The error for a task that cannot go on.
    pub open spec fn cannot_go_on(task: Task) -> ErrorView {
        ErrorView::InvalidTaskStateTransition {
            from: signed_decimal(task.status.state as int),
            to: "continuation"@,
        }
    }

    /// Checks that a task waits for the user.
    pub fn check_continuation(task: &Task) -> (r: Result<(), AgentError>)
        ensures
            match r {
                Ok(_) => continuable(task.status.state),
                Err(e) => !continuable(task.status.state) && e@ == Self::cannot_go_on(*task),
            },
    {
        if can_continue(&task.status) {
            Ok(())
        } else {
            Err(
                AgentError::InvalidTaskStateTransition {
                    from: signed_decimal_text(task.status.state),
                    to: "continuation".to_owned(),
                },
            )
        }
    }

    /// The task before it goes on: it is working again.
    pub open spec fn going_on(task: TaskModel, now: Timestamp) -> TaskModel {
        TaskModel { status: plain_status(A2aTaskState::Working, now), ..task }
    }

    /// What a task goes on with. `skill_id` is the skill that the store has for it,
    /// `task_state` what was kept for it. The task must wait for the user, and its skill must
    /// be known.
    pub fn prepare_task_for_continuation(
        &self,
        task: Task,
        skill_id: Option<String>,
        task_state: Option<TaskState>,
        now: Timestamp,
    ) -> (r: Result<PreparedContinuation, AgentError>)
        ensures
            if !continuable(task.status.state) {
                r matches Err(e) && e@ == Self::cannot_go_on(task)
            } else {
                match skill_id {
                    None => r matches Err(e) && e@ == (ErrorView::Internal {
                        component: "task_manager"@,
                        reason: "No skill associated with task "@ + task.id@,
                    }),
                    Some(id) => match r {
                        Err(e) => no_skill(self.runtime.definition().skills@, id@) && e@ == (
                        ErrorView::SkillNotFound { skill_id: id@ }),
                        Ok(p) => {
                            &&& first_skill(
                                self.runtime.definition().skills@,
                                id@,
                                p.skill_index as int,
                            )
                            &&& p.task@ == Self::going_on(task@, now)
                            &&& p.identifiers.task_id@ == task.id@
                            &&& p.identifiers.context_id@ == task.context_id@
                            &&& match task_state {
                                Some(s) => p.task_state == s,
                                None => p.task_state@ == TaskStateModel::empty(),
                            }
                            &&& effect_models(p.effects@) == seq![
                                EffectModel::SaveTask(Self::going_on(task@, now)),
                            ]
                        },
                    },
                }
            },
    {
        match Self::check_continuation(&task) {
            Ok(_) => {},
            Err(e) => {
                return Err(e);
            },
        }
        let id = match skill_id {
            Some(id) => id,
            None => {
                return Err(
                    AgentError::Internal {
                        component: "task_manager".to_owned(),
                        reason: concat2("No skill associated with task ", task.id.as_str()),
                    },
                );
            },
        };
        let skill_index = match self.skill_position(id.as_str()) {
            Ok(i) => i,
            Err(e) => {
                return Err(e);
            },
        };
        let state = match task_state {
            Some(s) => s,
            None => TaskState::new(),
        };
        let saved = Task {
            id: task.id.clone(),
            context_id: task.context_id.clone(),
            status: status_without_message(A2aTaskState::Working, now),
            artifacts: copy_artifacts(&task.artifacts),
        };
        let mut effects: Vec<StoreEffect> = Vec::new();
        effects.push(StoreEffect::SaveTask(saved));
        proof {
            assert(effect_models(effects@) =~= seq![
                EffectModel::SaveTask(Self::going_on(task@, now)),
            ]);
        }
        let identifiers = TaskIdentifiers::new(task.context_id.clone(), task.id.clone());
        Ok(
            PreparedContinuation {
                task: Task {
                    id: task.id,
                    context_id: task.context_id,
                    status: status_without_message(A2aTaskState::Working, now),
                    artifacts: task.artifacts,
                },
                skill_index,
                task_state: state,
                identifiers,
                effects,
            },
        )
    }

    /// The task under an identifier, with its history. `stored` and `events` are what the
    /// store has.
    pub fn handle_get_task(stored: Option<Task>, task_id: &str, events: Vec<TaskEvent>) -> (r: Result<
        TaskView,
        AgentError,
    >)
        ensures
            match stored {
                None => r matches Err(e) && e@ == (ErrorView::TaskNotFound { task_id: task_id@ }),
                Some(task) => r matches Ok(v) && tells(v, task, events@),
            },
    {
        match stored {
            None => Err(AgentError::TaskNotFound { task_id: task_id.to_owned() }),
            Some(task) => Ok(task_with_history(task, events)),
        }
    }

    /// The events of a task so far; more may follow unless it is at its end.
    pub fn handle_task_resubscribe(
        stored: Option<Task>,
        task_id: &str,
        events: Vec<TaskEvent>,
    ) -> (r: Result<TaskStream, AgentError>)
        ensures
            match stored {
                None => r matches Err(e) && e@ == (ErrorView::TaskNotFound { task_id: task_id@ }),
                Some(task) => r == Ok::<TaskStream, AgentError>(
                    TaskStream {
                        initial_events: events,
                        follow: !is_terminal(task.status.state),
                    },
                ),
            },
    {
        match stored {
            None => Err(AgentError::TaskNotFound { task_id: task_id.to_owned() }),
            Some(task) => {
                let follow = !is_terminal_status(&task.status);
                Ok(TaskStream { initial_events: events, follow })
            },
        }
    }

    /// Tasks cannot be canceled.
    pub fn handle_cancel_task(task_id: &str) -> (r: Result<TaskView, AgentError>)
        ensures
            r matches Err(e) && e@ == (ErrorView::NotImplemented {
                feature: "tasks/cancel for task_id "@ + task_id@,
            }),
    {
        Err(AgentError::NotImplemented { feature: concat2("tasks/cancel for task_id ", task_id) })
    }
}

// ---------------------------------------------------------------------------
// Laws
// ---------------------------------------------------------------------------

/// The events among effects, in order.
pub open spec fn pushed(effects: Seq<EffectModel>) -> Seq<TaskEventModel>
    decreases effects.len(),
{
    if effects.len() == 0 {
        Seq::empty()
    } else {
        match effects.last() {
            EffectModel::PushEvent(e) => pushed(effects.drop_last()).push(e),
            _ => pushed(effects.drop_last()),
        }
    }
}

/// The messages that events bring into the history, in order.
pub open spec fn told(events: Seq<TaskEventModel>) -> Seq<MessageModel>
    decreases events.len(),
{
    if events.len() == 0 {
        Seq::empty()
    } else {
        let before = told(events.drop_last());
        match events.last() {
            TaskEventModel::Message(m) => before.push(m),
            TaskEventModel::StatusUpdate { status: Some(s), .. } => match s.message {
                Some(m) => before.push(m),
                None => before,
            },
            _ => before,
        }
    }
}

proof fn lemma_pushed_concat(a: Seq<EffectModel>, b: Seq<EffectModel>)
    ensures
        pushed(a + b) == pushed(a) + pushed(b),
    decreases b.len(),
{
    if b.len() == 0 {
        assert(a + b =~= a);
        assert(pushed(a) + pushed(b) =~= pushed(a));
    } else {
        assert((a + b).drop_last() =~= a + b.drop_last());
        lemma_pushed_concat(a, b.drop_last());
        assert(pushed(a + b) =~= pushed(a) + pushed(b));
    }
}

proof fn lemma_told_concat(a: Seq<TaskEventModel>, b: Seq<TaskEventModel>)
    ensures
        told(a + b) == told(a) + told(b),
    decreases b.len(),
{
    if b.len() == 0 {
        assert(a + b =~= a);
        assert(told(a) + told(b) =~= told(a));
    } else {
        assert((a + b).drop_last() =~= a + b.drop_last());
        lemma_told_concat(a, b.drop_last());
        assert(told(a + b) =~= told(a) + told(b));
    }
}

proof fn lemma_artifacts_tell_nothing(
    context_id: Seq<char>,
    task_id: Seq<char>,
    artifacts: Seq<ArtifactModel>,
)
    ensures
        told(pushed(artifact_effects(context_id, task_id, artifacts))).len() == 0,
    decreases artifacts.len(),
{
    if artifacts.len() > 0 {
        let e = artifact_effects(context_id, task_id, artifacts);
        assert(e.drop_last() =~= artifact_effects(context_id, task_id, artifacts.drop_last()));
        lemma_artifacts_tell_nothing(context_id, task_id, artifacts.drop_last());
        assert(pushed(e).drop_last() =~= pushed(e.drop_last()));
    }
}

/// The message that a skill leaves in the history of its task, if it says anything.
pub open spec fn said_by_skill(
    context_id: Seq<char>,
    task_id: Seq<char>,
    message_id: Seq<char>,
    result: ExecutionResult,
) -> Seq<MessageModel> {
    match result.says() {
        Some(c) => seq![message_model(message_id, context_id, Some(task_id), Role::Assistant, c@)],
        None => Seq::empty(),
    }
}

/// A run adds to the history of its task what the skill says, and nothing else.
pub proof fn run_tells_what_is_said(
    task: TaskModel,
    context_id: Seq<char>,
    task_id: Seq<char>,
    state: TaskStateModel,
    session: Map<Seq<char>, Json>,
    result: ExecutionResult,
    message_id: Seq<char>,
    now: Timestamp,
)
    ensures
        told(
            pushed(
                finish_effects(
                    task,
                    context_id,
                    task_id,
                    state,
                    session,
                    result,
                    message_id,
                    now,
                ),
            ),
        ) == said_by_skill(context_id, task_id, message_id, result),
{
    let a = artifact_effects(context_id, task_id, produced_models(result));
    let b = seq![
        EffectModel::SaveTaskState { task_id, state: finished_state(state, result) },
        EffectModel::SaveSessionState { context_id, state: session },
    ];
    let c = message_effects(context_id, task_id, message_id, result);
    let d = seq![
        EffectModel::PushEvent(status_event(context_id, task_id, result.state(), now)),
        EffectModel::SaveTask(finished_task(task, result, now)),
    ];
    lemma_artifacts_tell_nothing(context_id, task_id, produced_models(result));
    reveal_with_fuel(pushed, 3);
    reveal_with_fuel(told, 3);
    assert(pushed(b) =~= Seq::<TaskEventModel>::empty()) by {
        assert(b.drop_last() =~= seq![b[0]]);
        assert(seq![b[0]].drop_last() =~= Seq::<EffectModel>::empty());
    }
    assert(pushed(d) =~= seq![status_event(context_id, task_id, result.state(), now)]) by {
        assert(d.drop_last() =~= seq![d[0]]);
        assert(seq![d[0]].drop_last() =~= Seq::<EffectModel>::empty());
    }
    lemma_pushed_concat(a, b);
    lemma_pushed_concat(a + b, c);
    lemma_pushed_concat(a + b + c, d);
    lemma_told_concat(pushed(a), pushed(b));
    lemma_told_concat(pushed(a + b), pushed(c));
    lemma_told_concat(pushed(a + b + c), pushed(d));
    let s = seq![status_event(context_id, task_id, result.state(), now)];
    assert(told(s).len() == 0) by {
        assert(s.drop_last() =~= Seq::<TaskEventModel>::empty());
    }
    match result.says() {
        Some(x) => {
            assert(c.drop_last() =~= Seq::<EffectModel>::empty());
            let m = TaskEventModel::Message(
                message_model(message_id, context_id, Some(task_id), Role::Assistant, x@),
            );
            assert(pushed(c) =~= seq![m]);
            assert(seq![m].drop_last() =~= Seq::<TaskEventModel>::empty());
        },
        None => {},
    }
    assert(told(pushed(a + b + c + d)) =~= said_by_skill(context_id, task_id, message_id, result));
}

/// The history of a task after its first run is what the user said and what the skill said.
pub proof fn first_run_history(
    context_id: Seq<char>,
    task_id: Seq<char>,
    skill_id: Seq<char>,
    request_id: Seq<char>,
    request: Seq<PartModel>,
    state: TaskStateModel,
    session: Map<Seq<char>, Json>,
    result: ExecutionResult,
    message_id: Seq<char>,
    begun: Timestamp,
    now: Timestamp,
)
    ensures
        ({
            let start = start_effects(task_id, context_id, skill_id, request_id, request, begun);
            let finish = finish_effects(
                new_task(task_id, context_id, begun),
                context_id,
                task_id,
                state,
                session,
                result,
                message_id,
                now,
            );
            told(pushed(start + finish)) == seq![
                message_model(request_id, context_id, Some(task_id), Role::User, request),
            ] + said_by_skill(context_id, task_id, message_id, result)
        }),
{
    let start = start_effects(task_id, context_id, skill_id, request_id, request, begun);
    let finish = finish_effects(
        new_task(task_id, context_id, begun),
        context_id,
        task_id,
        state,
        session,
        result,
        message_id,
        now,
    );
    run_tells_what_is_said(
        new_task(task_id, context_id, begun),
        context_id,
        task_id,
        state,
        session,
        result,
        message_id,
        now,
    );
    lemma_pushed_concat(start, finish);
    lemma_told_concat(pushed(start), pushed(finish));
    reveal_with_fuel(pushed, 4);
    reveal_with_fuel(told, 3);
    let m = message_model(request_id, context_id, Some(task_id), Role::User, request);
    assert(start.drop_last() =~= seq![start[0], start[1]]);
    assert(seq![start[0], start[1]].drop_last() =~= seq![start[0]]);
    assert(seq![start[0]].drop_last() =~= Seq::<EffectModel>::empty());
    assert(pushed(start) =~= seq![TaskEventModel::Message(m)]);
    assert(seq![TaskEventModel::Message(m)].drop_last() =~= Seq::<TaskEventModel>::empty());
    assert(told(pushed(start)) =~= seq![m]);
}

/// A slot is kept exactly when the task waits for the user, and a task that waits can go on.
pub proof fn slot_kept_while_waiting(state: TaskStateModel, result: ExecutionResult)
    ensures
        finished_state(state, result).slot is Some == continuable(result.state().code()),
        finished_state(state, result).data == state.data,
{
}

/// Every run ends with the event for the status, marked as final, and with saving the task
/// with that status.
pub proof fn runs_end_with_the_status(
    task: TaskModel,
    context_id: Seq<char>,
    task_id: Seq<char>,
    state: TaskStateModel,
    session: Map<Seq<char>, Json>,
    result: ExecutionResult,
    message_id: Seq<char>,
    now: Timestamp,
)
    ensures
        ({
            let e = finish_effects(
                task,
                context_id,
                task_id,
                state,
                session,
                result,
                message_id,
                now,
            );
            let status = plain_status(result.state(), now);
            &&& e.len() >= 4
            &&& e[e.len() - 1] == EffectModel::SaveTask(finished_task(task, result, now))
            &&& finished_task(task, result, now).status == status
            &&& e[e.len() - 2] == EffectModel::PushEvent(
                TaskEventModel::StatusUpdate {
                    task_id,
                    context_id,
                    status: Some(status),
                    is_final: true,
                },
            )
        }),
{
}

} // verus!
