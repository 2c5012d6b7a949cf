//! The course of a request, from the message to the answer.
//!
//! A flow says what is to be done next; whoever runs it does that and hands back what came of
//! it. What fails ends the flow.

use crate::a2a::{
    history, message_models, task_event_models, Message, MessageModel, Task,
    TaskEvent, TaskEventModel, TaskModel, TaskState as A2aTaskState, TaskViewModel, Timestamp,
};
use crate::agent::builder::SkillRegistration;
use crate::errors::{AgentError, ErrorView};
use crate::json::Json;
use crate::models::{Content, PartModel, Role};
use crate::runtime::context::{SessionState, State, TaskState, TaskStateModel};
use crate::runtime::execution::executor::{
    artifact_effects, begin_run, collect_new_events, create_message, effect_models,
    finish_effects, finish_run, finished_state, finished_task, first_skill, message_model, new_task, no_skill,
    produced_models, start_effects, told,
    DeliveryMode, DeliveryOutcome, EffectModel, ExecutionPhase, ExecutionResult, ExecutorRuntime,
    MessageRoute, NegotiationDecision, NegotiationNext, RequestExecutor, SendMessageRequest,
    StoreEffect, TaskIdentifiers, TaskStream,
};
use crate::runtime::execution::status_mapper::{continuable, plain_status};
use crate::text::signed_decimal;
use crate::tools::optional_chars;
use vstd::prelude::*;

verus! {

// ---------------------------------------------------------------------------
// Mathematical values
// ---------------------------------------------------------------------------

/// The model of a task that is about to be run.
pub struct LaunchModel {
    pub task: TaskModel,
    pub skill: int,
    pub state: TaskStateModel,
    pub context_id: Seq<char>,
    pub task_id: Seq<char>,
    pub input: bool,
    pub content: Seq<PartModel>,
}

/// What a flow waits for.
#[allow(inconsistent_fields)]
pub enum FlowPhaseModel {
    Task { context_id: Seq<char>, task_id: Seq<char>, content: Seq<PartModel> },
    Baseline {
        task: TaskModel,
        context_id: Seq<char>,
        task_id: Seq<char>,
        content: Seq<PartModel>,
    },
    UserStored { task: TaskModel, content: Seq<PartModel>, baseline: nat },
    NewEvents { task: TaskModel, content: Seq<PartModel>, baseline: nat },
    Skill { task: TaskModel, content: Seq<PartModel>, initial: Option<Seq<TaskEventModel>> },
    State {
        task: TaskModel,
        content: Seq<PartModel>,
        skill: Seq<char>,
        initial: Option<Seq<TaskEventModel>>,
    },
    TaskSaved { launch: LaunchModel, initial: Option<Seq<TaskEventModel>> },
    Context { context_id: Seq<char>, content: Seq<PartModel> },
    RequestStored {
        context_id: Seq<char>,
        content: Seq<PartModel>,
        messages: Seq<MessageModel>,
    },
    Decision { context_id: Seq<char>, content: Seq<PartModel> },
    ReplyStored {
        context_id: Seq<char>,
        content: Seq<PartModel>,
        message: MessageModel,
        start: Option<Seq<char>>,
    },
    StartStored { launch: LaunchModel, rest: Seq<EffectModel> },
    StartEvents { launch: LaunchModel },
    Run,
    FinalEvents { task: TaskModel },
    Follow { initial: Seq<TaskEventModel> },
    Ended,
}

/// The state of a flow.
pub struct FlowModel {
    pub mode: DeliveryMode,
    pub phase: FlowPhaseModel,
}

/// The model of how a message was dealt with.
pub enum OutcomeModel {
    Task(TaskViewModel),
    Message(MessageModel),
    Stream { initial_events: Seq<TaskEventModel>, follow: bool },
}

/// What is to be done next.
pub enum FlowActionModel {
    LoadTask(Seq<char>),
    LoadEvents(Seq<char>),
    LoadContext(Seq<char>),
    LoadTaskSkill(Seq<char>),
    LoadTaskState(Seq<char>),
    Store(EffectModel),
    Negotiate {
        context_id: Seq<char>,
        content: Seq<PartModel>,
        messages: Seq<MessageModel>,
    },
    Run(LaunchModel),
    Follow(LaunchModel),
    Done(Result<OutcomeModel, ErrorView>),
}

/// What came of it.
pub enum FlowReplyModel {
    Failed(ErrorView),
    Task(Option<TaskModel>),
    Events(Seq<TaskEventModel>),
    Context { related_tasks: nat, messages: Seq<MessageModel> },
    Skill(Option<Seq<char>>),
    State(Option<TaskStateModel>),
    Stored,
    Decision(DecisionModel),
    Ran(TaskModel),
    Following,
}

/// The model of a decision: what is said, the skill of the task that begins, if one does, and
/// whether the request is refused.
pub struct DecisionModel {
    pub says: Seq<char>,
    pub skill: Option<Seq<char>>,
    pub refused: bool,
}

/// A task as it is told to a client, with the history of its events.
pub open spec fn told_task(task: TaskModel, events: Seq<TaskEventModel>) -> TaskViewModel {
    TaskViewModel {
        id: task.id,
        context_id: task.context_id,
        status: Some(task.status),
        history: told(events),
        artifacts: task.artifacts,
    }
}

/// The effect of a message.
pub open spec fn push_message(m: MessageModel) -> EffectModel {
    EffectModel::PushEvent(TaskEventModel::Message(m))
}

/// The error for a task that cannot go on.
pub open spec fn cannot_go_on(task: TaskModel) -> ErrorView {
    ErrorView::InvalidTaskStateTransition {
        from: signed_decimal(task.status.state as int),
        to: "continuation"@,
    }
}

/// The first skill with an identifier is there.
pub open spec fn has_skill<H>(skills: Seq<SkillRegistration<H>>, id: Seq<char>) -> bool {
    exists|i: int| first_skill(skills, id, i)
}

/// The position of the first skill with an identifier.
pub open spec fn skill_index<H>(skills: Seq<SkillRegistration<H>>, id: Seq<char>) -> int {
    choose|i: int| first_skill(skills, id, i)
}

proof fn lemma_skill_index<H>(skills: Seq<SkillRegistration<H>>, id: Seq<char>, i: int)
    requires
        first_skill(skills, id, i),
    ensures
        has_skill(skills, id),
        skill_index(skills, id) == i,
{
    let j = skill_index(skills, id);
    assert(first_skill(skills, id, j));
    if i < j {
        assert(skills[i].metadata.id@ != id);
    }
    if j < i {
        assert(skills[j].metadata.id@ != id);
    }
}

proof fn lemma_no_skill<H>(skills: Seq<SkillRegistration<H>>, id: Seq<char>)
    requires
        no_skill(skills, id),
    ensures
        !has_skill(skills, id),
{
    if has_skill(skills, id) {
        let i = choose|i: int| first_skill(skills, id, i);
        assert(skills[i].metadata.id@ != id);
    }
}

impl FlowModel {
    /// The flow has ended.
    pub open spec fn end(self, result: Result<OutcomeModel, ErrorView>) -> (
        FlowModel,
        FlowActionModel,
    ) {
        (FlowModel { phase: FlowPhaseModel::Ended, ..self }, FlowActionModel::Done(result))
    }

    /// The flow waits for something else.
    pub open spec fn wait(self, phase: FlowPhaseModel, action: FlowActionModel) -> (
        FlowModel,
        FlowActionModel,
    ) {
        (FlowModel { phase, ..self }, action)
    }

    /// A message has come. It belongs to the task it names in the conversation it names, to the
    /// conversation it names, or to a new one, whose identifier is `fresh`.
    pub open spec fn begin(
        mode: DeliveryMode,
        message: Option<MessageModel>,
        fresh: Seq<char>,
        message_id: Seq<char>,
    ) -> (FlowModel, FlowActionModel) {
        let flow = FlowModel { mode, phase: FlowPhaseModel::Ended };
        match message {
            None => flow.end(Err(ErrorView::InvalidInput("message is required"@))),
            Some(m) => if m.context_id.len() > 0 && m.task_id.len() > 0 {
                flow.wait(
                    FlowPhaseModel::Task {
                        context_id: m.context_id,
                        task_id: m.task_id,
                        content: m.content,
                    },
                    FlowActionModel::LoadTask(m.task_id),
                )
            } else if m.context_id.len() > 0 {
                flow.wait(
                    FlowPhaseModel::Context { context_id: m.context_id, content: m.content },
                    FlowActionModel::LoadContext(m.context_id),
                )
            } else if m.task_id.len() > 0 {
                flow.end(
                    Err(ErrorView::InvalidInput("context_id is required when passing task_id"@)),
                )
            } else {
                flow.store_request(fresh, m.content, Seq::empty(), message_id)
            },
        }
    }

    /// A request that belongs to no task is stored first.
    pub open spec fn store_request(
        self,
        context_id: Seq<char>,
        content: Seq<PartModel>,
        messages: Seq<MessageModel>,
        message_id: Seq<char>,
    ) -> (FlowModel, FlowActionModel) {
        self.wait(
            FlowPhaseModel::RequestStored { context_id, content, messages },
            FlowActionModel::Store(
                push_message(message_model(message_id, context_id, None, Role::User, content)),
            ),
        )
    }

    /// A task goes on, if it waits for the user.
    pub open spec fn go_on(
        self,
        task: TaskModel,
        content: Seq<PartModel>,
        initial: Option<Seq<TaskEventModel>>,
    ) -> (FlowModel, FlowActionModel) {
        if continuable(task.status.state) {
            self.wait(
                FlowPhaseModel::Skill { task, content, initial },
                FlowActionModel::LoadTaskSkill(task.id),
            )
        } else {
            self.end(Err(cannot_go_on(task)))
        }
    }

    /// A task is run: to its end, or on the side for a client that follows its events, the
    /// first of which are given.
    pub open spec fn launch(self, launch: LaunchModel, initial: Option<Seq<TaskEventModel>>) -> (
        FlowModel,
        FlowActionModel,
    ) {
        match initial {
            None => self.wait(FlowPhaseModel::Run, FlowActionModel::Run(launch)),
            Some(initial) => self.wait(
                FlowPhaseModel::Follow { initial },
                FlowActionModel::Follow(launch),
            ),
        }
    }

    /// What came is what is waited for; anything may fail.
    pub open spec fn expects(self, reply: FlowReplyModel) -> bool {
        match reply {
            FlowReplyModel::Failed(_) => !(self.phase is Ended),
            FlowReplyModel::Task(_) => self.phase is Task,
            FlowReplyModel::Events(_) => self.phase is Baseline || self.phase is NewEvents
                || self.phase is StartEvents || self.phase is FinalEvents,
            FlowReplyModel::Context { .. } => self.phase is Context,
            FlowReplyModel::Skill(_) => self.phase is Skill,
            FlowReplyModel::State(_) => self.phase is State,
            FlowReplyModel::Stored => self.phase is UserStored || self.phase is TaskSaved
                || self.phase is RequestStored || self.phase is ReplyStored
                || self.phase is StartStored,
            FlowReplyModel::Decision(_) => self.phase is Decision,
            FlowReplyModel::Ran(_) => self.phase is Run,
            FlowReplyModel::Following => self.phase is Follow,
        }
    }

    /// What follows what came. `fresh` and `message_id` are identifiers for a task and a
    /// message, should they be needed.
    pub open spec fn step<H>(
        self,
        skills: Seq<SkillRegistration<H>>,
        reply: FlowReplyModel,
        fresh: Seq<char>,
        message_id: Seq<char>,
        now: Timestamp,
    ) -> (FlowModel, FlowActionModel) {
        match (self.phase, reply) {
            (_, FlowReplyModel::Failed(e)) => self.end(Err(e)),
            (FlowPhaseModel::Task { context_id, task_id, content }, FlowReplyModel::Task(stored)) =>
                match stored {
                None => self.end(Err(ErrorView::TaskNotFound { task_id })),
                Some(task) => if task.context_id == context_id {
                    self.wait(
                        FlowPhaseModel::Baseline { task, context_id, task_id, content },
                        FlowActionModel::LoadEvents(task_id),
                    )
                } else {
                    self.end(
                        Err(
                            ErrorView::InvalidInput(
                                "Task id "@ + task_id + " does not belong to context id "@
                                    + context_id,
                            ),
                        ),
                    )
                },
            },
            (
                FlowPhaseModel::Baseline { task, context_id, task_id, content },
                FlowReplyModel::Events(events),
            ) => self.wait(
                FlowPhaseModel::UserStored { task, content, baseline: events.len() },
                FlowActionModel::Store(
                    push_message(
                        message_model(message_id, context_id, Some(task_id), Role::User, content),
                    ),
                ),
            ),
            (FlowPhaseModel::UserStored { task, content, baseline }, FlowReplyModel::Stored) =>
                match self.mode {
                DeliveryMode::Blocking => self.go_on(task, content, None),
                DeliveryMode::Streaming => self.wait(
                    FlowPhaseModel::NewEvents { task, content, baseline },
                    FlowActionModel::LoadEvents(task.id),
                ),
            },
            (
                FlowPhaseModel::NewEvents { task, content, baseline },
                FlowReplyModel::Events(events),
            ) => self.go_on(
                task,
                content,
                Some(
                    if baseline <= events.len() {
                        events.skip(baseline as int)
                    } else {
                        Seq::empty()
                    },
                ),
            ),
            (FlowPhaseModel::Skill { task, content, initial }, FlowReplyModel::Skill(skill)) =>
                match skill {
                None => self.end(
                    Err(
                        ErrorView::Internal {
                            component: "task_manager"@,
                            reason: "No skill associated with task "@ + task.id,
                        },
                    ),
                ),
                Some(skill) => if has_skill(skills, skill) {
                    self.wait(
                        FlowPhaseModel::State { task, content, skill, initial },
                        FlowActionModel::LoadTaskState(task.id),
                    )
                } else {
                    self.end(Err(ErrorView::SkillNotFound { skill_id: skill }))
                },
            },
            (
                FlowPhaseModel::State { task, content, skill, initial },
                FlowReplyModel::State(state),
            ) => if !continuable(task.status.state) {
                self.end(Err(cannot_go_on(task)))
            } else if has_skill(skills, skill) {
                let working = TaskModel {
                    status: plain_status(A2aTaskState::Working, now),
                    ..task
                };
                self.wait(
                    FlowPhaseModel::TaskSaved {
                        launch: LaunchModel {
                            task: working,
                            skill: skill_index(skills, skill),
                            state: match state {
                                Some(s) => s,
                                None => TaskStateModel::empty(),
                            },
                            context_id: task.context_id,
                            task_id: task.id,
                            input: true,
                            content,
                        },
                        initial,
                    },
                    FlowActionModel::Store(EffectModel::SaveTask(working)),
                )
            } else {
                self.end(Err(ErrorView::SkillNotFound { skill_id: skill }))
            },
            (FlowPhaseModel::TaskSaved { launch, initial }, FlowReplyModel::Stored) => self.launch(
                launch,
                initial,
            ),
            (
                FlowPhaseModel::Context { context_id, content },
                FlowReplyModel::Context { related_tasks, messages },
            ) => if related_tasks == 0 && messages.len() == 0 {
                self.end(Err(ErrorView::InvalidInput("Invalid context id "@ + context_id)))
            } else {
                self.store_request(context_id, content, messages, message_id)
            },
            (
                FlowPhaseModel::RequestStored { context_id, content, messages },
                FlowReplyModel::Stored,
            ) => self.wait(
                FlowPhaseModel::Decision { context_id, content },
                FlowActionModel::Negotiate { context_id, content, messages },
            ),
            (FlowPhaseModel::Decision { context_id, content }, FlowReplyModel::Decision(decision)) =>
                {
                let message = message_model(
                    message_id,
                    context_id,
                    None,
                    Role::Assistant,
                    seq![PartModel::Text(decision.says)],
                );
                self.wait(
                    FlowPhaseModel::ReplyStored {
                        context_id,
                        content,
                        message,
                        start: decision.skill,
                    },
                    FlowActionModel::Store(push_message(message)),
                )
            },
            (
                FlowPhaseModel::ReplyStored { context_id, content, message, start },
                FlowReplyModel::Stored,
            ) => match start {
                None => self.end(Ok(OutcomeModel::Message(message))),
                Some(skill) => if has_skill(skills, skill) {
                    let effects = start_effects(
                        fresh,
                        context_id,
                        skill,
                        message_id,
                        content,
                        now,
                    );
                    self.wait(
                        FlowPhaseModel::StartStored {
                            launch: LaunchModel {
                                task: new_task(fresh, context_id, now),
                                skill: skill_index(skills, skill),
                                state: TaskStateModel::empty(),
                                context_id,
                                task_id: fresh,
                                input: false,
                                content,
                            },
                            rest: effects.skip(1),
                        },
                        FlowActionModel::Store(effects[0]),
                    )
                } else {
                    self.end(Err(ErrorView::SkillNotFound { skill_id: skill }))
                },
            },
            (FlowPhaseModel::StartStored { launch, rest }, FlowReplyModel::Stored) =>
                if rest.len() > 0 {
                self.wait(
                    FlowPhaseModel::StartStored { launch, rest: rest.skip(1) },
                    FlowActionModel::Store(rest[0]),
                )
            } else {
                match self.mode {
                    DeliveryMode::Blocking => self.launch(launch, None),
                    DeliveryMode::Streaming => self.wait(
                        FlowPhaseModel::StartEvents { launch },
                        FlowActionModel::LoadEvents(launch.task_id),
                    ),
                }
            },
            (FlowPhaseModel::StartEvents { launch }, FlowReplyModel::Events(events)) => self.launch(
                launch,
                Some(events),
            ),
            (FlowPhaseModel::Run, FlowReplyModel::Ran(task)) => self.wait(
                FlowPhaseModel::FinalEvents { task },
                FlowActionModel::LoadEvents(task.id),
            ),
            (FlowPhaseModel::FinalEvents { task }, FlowReplyModel::Events(events)) => self.end(
                Ok(OutcomeModel::Task(told_task(task, events))),
            ),
            (FlowPhaseModel::Follow { initial }, FlowReplyModel::Following) => self.end(
                Ok(OutcomeModel::Stream { initial_events: initial, follow: true }),
            ),
            _ => self.end(Err(ErrorView::InvalidInput(Seq::empty()))),
        }
    }
}

// ---------------------------------------------------------------------------
// Values
// ---------------------------------------------------------------------------

/// A task that is about to be run by a skill, with what was kept for it and what it is asked.
#[derive(Debug)]
pub struct Launch {
    pub task: Task,
    pub skill_index: usize,
    pub task_state: TaskState,
    pub identifiers: TaskIdentifiers,
    pub phase: ExecutionPhase,
}

/// What a flow waits for.
#[allow(inconsistent_fields)]
#[derive(Debug)]
pub enum FlowPhase {
    Task { context_id: String, task_id: String, content: Content },
    Baseline { task: Task, context_id: String, task_id: String, content: Content },
    UserStored { task: Task, content: Content, baseline: usize },
    NewEvents { task: Task, content: Content, baseline: usize },
    Skill { task: Task, content: Content, initial: Option<Vec<TaskEvent>> },
    State { task: Task, content: Content, skill: String, initial: Option<Vec<TaskEvent>> },
    TaskSaved { launch: Launch, initial: Option<Vec<TaskEvent>> },
    Context { context_id: String, content: Content },
    RequestStored { context_id: String, content: Content, messages: Vec<Message> },
    Decision { context_id: String, content: Content },
    ReplyStored {
        context_id: String,
        content: Content,
        message: Message,
        start: Option<String>,
    },
    StartStored { launch: Launch, rest: Vec<StoreEffect> },
    StartEvents { launch: Launch },
    Run,
    FinalEvents { task: Task },
    Follow { initial: Vec<TaskEvent> },
    Ended,
}

/// The course of a request.
#[derive(Debug)]
pub struct MessageFlow {
    pub mode: DeliveryMode,
    pub phase: FlowPhase,
}

/// What is to be done next.
#[derive(Debug)]
pub enum FlowAction {
    LoadTask(String),
    LoadEvents(String),
    LoadContext(String),
    LoadTaskSkill(String),
    LoadTaskState(String),
    Store(StoreEffect),
    Negotiate { context_id: String, content: Content, messages: Vec<Message> },
    /// Run the task to its end.
    Run(Launch),
    /// Subscribe to the events of the task, then run it on the side.
    Follow(Launch),
    Done(Result<DeliveryOutcome, AgentError>),
}

/// What came of it.
#[derive(Debug)]
pub enum FlowReply {
    Failed(AgentError),
    Task(Option<Task>),
    Events(Vec<TaskEvent>),
    Context { related_tasks: usize, messages: Vec<Message> },
    Skill(Option<String>),
    State(Option<TaskState>),
    Stored,
    Decision(NegotiationDecision),
    Ran(Task),
    Following,
}

impl View for Launch {
    type V = LaunchModel;

    open spec fn view(&self) -> LaunchModel {
        LaunchModel {
            task: self.task@,
            skill: self.skill_index as int,
            state: self.task_state@,
            context_id: self.identifiers.context_id@,
            task_id: self.identifiers.task_id@,
            input: self.phase is Input,
            content: match self.phase {
                ExecutionPhase::Initial(c) => c@,
                ExecutionPhase::Input(c) => c@,
            },
        }
    }
}

/// The models of optional events.
pub open spec fn optional_events(v: Option<Vec<TaskEvent>>) -> Option<Seq<TaskEventModel>> {
    match v {
        Some(v) => Some(task_event_models(v@)),
        None => None,
    }
}

impl View for FlowPhase {
    type V = FlowPhaseModel;

    open spec fn view(&self) -> FlowPhaseModel {
        match *self {
            FlowPhase::Task { context_id, task_id, content } => FlowPhaseModel::Task {
                context_id: context_id@,
                task_id: task_id@,
                content: content@,
            },
            FlowPhase::Baseline { task, context_id, task_id, content } => FlowPhaseModel::Baseline {
                task: task@,
                context_id: context_id@,
                task_id: task_id@,
                content: content@,
            },
            FlowPhase::UserStored { task, content, baseline } => FlowPhaseModel::UserStored {
                task: task@,
                content: content@,
                baseline: baseline as nat,
            },
            FlowPhase::NewEvents { task, content, baseline } => FlowPhaseModel::NewEvents {
                task: task@,
                content: content@,
                baseline: baseline as nat,
            },
            FlowPhase::Skill { task, content, initial } => FlowPhaseModel::Skill {
                task: task@,
                content: content@,
                initial: optional_events(initial),
            },
            FlowPhase::State { task, content, skill, initial } => FlowPhaseModel::State {
                task: task@,
                content: content@,
                skill: skill@,
                initial: optional_events(initial),
            },
            FlowPhase::TaskSaved { launch, initial } => FlowPhaseModel::TaskSaved {
                launch: launch@,
                initial: optional_events(initial),
            },
            FlowPhase::Context { context_id, content } => FlowPhaseModel::Context {
                context_id: context_id@,
                content: content@,
            },
            FlowPhase::RequestStored { context_id, content, messages } =>
                FlowPhaseModel::RequestStored {
                context_id: context_id@,
                content: content@,
                messages: message_models(messages@),
            },
            FlowPhase::Decision { context_id, content } => FlowPhaseModel::Decision {
                context_id: context_id@,
                content: content@,
            },
            FlowPhase::ReplyStored { context_id, content, message, start } =>
                FlowPhaseModel::ReplyStored {
                context_id: context_id@,
                content: content@,
                message: message@,
                start: optional_chars(start),
            },
            FlowPhase::StartStored { launch, rest } => FlowPhaseModel::StartStored {
                launch: launch@,
                rest: effect_models(rest@),
            },
            FlowPhase::StartEvents { launch } => FlowPhaseModel::StartEvents { launch: launch@ },
            FlowPhase::Run => FlowPhaseModel::Run,
            FlowPhase::FinalEvents { task } => FlowPhaseModel::FinalEvents { task: task@ },
            FlowPhase::Follow { initial } => FlowPhaseModel::Follow {
                initial: task_event_models(initial@),
            },
            FlowPhase::Ended => FlowPhaseModel::Ended,
        }
    }
}

impl View for MessageFlow {
    type V = FlowModel;

    open spec fn view(&self) -> FlowModel {
        FlowModel { mode: self.mode, phase: self.phase@ }
    }
}

impl View for DeliveryOutcome {
    type V = OutcomeModel;

    open spec fn view(&self) -> OutcomeModel {
        match *self {
            DeliveryOutcome::Task(t) => OutcomeModel::Task(t@),
            DeliveryOutcome::Message(m) => OutcomeModel::Message(m@),
            DeliveryOutcome::Stream(s) => OutcomeModel::Stream {
                initial_events: task_event_models(s.initial_events@),
                follow: s.follow,
            },
        }
    }
}

impl View for FlowAction {
    type V = FlowActionModel;

    open spec fn view(&self) -> FlowActionModel {
        match *self {
            FlowAction::LoadTask(id) => FlowActionModel::LoadTask(id@),
            FlowAction::LoadEvents(id) => FlowActionModel::LoadEvents(id@),
            FlowAction::LoadContext(id) => FlowActionModel::LoadContext(id@),
            FlowAction::LoadTaskSkill(id) => FlowActionModel::LoadTaskSkill(id@),
            FlowAction::LoadTaskState(id) => FlowActionModel::LoadTaskState(id@),
            FlowAction::Store(e) => FlowActionModel::Store(e@),
            FlowAction::Negotiate { context_id, content, messages } => FlowActionModel::Negotiate {
                context_id: context_id@,
                content: content@,
                messages: message_models(messages@),
            },
            FlowAction::Run(l) => FlowActionModel::Run(l@),
            FlowAction::Follow(l) => FlowActionModel::Follow(l@),
            FlowAction::Done(Ok(o)) => FlowActionModel::Done(Ok(o@)),
            FlowAction::Done(Err(e)) => FlowActionModel::Done(Err(e@)),
        }
    }
}

impl View for NegotiationDecision {
    type V = DecisionModel;

    open spec fn view(&self) -> DecisionModel {
        match *self {
            NegotiationDecision::StartTask { skill_id, reasoning } => DecisionModel {
                says: reasoning@,
                skill: Some(skill_id@),
                refused: false,
            },
            NegotiationDecision::AskClarification { message } => DecisionModel {
                says: message@,
                skill: None,
                refused: false,
            },
            NegotiationDecision::Reject { reason } => DecisionModel {
                says: reason@,
                skill: None,
                refused: true,
            },
        }
    }
}

impl View for FlowReply {
    type V = FlowReplyModel;

    open spec fn view(&self) -> FlowReplyModel {
        match *self {
            FlowReply::Failed(e) => FlowReplyModel::Failed(e@),
            FlowReply::Task(Some(t)) => FlowReplyModel::Task(Some(t@)),
            FlowReply::Task(None) => FlowReplyModel::Task(None),
            FlowReply::Events(v) => FlowReplyModel::Events(task_event_models(v@)),
            FlowReply::Context { related_tasks, messages } => FlowReplyModel::Context {
                related_tasks: related_tasks as nat,
                messages: message_models(messages@),
            },
            FlowReply::Skill(s) => FlowReplyModel::Skill(optional_chars(s)),
            FlowReply::State(Some(s)) => FlowReplyModel::State(Some(s@)),
            FlowReply::State(None) => FlowReplyModel::State(None),
            FlowReply::Stored => FlowReplyModel::Stored,
            FlowReply::Decision(d) => FlowReplyModel::Decision(d@),
            FlowReply::Ran(t) => FlowReplyModel::Ran(t@),
            FlowReply::Following => FlowReplyModel::Following,
        }
    }
}

// ---------------------------------------------------------------------------
// The course of a request
// ---------------------------------------------------------------------------

/// The history of events, as mathematical values.
proof fn lemma_history_models(events: Seq<TaskEvent>)
    ensures
        message_models(history(events)) == told(task_event_models(events)),
    decreases events.len(),
{
    if events.len() > 0 {
        lemma_history_models(events.drop_last());
        assert(task_event_models(events).drop_last() =~= task_event_models(events.drop_last()));
        assert(message_models(history(events)) =~= told(task_event_models(events)));
    } else {
        assert(message_models(history(events)) =~= told(task_event_models(events)));
    }
}

/// What a flow does next.
type FlowStep = (MessageFlow, FlowAction);

impl MessageFlow {
    fn wait(mode: DeliveryMode, phase: FlowPhase, action: FlowAction) -> (r: FlowStep)
        ensures
            r.0@ == (FlowModel { mode, phase: phase@ }),
            r.1@ == action@,
    {
        (MessageFlow { mode, phase }, action)
    }

    fn ended(mode: DeliveryMode, result: Result<DeliveryOutcome, AgentError>) -> (r: FlowStep)
        ensures
            r.0@ == (FlowModel { mode, phase: FlowPhaseModel::Ended }),
            r.1@ == FlowActionModel::Done(
                match result {
                    Ok(o) => Ok(o@),
                    Err(e) => Err(e@),
                },
            ),
    {
        (MessageFlow { mode, phase: FlowPhase::Ended }, FlowAction::Done(result))
    }

    fn store_request(
        mode: DeliveryMode,
        context_id: String,
        content: Content,
        messages: Vec<Message>,
        message_id: String,
    ) -> (r: FlowStep)
        ensures
            forall|flow: FlowModel|
                flow.mode == mode ==> (r.0@, r.1@) == #[trigger] flow.store_request(
                    context_id@,
                    content@,
                    message_models(messages@),
                    message_id@,
                ),
    {
        let m = create_message(
            message_id,
            context_id.as_str(),
            None,
            Role::User,
            content.clone(),
        );
        MessageFlow::wait(
            mode,
            FlowPhase::RequestStored { context_id, content, messages },
            FlowAction::Store(StoreEffect::PushEvent(TaskEvent::Message(m))),
        )
    }

    /// A message has come. `fresh` is the identifier of its conversation, should it belong to a
    /// new one.
    pub fn begin(
        mode: DeliveryMode,
        params: SendMessageRequest,
        fresh: String,
        message_id: String,
    ) -> (r: FlowStep)
        ensures
            (r.0@, r.1@) == FlowModel::begin(
                mode,
                crate::a2a::optional_message(params.message),
                fresh@,
                message_id@,
            ),
    {
        let route = match MessageRoute::from_params(&params) {
            Ok(route) => route,
            Err(e) => {
                return MessageFlow::ended(mode, Err(e));
            },
        };
        let content = match params.message {
            Some(m) => m.content,
            None => Content::default(),
        };
        match route {
            MessageRoute::ExistingTask { context_id, task_id } => {
                let id = task_id.clone();
                MessageFlow::wait(
                    mode,
                    FlowPhase::Task { context_id, task_id, content },
                    FlowAction::LoadTask(id),
                )
            },
            MessageRoute::ExistingContext { context_id } => {
                let id = context_id.clone();
                MessageFlow::wait(
                    mode,
                    FlowPhase::Context { context_id, content },
                    FlowAction::LoadContext(id),
                )
            },
            MessageRoute::NewContext => {
                let messages: Vec<Message> = Vec::new();
                proof {
                    assert(message_models(messages@) =~= Seq::<MessageModel>::empty());
                    let flow = FlowModel { mode, phase: FlowPhaseModel::Ended };
                    assert(flow.mode == mode);
                    let _ = flow.store_request(
                        fresh@,
                        content@,
                        message_models(messages@),
                        message_id@,
                    );
                }
                MessageFlow::store_request(mode, fresh, content, messages, message_id)
            },
        }
    }

    fn go_on<R: ExecutorRuntime>(
        mode: DeliveryMode,
        task: Task,
        content: Content,
        initial: Option<Vec<TaskEvent>>,
    ) -> (r: FlowStep)
        ensures
            forall|flow: FlowModel|
                flow.mode == mode ==> (r.0@, r.1@) == #[trigger] flow.go_on(
                    task@,
                    content@,
                    optional_events(initial),
                ),
    {
        match RequestExecutor::<R>::check_continuation(&task) {
            Ok(_) => {
                let id = task.id.clone();
                MessageFlow::wait(
                    mode,
                    FlowPhase::Skill { task, content, initial },
                    FlowAction::LoadTaskSkill(id),
                )
            },
            Err(e) => MessageFlow::ended(mode, Err(e)),
        }
    }

    fn launch(mode: DeliveryMode, launch: Launch, initial: Option<Vec<TaskEvent>>) -> (r: FlowStep)
        ensures
            forall|flow: FlowModel|
                flow.mode == mode ==> (r.0@, r.1@) == #[trigger] flow.launch(
                    launch@,
                    optional_events(initial),
                ),
    {
        match initial {
            None => MessageFlow::wait(mode, FlowPhase::Run, FlowAction::Run(launch)),
            Some(initial) => MessageFlow::wait(
                mode,
                FlowPhase::Follow { initial },
                FlowAction::Follow(launch),
            ),
        }
    }

    /// Tells whether what came is what is waited for.
    pub fn is_waiting_for(&self, reply: &FlowReply) -> (r: bool)
        ensures
            r == self@.expects(reply@),
    {
        match (&self.phase, reply) {
            (FlowPhase::Ended, _) => false,
            (_, FlowReply::Failed(_)) => true,
            (FlowPhase::Task { .. }, FlowReply::Task(_)) => true,
            (FlowPhase::Baseline { .. }, FlowReply::Events(_)) => true,
            (FlowPhase::NewEvents { .. }, FlowReply::Events(_)) => true,
            (FlowPhase::StartEvents { .. }, FlowReply::Events(_)) => true,
            (FlowPhase::FinalEvents { .. }, FlowReply::Events(_)) => true,
            (FlowPhase::Context { .. }, FlowReply::Context { .. }) => true,
            (FlowPhase::Skill { .. }, FlowReply::Skill(_)) => true,
            (FlowPhase::State { .. }, FlowReply::State(_)) => true,
            (FlowPhase::UserStored { .. }, FlowReply::Stored) => true,
            (FlowPhase::TaskSaved { .. }, FlowReply::Stored) => true,
            (FlowPhase::RequestStored { .. }, FlowReply::Stored) => true,
            (FlowPhase::ReplyStored { .. }, FlowReply::Stored) => true,
            (FlowPhase::StartStored { .. }, FlowReply::Stored) => true,
            (FlowPhase::Decision { .. }, FlowReply::Decision(_)) => true,
            (FlowPhase::Run, FlowReply::Ran(_)) => true,
            (FlowPhase::Follow { .. }, FlowReply::Following) => true,
            _ => false,
        }
    }
}

impl<R: ExecutorRuntime> RequestExecutor<R> {
    /// A message has come.
    pub fn dispatch_message(
        &self,
        params: SendMessageRequest,
        mode: DeliveryMode,
        fresh: String,
        message_id: String,
    ) -> (r: (MessageFlow, FlowAction))
        ensures
            (r.0@, r.1@) == FlowModel::begin(
                mode,
                crate::a2a::optional_message(params.message),
                fresh@,
                message_id@,
            ),
    {
        MessageFlow::begin(mode, params, fresh, message_id)
    }

    /// A message has come, and its answer is waited for.
    pub fn handle_send_message(
        &self,
        params: SendMessageRequest,
        fresh: String,
        message_id: String,
    ) -> (r: (MessageFlow, FlowAction))
        ensures
            (r.0@, r.1@) == FlowModel::begin(
                DeliveryMode::Blocking,
                crate::a2a::optional_message(params.message),
                fresh@,
                message_id@,
            ),
    {
        self.dispatch_message(params, DeliveryMode::Blocking, fresh, message_id)
    }

    /// A message has come, and what happens is followed.
    pub fn handle_message_stream(
        &self,
        params: SendMessageRequest,
        fresh: String,
        message_id: String,
    ) -> (r: (MessageFlow, FlowAction))
        ensures
            (r.0@, r.1@) == FlowModel::begin(
                DeliveryMode::Streaming,
                crate::a2a::optional_message(params.message),
                fresh@,
                message_id@,
            ),
    {
        self.dispatch_message(params, DeliveryMode::Streaming, fresh, message_id)
    }

    /// A task that begins is stored, first of all.
    fn start_task(
        &self,
        mode: DeliveryMode,
        context_id: String,
        content: Content,
        skill_id: String,
        fresh: String,
        message_id: String,
        now: Timestamp,
    ) -> (r: (MessageFlow, FlowAction))
        ensures
            forall|message: MessageModel|
                (r.0@, r.1@) == #[trigger] (FlowModel {
                    mode,
                    phase: FlowPhaseModel::ReplyStored {
                        context_id: context_id@,
                        content: content@,
                        message,
                        start: Some(skill_id@),
                    },
                }).step(
                    self.runtime.definition().skills@,
                    FlowReplyModel::Stored,
                    fresh@,
                    message_id@,
                    now,
                ),
    {
        let ghost skills = self.runtime.definition().skills@;
        let started = self.initialize_new_task(
            fresh,
            context_id.as_str(),
            skill_id.as_str(),
            content.clone(),
            message_id,
            now,
        );
        match started {
            Err(e) => {
                proof {
                    lemma_no_skill(skills, skill_id@);
                }
                MessageFlow::ended(mode, Err(e))
            },
            Ok(t) => {
                let ghost effects = effect_models(t.effects@);
                let mut rest = t.effects;
                proof {
                    lemma_skill_index(skills, skill_id@, t.skill_index as int);
                    assert(effects.len() == 3);
                    assert(effects[0] == rest@[0]@);
                }
                let first = rest.remove(0);
                proof {
                    assert(effect_models(rest@) =~= effects.skip(1));
                }
                let launch = Launch {
                    task: t.task,
                    skill_index: t.skill_index,
                    task_state: t.task_state,
                    identifiers: t.identifiers,
                    phase: ExecutionPhase::Initial(content),
                };
                MessageFlow::wait(
                    mode,
                    FlowPhase::StartStored { launch, rest },
                    FlowAction::Store(first),
                )
            },
        }
    }

    /// What was kept for a task that goes on has come.
    fn continue_task(
        &self,
        mode: DeliveryMode,
        task: Task,
        content: Content,
        skill: String,
        initial: Option<Vec<TaskEvent>>,
        state: Option<TaskState>,
        now: Timestamp,
    ) -> (r: (MessageFlow, FlowAction))
        ensures
            forall|fresh: Seq<char>, message_id: Seq<char>|
                (r.0@, r.1@) == #[trigger] (FlowModel {
                    mode,
                    phase: FlowPhaseModel::State {
                        task: task@,
                        content: content@,
                        skill: skill@,
                        initial: optional_events(initial),
                    },
                }).step(
                    self.runtime.definition().skills@,
                    FlowReply::State(state)@,
                    fresh,
                    message_id,
                    now,
                ),
    {
        let ghost skills = self.runtime.definition().skills@;
        let ghost id = skill@;
        match self.prepare_task_for_continuation(task, Some(skill), state, now) {
            Err(e) => {
                proof {
                    if continuable(task.status.state) {
                        lemma_no_skill(skills, id);
                    }
                }
                MessageFlow::ended(mode, Err(e))
            },
            Ok(p) => {
                proof {
                    lemma_skill_index(skills, id, p.skill_index as int);
                    assert(effect_models(p.effects@).len() == 1);
                    assert(effect_models(p.effects@)[0] == p.effects@[0]@);
                }
                let mut effects = p.effects;
                let first = effects.remove(0);
                let launch = Launch {
                    task: p.task,
                    skill_index: p.skill_index,
                    task_state: p.task_state,
                    identifiers: p.identifiers,
                    phase: ExecutionPhase::Input(content),
                };
                MessageFlow::wait(
                    mode,
                    FlowPhase::TaskSaved { launch, initial },
                    FlowAction::Store(first),
                )
            },
        }
    }

    /// What follows what came. `fresh` and `message_id` are identifiers for a task and a
    /// message, should they be needed.
    pub fn step(
        &self,
        flow: MessageFlow,
        reply: FlowReply,
        fresh: String,
        message_id: String,
        now: Timestamp,
    ) -> (r: (MessageFlow, FlowAction))
        requires
            flow@.expects(reply@),
        ensures
            (r.0@, r.1@) == flow@.step(
                self.runtime.definition().skills@,
                reply@,
                fresh@,
                message_id@,
                now,
            ),
    {
        let ghost f = flow@;
        let ghost skills = self.runtime.definition().skills@;
        let mode = flow.mode;
        match (flow.phase, reply) {
            (_, FlowReply::Failed(e)) => MessageFlow::ended(mode, Err(e)),
            (FlowPhase::Task { context_id, task_id, content }, FlowReply::Task(stored)) => {
                match RequestExecutor::<R>::handle_existing_task(
                    stored,
                    context_id.as_str(),
                    task_id.as_str(),
                ) {
                    Err(e) => MessageFlow::ended(mode, Err(e)),
                    Ok(task) => {
                        let id = task_id.clone();
                        MessageFlow::wait(
                            mode,
                            FlowPhase::Baseline { task, context_id, task_id, content },
                            FlowAction::LoadEvents(id),
                        )
                    },
                }
            },
            (FlowPhase::Baseline { task, context_id, task_id, content }, FlowReply::Events(events)) => {
                let baseline = events.len();
                proof {
                    assert(task_event_models(events@).len() == events@.len());
                }
                let m = create_message(
                    message_id,
                    context_id.as_str(),
                    Some(task_id.as_str()),
                    Role::User,
                    content.clone(),
                );
                MessageFlow::wait(
                    mode,
                    FlowPhase::UserStored { task, content, baseline },
                    FlowAction::Store(StoreEffect::PushEvent(TaskEvent::Message(m))),
                )
            },
            (FlowPhase::UserStored { task, content, baseline }, FlowReply::Stored) => {
                match mode {
                    DeliveryMode::Blocking => {
                        proof {
                            let none: Option<Vec<TaskEvent>> = None;
                            let _ = f.go_on(task@, content@, optional_events(none));
                        }
                        MessageFlow::go_on::<R>(mode, task, content, None)
                    },
                    DeliveryMode::Streaming => {
                        let id = task.id.clone();
                        MessageFlow::wait(
                            mode,
                            FlowPhase::NewEvents { task, content, baseline },
                            FlowAction::LoadEvents(id),
                        )
                    },
                }
            },
            (FlowPhase::NewEvents { task, content, baseline }, FlowReply::Events(events)) => {
                let ghost all = task_event_models(events@);
                let initial = collect_new_events(events, baseline);
                proof {
                    if baseline <= all.len() {
                        assert(task_event_models(initial@) =~= all.skip(baseline as int));
                    } else {
                        assert(task_event_models(initial@) =~= Seq::<TaskEventModel>::empty());
                    }
                    let _ = f.go_on(task@, content@, optional_events(Some(initial)));
                }
                MessageFlow::go_on::<R>(mode, task, content, Some(initial))
            },
            (FlowPhase::Skill { task, content, initial }, FlowReply::Skill(skill)) => {
                match skill {
                    None => {
                        let reason = crate::text::concat2(
                            "No skill associated with task ",
                            task.id.as_str(),
                        );
                        MessageFlow::ended(
                            mode,
                            Err(
                                AgentError::Internal {
                                    component: "task_manager".to_owned(),
                                    reason,
                                },
                            ),
                        )
                    },
                    Some(skill) => {
                        match self.find_skill_by_id(skill.as_str()) {
                            Err(e) => {
                                proof {
                                    lemma_no_skill(skills, skill@);
                                }
                                MessageFlow::ended(mode, Err(e))
                            },
                            Ok(_) => {
                                proof {
                                    let i = choose|i: int| #[trigger]
                                        first_skill(skills, skill@, i);
                                    lemma_skill_index(skills, skill@, i);
                                }
                                let id = task.id.clone();
                                MessageFlow::wait(
                                    mode,
                                    FlowPhase::State { task, content, skill, initial },
                                    FlowAction::LoadTaskState(id),
                                )
                            },
                        }
                    },
                }
            },
            (FlowPhase::State { task, content, skill, initial }, FlowReply::State(state)) => {
                self.continue_task(mode, task, content, skill, initial, state, now)
            },
            (FlowPhase::TaskSaved { launch, initial }, FlowReply::Stored) => {
                proof {
                    let _ = f.launch(launch@, optional_events(initial));
                }
                MessageFlow::launch(mode, launch, initial)
            },
            (
                FlowPhase::Context { context_id, content },
                FlowReply::Context { related_tasks, messages },
            ) => {
                proof {
                    assert(message_models(messages@).len() == messages@.len());
                    let _ = f.store_request(
                        context_id@,
                        content@,
                        message_models(messages@),
                        message_id@,
                    );
                }
                match RequestExecutor::<R>::handle_existing_context(
                    context_id.as_str(),
                    related_tasks,
                    messages.len(),
                ) {
                    Err(e) => MessageFlow::ended(mode, Err(e)),
                    Ok(_) => MessageFlow::store_request(
                        mode,
                        context_id,
                        content,
                        messages,
                        message_id,
                    ),
                }
            },
            (FlowPhase::RequestStored { context_id, content, messages }, FlowReply::Stored) => {
                let id = context_id.clone();
                let copy = content.clone();
                MessageFlow::wait(
                    mode,
                    FlowPhase::Decision { context_id, content },
                    FlowAction::Negotiate { context_id: id, content: copy, messages },
                )
            },
            (FlowPhase::Decision { context_id, content }, FlowReply::Decision(decision)) => {
                let delivery = RequestExecutor::<R>::deliver_negotiation_decision(
                    decision,
                    context_id.as_str(),
                    message_id,
                    mode,
                );
                let start = match delivery.next {
                    NegotiationNext::Start { skill_id, .. } => Some(skill_id),
                    NegotiationNext::Reply => None,
                };
                let copy = delivery.message.clone();
                MessageFlow::wait(
                    mode,
                    FlowPhase::ReplyStored {
                        context_id,
                        content,
                        message: delivery.message,
                        start,
                    },
                    FlowAction::Store(StoreEffect::PushEvent(TaskEvent::Message(copy))),
                )
            },
            (FlowPhase::ReplyStored { context_id, content, message, start }, FlowReply::Stored) => {
                match start {
                    None => MessageFlow::ended(mode, Ok(DeliveryOutcome::Message(message))),
                    Some(skill_id) => self.start_task(
                        mode,
                        context_id,
                        content,
                        skill_id,
                        fresh,
                        message_id,
                        now,
                    ),
                }
            },
            (FlowPhase::StartStored { launch, rest }, FlowReply::Stored) => {
                let ghost all = effect_models(rest@);
                proof {
                    assert(all.len() == rest@.len());
                }
                if rest.len() > 0 {
                    let mut rest = rest;
                    proof {
                        assert(all[0] == rest@[0]@);
                    }
                    let first = rest.remove(0);
                    proof {
                        assert(effect_models(rest@) =~= all.skip(1));
                    }
                    MessageFlow::wait(
                        mode,
                        FlowPhase::StartStored { launch, rest },
                        FlowAction::Store(first),
                    )
                } else {
                    match mode {
                        DeliveryMode::Blocking => {
                            proof {
                                let none: Option<Vec<TaskEvent>> = None;
                                let _ = f.launch(launch@, optional_events(none));
                            }
                            MessageFlow::launch(mode, launch, None)
                        },
                        DeliveryMode::Streaming => {
                            let id = launch.identifiers.task_id.clone();
                            MessageFlow::wait(
                                mode,
                                FlowPhase::StartEvents { launch },
                                FlowAction::LoadEvents(id),
                            )
                        },
                    }
                }
            },
            (FlowPhase::StartEvents { launch }, FlowReply::Events(events)) => {
                let initial = collect_new_events(events, 0);
                proof {
                    assert(initial@ =~= events@);
                    let _ = f.launch(launch@, optional_events(Some(initial)));
                }
                MessageFlow::launch(mode, launch, Some(initial))
            },
            (FlowPhase::Run, FlowReply::Ran(task)) => {
                let id = task.id.clone();
                MessageFlow::wait(
                    mode,
                    FlowPhase::FinalEvents { task },
                    FlowAction::LoadEvents(id),
                )
            },
            (FlowPhase::FinalEvents { task }, FlowReply::Events(events)) => {
                proof {
                    lemma_history_models(events@);
                }
                let view = crate::a2a::task_with_history(task, events);
                MessageFlow::ended(mode, Ok(DeliveryOutcome::Task(view)))
            },
            (FlowPhase::Follow { initial }, FlowReply::Following) => MessageFlow::ended(
                mode,
                Ok(
                    DeliveryOutcome::Stream(TaskStream { initial_events: initial, follow: true }),
                ),
            ),
            _ => {
                proof {
                    assert(false);
                }
                MessageFlow::ended(mode, Err(AgentError::InvalidInput(String::new())))
            },
        }
    }
}

// ---------------------------------------------------------------------------
// The course of a run
// ---------------------------------------------------------------------------

/// What a run waits for.
#[derive(Debug)]
pub enum DrivePhase {
    Session { launch: Launch },
    Answer { task: Task, identifiers: TaskIdentifiers },
    Stored { task: Task, rest: Vec<StoreEffect> },
    Ended,
}

/// What a run waits for, as mathematical values.
pub enum DriveModel {
    Session { launch: LaunchModel },
    Answer { task: TaskModel, context_id: Seq<char>, task_id: Seq<char> },
    Stored { task: TaskModel, rest: Seq<EffectModel> },
    Ended,
}

/// What is to be done next.
#[derive(Debug)]
pub enum DriveAction {
    LoadSession(String),
    /// Ask the skill, with what it can keep.
    RunSkill {
        skill_index: usize,
        state: State,
        context_id: String,
        task_id: String,
        phase: ExecutionPhase,
    },
    Store(StoreEffect),
    Done(Result<Task, AgentError>),
}

/// What is to be done next, as mathematical values.
pub enum DriveActionModel {
    LoadSession(Seq<char>),
    RunSkill {
        skill: int,
        task: TaskStateModel,
        session: Map<Seq<char>, Json>,
        context_id: Seq<char>,
        task_id: Seq<char>,
        input: bool,
        content: Seq<PartModel>,
    },
    Store(EffectModel),
    Done(Result<TaskModel, ErrorView>),
}

/// What came of it. A skill hands back what it keeps.
#[derive(Debug)]
pub enum DriveReply {
    Failed(AgentError),
    Session(Option<SessionState>),
    Answer { state: State, result: ExecutionResult },
    Stored,
}

impl View for DrivePhase {
    type V = DriveModel;

    open spec fn view(&self) -> DriveModel {
        match *self {
            DrivePhase::Session { launch } => DriveModel::Session { launch: launch@ },
            DrivePhase::Answer { task, identifiers } => DriveModel::Answer {
                task: task@,
                context_id: identifiers.context_id@,
                task_id: identifiers.task_id@,
            },
            DrivePhase::Stored { task, rest } => DriveModel::Stored {
                task: task@,
                rest: effect_models(rest@),
            },
            DrivePhase::Ended => DriveModel::Ended,
        }
    }
}

impl View for DriveAction {
    type V = DriveActionModel;

    open spec fn view(&self) -> DriveActionModel {
        match *self {
            DriveAction::LoadSession(id) => DriveActionModel::LoadSession(id@),
            DriveAction::RunSkill { skill_index, state, context_id, task_id, phase } =>
                DriveActionModel::RunSkill {
                skill: skill_index as int,
                task: state@.task,
                session: state@.session,
                context_id: context_id@,
                task_id: task_id@,
                input: phase is Input,
                content: match phase {
                    ExecutionPhase::Initial(c) => c@,
                    ExecutionPhase::Input(c) => c@,
                },
            },
            DriveAction::Store(e) => DriveActionModel::Store(e@),
            DriveAction::Done(Ok(t)) => DriveActionModel::Done(Ok(t@)),
            DriveAction::Done(Err(e)) => DriveActionModel::Done(Err(e@)),
        }
    }
}

impl DriveModel {
    /// What came is what is waited for; anything may fail.
    pub open spec fn expects(self, reply: DriveReply) -> bool {
        match reply {
            DriveReply::Failed(_) => !(self is Ended),
            DriveReply::Session(_) => self is Session,
            DriveReply::Answer { .. } => self is Answer,
            DriveReply::Stored => self is Stored,
        }
    }

    /// The next thing to store, or the end.
    pub open spec fn store_next(task: TaskModel, rest: Seq<EffectModel>) -> (
        DriveModel,
        DriveActionModel,
    ) {
        if rest.len() > 0 {
            (DriveModel::Stored { task, rest: rest.skip(1) }, DriveActionModel::Store(rest[0]))
        } else {
            (DriveModel::Ended, DriveActionModel::Done(Ok(task)))
        }
    }

    /// What follows what came: the skill is asked with what was kept, and what its answer calls
    /// for is stored in order.
    pub open spec fn step(self, reply: DriveReply, message_id: Seq<char>, now: Timestamp) -> (
        DriveModel,
        DriveActionModel,
    ) {
        match (self, reply) {
            (_, DriveReply::Failed(e)) => (DriveModel::Ended, DriveActionModel::Done(Err(e@))),
            (DriveModel::Session { launch }, DriveReply::Session(session)) => (
                DriveModel::Answer {
                    task: launch.task,
                    context_id: launch.context_id,
                    task_id: launch.task_id,
                },
                DriveActionModel::RunSkill {
                    skill: launch.skill,
                    task: launch.state,
                    session: match session {
                        Some(s) => s@,
                        None => Map::empty(),
                    },
                    context_id: launch.context_id,
                    task_id: launch.task_id,
                    input: launch.input,
                    content: launch.content,
                },
            ),
            (
                DriveModel::Answer { task, context_id, task_id },
                DriveReply::Answer { state, result },
            ) => DriveModel::store_next(
                finished_task(task, result, now),
                finish_effects(
                    task,
                    context_id,
                    task_id,
                    state@.task,
                    state@.session,
                    result,
                    message_id,
                    now,
                ),
            ),
            (DriveModel::Stored { task, rest }, DriveReply::Stored) => DriveModel::store_next(
                task,
                rest,
            ),
            _ => (
                DriveModel::Ended,
                DriveActionModel::Done(Err(ErrorView::InvalidInput(Seq::empty()))),
            ),
        }
    }
}

/// The beginning of a run: what was kept for the conversation is needed first.
pub fn drive_task(launch: Launch) -> (r: (DrivePhase, DriveAction))
    ensures
        r.0@ == (DriveModel::Session { launch: launch@ }),
        r.1@ == DriveActionModel::LoadSession(launch@.context_id),
{
    let id = launch.identifiers.context_id.clone();
    (DrivePhase::Session { launch }, DriveAction::LoadSession(id))
}

fn store_next(task: Task, rest: Vec<StoreEffect>) -> (r: (DrivePhase, DriveAction))
    ensures
        (r.0@, r.1@) == DriveModel::store_next(task@, effect_models(rest@)),
{
    let ghost all = effect_models(rest@);
    let mut rest = rest;
    proof {
        assert(all.len() == rest@.len());
    }
    if rest.len() > 0 {
        proof {
            assert(all[0] == rest@[0]@);
        }
        let first = rest.remove(0);
        proof {
            assert(effect_models(rest@) =~= all.skip(1));
        }
        (DrivePhase::Stored { task, rest }, DriveAction::Store(first))
    } else {
        (DrivePhase::Ended, DriveAction::Done(Ok(task)))
    }
}

impl DrivePhase {
    /// What follows what came. `message_id` is an identifier for what the skill says.
    pub fn step(self, reply: DriveReply, message_id: String, now: Timestamp) -> (r: (
        DrivePhase,
        DriveAction,
    ))
        requires
            self@.expects(reply),
        ensures
            (r.0@, r.1@) == self@.step(reply, message_id@, now),
    {
        match (self, reply) {
            (_, DriveReply::Failed(e)) => (DrivePhase::Ended, DriveAction::Done(Err(e))),
            (DrivePhase::Session { launch }, DriveReply::Session(session)) => {
                let state = begin_run(launch.task_state, session);
                let context_id = launch.identifiers.context_id.clone();
                let task_id = launch.identifiers.task_id.clone();
                (
                    DrivePhase::Answer { task: launch.task, identifiers: launch.identifiers },
                    DriveAction::RunSkill {
                        skill_index: launch.skill_index,
                        state,
                        context_id,
                        task_id,
                        phase: launch.phase,
                    },
                )
            },
            (DrivePhase::Answer { task, identifiers }, DriveReply::Answer { state, result }) => {
                let done = finish_run(task, &identifiers, state, &result, message_id, now);
                store_next(done.task, done.effects)
            },
            (DrivePhase::Stored { task, rest }, DriveReply::Stored) => store_next(task, rest),
            _ => {
                proof {
                    assert(false);
                }
                (DrivePhase::Ended, DriveAction::Done(Err(AgentError::InvalidInput(String::new()))))
            },
        }
    }

    /// Tells whether what came is what is waited for.
    pub fn is_waiting_for(&self, reply: &DriveReply) -> (r: bool)
        ensures
            r == self@.expects(*reply),
    {
        match (self, reply) {
            (DrivePhase::Ended, _) => false,
            (_, DriveReply::Failed(_)) => true,
            (DrivePhase::Session { .. }, DriveReply::Session(_)) => true,
            (DrivePhase::Answer { .. }, DriveReply::Answer { .. }) => true,
            (DrivePhase::Stored { .. }, DriveReply::Stored) => true,
            _ => false,
        }
    }
}

// ---------------------------------------------------------------------------
// Laws
// ---------------------------------------------------------------------------

/// What is stored from some point of a run on, where nothing fails.
pub open spec fn stored_from(rest: Seq<EffectModel>, task: TaskModel) -> Seq<EffectModel>
    decreases rest.len(),
{
    match DriveModel::store_next(task, rest) {
        (DriveModel::Stored { task, rest: next }, DriveActionModel::Store(e)) => if rest.len() > 0
            && next.len() < rest.len() {
            seq![e] + stored_from(next, task)
        } else {
            Seq::empty()
        },
        _ => Seq::empty(),
    }
}

/// Where nothing fails, everything that an answer calls for is stored, in order and once.
pub proof fn everything_is_stored(rest: Seq<EffectModel>, task: TaskModel)
    ensures
        stored_from(rest, task) == rest,
    decreases rest.len(),
{
    if rest.len() > 0 {
        everything_is_stored(rest.skip(1), task);
        assert(seq![rest[0]] + rest.skip(1) =~= rest);
    } else {
        assert(rest =~= Seq::<EffectModel>::empty());
    }
}

/// What the user says to a task is stored before anything else is done with it: a flow that
/// has found the task and its events stores the message next.
pub proof fn input_is_stored_first<H>(
    flow: FlowModel,
    skills: Seq<SkillRegistration<H>>,
    events: Seq<TaskEventModel>,
    fresh: Seq<char>,
    message_id: Seq<char>,
    now: Timestamp,
)
    requires
        flow.phase is Baseline,
    ensures
        flow.step(skills, FlowReplyModel::Events(events), fresh, message_id, now).1
            == FlowActionModel::Store(
            push_message(
                message_model(
                    message_id,
                    flow.phase->Baseline_context_id,
                    Some(flow.phase->Baseline_task_id),
                    Role::User,
                    flow.phase->Baseline_content,
                ),
            ),
        ),
{
}

/// A task that does not wait for the user is not run: the flow ends with an error.
pub proof fn only_waiting_tasks_go_on(
    flow: FlowModel,
    task: TaskModel,
    content: Seq<PartModel>,
    initial: Option<Seq<TaskEventModel>>,
)
    requires
        !continuable(task.status.state),
    ensures
        flow.go_on(task, content, initial).1 == FlowActionModel::Done(Err(cannot_go_on(task))),
{
}

/// What a client is told in place of a task was stored before: the message of a decision that
/// starts no task is stored first and told then.
pub proof fn told_messages_are_stored<H>(
    flow: FlowModel,
    skills: Seq<SkillRegistration<H>>,
    decision: DecisionModel,
    fresh: Seq<char>,
    message_id: Seq<char>,
    now: Timestamp,
    later_fresh: Seq<char>,
    later_id: Seq<char>,
    later: Timestamp,
)
    requires
        flow.phase is Decision,
        decision.skill is None,
    ensures
        ({
            let (stored, first) = flow.step(
                skills,
                FlowReplyModel::Decision(decision),
                fresh,
                message_id,
                now,
            );
            let message = message_model(
                message_id,
                flow.phase->Decision_context_id,
                None,
                Role::Assistant,
                seq![PartModel::Text(decision.says)],
            );
            &&& first == FlowActionModel::Store(push_message(message))
            &&& stored.step(skills, FlowReplyModel::Stored, later_fresh, later_id, later).1
                == FlowActionModel::Done(Ok(OutcomeModel::Message(message)))
        }),
{
}

/// What a skill keeps in one turn it has in the next: what it leaves in the state of a task that
/// waits for the user is saved with the slot it asks for, and a flow that finds this state hands
/// it to the skill unchanged, with what the user said.
pub proof fn kept_work_comes_back<H>(
    answered: DriveModel,
    state: State,
    result: ExecutionResult,
    flow: FlowModel,
    skills: Seq<SkillRegistration<H>>,
    session: Option<SessionState>,
    fresh: Seq<char>,
    message_id: Seq<char>,
    now: Timestamp,
)
    requires
        answered is Answer,
        result.keeps() is Some,
        flow.phase is State,
        continuable(flow.phase->State_task.status.state),
        has_skill(skills, flow.phase->State_skill),
    ensures
        ({
            let kept = finished_state(state@.task, result);
            let effects = finish_effects(
                answered->Answer_task,
                answered->Answer_context_id,
                answered->Answer_task_id,
                state@.task,
                state@.session,
                result,
                message_id,
                now,
            );
            let saved = EffectModel::SaveTaskState {
                task_id: answered->Answer_task_id,
                state: kept,
            };
            let (found, _) = flow.step(
                skills,
                FlowReplyModel::State(Some(kept)),
                fresh,
                message_id,
                now,
            );
            let (_, run) = found.step(skills, FlowReplyModel::Stored, fresh, message_id, now);
            let launch = found.phase->TaskSaved_launch;
            let (_, asked) = (DriveModel::Session { launch }).step(
                DriveReply::Session(session),
                message_id,
                now,
            );
            &&& answered.step(DriveReply::Answer { state, result }, message_id, now)
                == DriveModel::store_next(
                finished_task(answered->Answer_task, result, now),
                effects,
            )
            &&& effects.contains(saved)
            &&& kept.data == state@.task.data
            &&& kept.slot == Some(result.keeps()->Some_0.value@)
            &&& run == FlowActionModel::Run(launch) || run == FlowActionModel::Follow(launch)
            &&& asked is RunSkill
            &&& asked->task == kept
            &&& asked->input
            &&& asked->RunSkill_content == flow.phase->State_content
        }),
{
    let kept = finished_state(state@.task, result);
    let produced = artifact_effects(
        answered->Answer_context_id,
        answered->Answer_task_id,
        produced_models(result),
    );
    let effects = finish_effects(
        answered->Answer_task,
        answered->Answer_context_id,
        answered->Answer_task_id,
        state@.task,
        state@.session,
        result,
        message_id,
        now,
    );
    assert(effects[produced.len() as int] == EffectModel::SaveTaskState {
        task_id: answered->Answer_task_id,
        state: kept,
    });
}

/// A flow that has ended waits for nothing.
pub proof fn ended_flows_wait_for_nothing(flow: FlowModel, reply: FlowReplyModel)
    requires
        flow.phase is Ended,
    ensures
        !flow.expects(reply),
{
}

/// Whatever fails ends the flow with its error.
pub proof fn failures_end_the_flow<H>(
    flow: FlowModel,
    skills: Seq<SkillRegistration<H>>,
    error: ErrorView,
    fresh: Seq<char>,
    message_id: Seq<char>,
    now: Timestamp,
)
    ensures
        ({
            let (after, action) = flow.step(
                skills,
                FlowReplyModel::Failed(error),
                fresh,
                message_id,
                now,
            );
            after.phase is Ended && action == FlowActionModel::Done(Err(error))
        }),
{
}

} // verus!
