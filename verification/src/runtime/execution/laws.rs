//! What holds of requests as a whole: what becomes of an answer, and the course of a request
//! from the message to what the client is told.

use crate::a2a::{
    history, Message, MessageModel, StatusModel, Task, TaskEvent, TaskEventModel, TaskModel,
    TaskState as A2aTaskState, TaskView, TaskViewModel, Timestamp,
};
use crate::agent::builder::SkillRegistration;
use crate::agent::skill::{OnInputResult, OnRequestResult};
use crate::errors::{AgentError, ErrorView};
use crate::json::Json;
use crate::models::{PartModel, Role};
use crate::runtime::context::{SessionState, State, TaskStateModel};
use crate::runtime::execution::executor::{
    blocking_response, collect_new_events, finish_effects, finish_run, finished_task, first_skill,
    no_skill, pushed, run_tells_what_is_said, start_effects, streaming_response, told, DeliveryMode,
    DeliveryOutcome, EffectModel, ExecutionResult, ExecutorRuntime, FinishedRun, MessageRoute,
    NegotiationDecision, NegotiationDelivery, NegotiationNext, PreparedSendMessage, RequestExecutor,
    SendMessageRequest, SendMessageResponse, TaskIdentifiers, TaskStream,
};
use crate::runtime::execution::flow::{
    everything_is_stored, stored_from, DecisionModel, DriveActionModel, DriveModel, DriveReply,
    FlowActionModel, FlowModel, FlowReplyModel, LaunchModel, OutcomeModel,
};
use crate::runtime::execution::status_mapper::{
    continuable, is_terminal, on_input_to_state, on_request_to_state,
};
use crate::text::signed_decimal;
use vstd::prelude::*;

verus! {

// ---------------------------------------------------------------------------
// States
// ---------------------------------------------------------------------------

/// The states have the numbers of the protocol, and no other number is that of a state.
pub proof fn states_have_the_numbers_of_the_protocol(code: i32)
    ensures
        A2aTaskState::Unspecified.code() == 0,
        A2aTaskState::Submitted.code() == 1,
        A2aTaskState::Working.code() == 2,
        A2aTaskState::Completed.code() == 3,
        A2aTaskState::Failed.code() == 4,
        A2aTaskState::Canceled.code() == 5,
        A2aTaskState::InputRequired.code() == 6,
        A2aTaskState::Rejected.code() == 7,
        A2aTaskState::AuthRequired.code() == 8,
        A2aTaskState::of_code(code) is Some <==> 0 <= code <= 8,
        A2aTaskState::of_code(code) matches Some(s) ==> s.code() == code,
{
}

/// A task is at its end exactly when it was completed, failed, was canceled or was rejected, and
/// it can go on exactly when it waits for input.
pub proof fn ends_and_waits(state: i32)
    ensures
        is_terminal(state) <==> state == 3 || state == 4 || state == 5 || state == 7,
        continuable(state) <==> state == 6,
{
}

/// The states are named as the protocol names them, so that no two share a name.
pub proof fn states_have_their_names(a: A2aTaskState, b: A2aTaskState)
    ensures
        A2aTaskState::Unspecified.name() == "Unspecified"@,
        A2aTaskState::Submitted.name() == "Submitted"@,
        A2aTaskState::Working.name() == "Working"@,
        A2aTaskState::Completed.name() == "Completed"@,
        A2aTaskState::Failed.name() == "Failed"@,
        A2aTaskState::Canceled.name() == "Canceled"@,
        A2aTaskState::InputRequired.name() == "InputRequired"@,
        A2aTaskState::Rejected.name() == "Rejected"@,
        A2aTaskState::AuthRequired.name() == "AuthRequired"@,
        a.name() == b.name() ==> a == b,
{
    reveal_strlit("Unspecified");
    reveal_strlit("Submitted");
    reveal_strlit("Working");
    reveal_strlit("Completed");
    reveal_strlit("Failed");
    reveal_strlit("Canceled");
    reveal_strlit("InputRequired");
    reveal_strlit("Rejected");
    reveal_strlit("AuthRequired");
    assert(a.name().len() == 9 || a.name().len() == 8 ==> a.name()[0] == match a {
        A2aTaskState::Submitted => 'S',
        A2aTaskState::Rejected => 'R',
        _ => 'C',
    });
    assert(b.name().len() == 9 || b.name().len() == 8 ==> b.name()[0] == match b {
        A2aTaskState::Submitted => 'S',
        A2aTaskState::Rejected => 'R',
        _ => 'C',
    });
}

// ---------------------------------------------------------------------------
// What becomes of an answer
// ---------------------------------------------------------------------------

/// The answer of a skill decides the state of its task: a completed answer makes it completed, a
/// question makes it wait for input, a failure makes it failed and a refusal makes it rejected.
/// The task is returned, published and saved in that state, as the last thing that happens.
pub proof fn answers_decide_the_state(
    task: TaskModel,
    context_id: Seq<char>,
    task_id: Seq<char>,
    state: TaskStateModel,
    session: Map<Seq<char>, Json>,
    result: ExecutionResult,
    message_id: Seq<char>,
    now: Timestamp,
)
    ensures
        ({
            let e = finish_effects(
                task,
                context_id,
                task_id,
                state,
                session,
                result,
                message_id,
                now,
            );
            let n = e.len();
            let done = finished_task(task, result, now);
            let status = StatusModel {
                state: match result {
                    ExecutionResult::Initial(OnRequestResult::Completed { .. }) => 3,
                    ExecutionResult::Initial(OnRequestResult::InputRequired { .. }) => 6,
                    ExecutionResult::Initial(OnRequestResult::Failed { .. }) => 4,
                    ExecutionResult::Initial(OnRequestResult::Rejected { .. }) => 7,
                    ExecutionResult::Input(OnInputResult::Completed { .. }) => 3,
                    ExecutionResult::Input(OnInputResult::InputRequired { .. }) => 6,
                    ExecutionResult::Input(OnInputResult::Failed { .. }) => 4,
                },
                timestamp: Some(now),
                message: None,
            };
            &&& n >= 4
            &&& done.id == task.id
            &&& done.context_id == task.context_id
            &&& done.status == status
            &&& e[n - 1] == EffectModel::SaveTask(done)
            &&& e[n - 2] == EffectModel::PushEvent(
                TaskEventModel::StatusUpdate {
                    task_id,
                    context_id,
                    status: Some(status),
                    is_final: true,
                },
            )
        }),
{
}

/// What an answer produced is published, one event for each artifact and first of all, and stands
/// in the task. An answer that completes nothing publishes no artifact and leaves those of the
/// task alone.
pub proof fn answers_deliver_their_artifacts(
    task: TaskModel,
    context_id: Seq<char>,
    task_id: Seq<char>,
    state: TaskStateModel,
    session: Map<Seq<char>, Json>,
    result: ExecutionResult,
    message_id: Seq<char>,
    now: Timestamp,
)
    ensures
        ({
            let e = finish_effects(
                task,
                context_id,
                task_id,
                state,
                session,
                result,
                message_id,
                now,
            );
            let done = finished_task(task, result, now);
            let made = match result {
                ExecutionResult::Initial(OnRequestResult::Completed { artifacts, .. }) => Some(
                    artifacts@,
                ),
                ExecutionResult::Input(OnInputResult::Completed { artifacts, .. }) => Some(
                    artifacts@,
                ),
                _ => None,
            };
            let count = match made {
                Some(a) => a.len(),
                None => 0,
            };
            &&& made matches Some(a) ==> done.artifacts.len() == a.len() && forall|i: int|
                0 <= i < a.len() ==> #[trigger] done.artifacts[i] == a[i]@ && e[i]
                    == EffectModel::PushEvent(
                    TaskEventModel::ArtifactUpdate {
                        task_id,
                        context_id,
                        artifact: Some(a[i]@),
                        append: false,
                        last_chunk: true,
                    },
                )
            &&& made is None ==> done.artifacts == task.artifacts
            &&& forall|i: int|
                count <= i < e.len() ==> !(#[trigger] e[i] matches EffectModel::PushEvent(
                    TaskEventModel::ArtifactUpdate { .. },
                ))
        }),
{
}

/// What a skill keeps is saved with the answer, right behind the artifacts: the values as the
/// skill left them, and the slot exactly where the user is asked. What the conversation keeps is
/// saved next.
pub proof fn answers_save_what_is_kept(
    task: TaskModel,
    context_id: Seq<char>,
    task_id: Seq<char>,
    state: TaskStateModel,
    session: Map<Seq<char>, Json>,
    result: ExecutionResult,
    message_id: Seq<char>,
    now: Timestamp,
)
    ensures
        ({
            let e = finish_effects(
                task,
                context_id,
                task_id,
                state,
                session,
                result,
                message_id,
                now,
            );
            let k: int = match result {
                ExecutionResult::Initial(OnRequestResult::Completed { artifacts, .. }) =>
                    artifacts@.len() as int,
                ExecutionResult::Input(OnInputResult::Completed { artifacts, .. }) =>
                    artifacts@.len() as int,
                _ => 0,
            };
            let slot = match result {
                ExecutionResult::Initial(OnRequestResult::InputRequired { slot, .. }) => Some(
                    slot.value@,
                ),
                ExecutionResult::Input(OnInputResult::InputRequired { slot, .. }) => Some(
                    slot.value@,
                ),
                _ => None,
            };
            &&& e[k] == EffectModel::SaveTaskState {
                task_id,
                state: TaskStateModel { data: state.data, slot },
            }
            &&& e[k + 1] == EffectModel::SaveSessionState { context_id, state: session }
        }),
{
}

/// What a skill says with its answer is the one message that the history of its task gains: as
/// the agent, in the conversation and the task. Only an answer that completes a task may say
/// nothing.
pub proof fn answers_are_said(
    task: TaskModel,
    context_id: Seq<char>,
    task_id: Seq<char>,
    state: TaskStateModel,
    session: Map<Seq<char>, Json>,
    result: ExecutionResult,
    message_id: Seq<char>,
    now: Timestamp,
)
    ensures
        ({
            let e = finish_effects(
                task,
                context_id,
                task_id,
                state,
                session,
                result,
                message_id,
                now,
            );
            let said = match result {
                ExecutionResult::Initial(OnRequestResult::Completed { message, .. }) => message,
                ExecutionResult::Initial(OnRequestResult::InputRequired { message, .. }) => Some(
                    message,
                ),
                ExecutionResult::Initial(OnRequestResult::Failed { error }) => Some(error),
                ExecutionResult::Initial(OnRequestResult::Rejected { reason }) => Some(reason),
                ExecutionResult::Input(OnInputResult::Completed { message, .. }) => message,
                ExecutionResult::Input(OnInputResult::InputRequired { message, .. }) => Some(
                    message,
                ),
                ExecutionResult::Input(OnInputResult::Failed { error }) => Some(error),
            };
            told(pushed(e)) == match said {
                Some(c) => seq![
                    MessageModel {
                        message_id,
                        context_id,
                        task_id,
                        role: Role::Assistant,
                        content: c@,
                    },
                ],
                None => Seq::empty(),
            }
        }),
{
    run_tells_what_is_said(task, context_id, task_id, state, session, result, message_id, now);
}

/// A task begins as working, without artifacts; its skill is noted, and what the user said is
/// its first message.
pub proof fn tasks_begin_working(
    task_id: Seq<char>,
    context_id: Seq<char>,
    skill_id: Seq<char>,
    message_id: Seq<char>,
    content: Seq<PartModel>,
    now: Timestamp,
)
    ensures
        start_effects(task_id, context_id, skill_id, message_id, content, now) == seq![
            EffectModel::SaveTask(
                TaskModel {
                    id: task_id,
                    context_id,
                    status: StatusModel { state: 2, timestamp: Some(now), message: None },
                    artifacts: Seq::empty(),
                },
            ),
            EffectModel::SetTaskSkill { task_id, skill_id },
            EffectModel::PushEvent(
                TaskEventModel::Message(
                    MessageModel { message_id, context_id, task_id, role: Role::User, content },
                ),
            ),
        ],
{
}

// ---------------------------------------------------------------------------
// Histories
// ---------------------------------------------------------------------------

/// The history of a task grows by what each event tells: a message by itself, a status by the
/// message it carries, and nothing else.
pub proof fn histories_grow_by_what_is_told(events: Seq<TaskEvent>, e: TaskEvent)
    ensures
        history(Seq::empty()) == Seq::<Message>::empty(),
        e matches TaskEvent::Message(m) ==> history(events.push(e)) == history(events).push(m),
        e matches TaskEvent::ArtifactUpdate(_) ==> history(events.push(e)) == history(events),
        e matches TaskEvent::StatusUpdate(u) ==> history(events.push(e)) == match u.status {
            Some(s) => match s.message {
                Some(m) => history(events).push(m),
                None => history(events),
            },
            None => history(events),
        },
{
    assert(events.push(e).drop_last() =~= events);
}

/// The messages told by events grow likewise.
pub proof fn told_messages_grow(events: Seq<TaskEventModel>, e: TaskEventModel)
    ensures
        told(Seq::empty()) == Seq::<MessageModel>::empty(),
        e matches TaskEventModel::Message(m) ==> told(events.push(e)) == told(events).push(m),
        e is ArtifactUpdate ==> told(events.push(e)) == told(events),
        e matches TaskEventModel::StatusUpdate { status: Some(s), .. } ==> told(events.push(e))
            == match s.message {
            Some(m) => told(events).push(m),
            None => told(events),
        },
        e matches TaskEventModel::StatusUpdate { status: None, .. } ==> told(events.push(e))
            == told(events),
{
    assert(events.push(e).drop_last() =~= events);
}

// ---------------------------------------------------------------------------
// The course of a request
// ---------------------------------------------------------------------------

/// What a user says outside of any task.
pub open spec fn said_by_user(
    message_id: Seq<char>,
    context_id: Seq<char>,
    task_id: Seq<char>,
    content: Seq<PartModel>,
) -> FlowActionModel {
    FlowActionModel::Store(
        EffectModel::PushEvent(
            TaskEventModel::Message(
                MessageModel { message_id, context_id, task_id, role: Role::User, content },
            ),
        ),
    )
}

/// A message that names neither a conversation nor a task opens a conversation under the fresh
/// identifier: it is stored there, and then decided on without any earlier messages.
pub proof fn new_requests_open_a_conversation<H>(
    mode: DeliveryMode,
    message: MessageModel,
    context_id: Seq<char>,
    message_id: Seq<char>,
    skills: Seq<SkillRegistration<H>>,
    fresh: Seq<char>,
    next_id: Seq<char>,
    now: Timestamp,
)
    requires
        message.context_id.len() == 0,
        message.task_id.len() == 0,
    ensures
        ({
            let (f, first) = FlowModel::begin(mode, Some(message), context_id, message_id);
            let (_, second) = f.step(skills, FlowReplyModel::Stored, fresh, next_id, now);
            &&& first == said_by_user(message_id, context_id, Seq::empty(), message.content)
            &&& f.expects(FlowReplyModel::Stored)
            &&& second == FlowActionModel::Negotiate {
                context_id,
                content: message.content,
                messages: Seq::empty(),
            }
        }),
{
}

/// A message that names a conversation alone goes on with it where it is known: the message is
/// stored there, and decided on with the earlier messages. Where there is no task and no message
/// in it, the message is refused.
pub proof fn requests_go_on_with_their_conversation<H>(
    mode: DeliveryMode,
    message: MessageModel,
    unused: Seq<char>,
    unused_id: Seq<char>,
    skills: Seq<SkillRegistration<H>>,
    related_tasks: nat,
    messages: Seq<MessageModel>,
    fresh: Seq<char>,
    message_id: Seq<char>,
    now: Timestamp,
)
    requires
        message.context_id.len() > 0,
        message.task_id.len() == 0,
    ensures
        ({
            let (f, first) = FlowModel::begin(mode, Some(message), unused, unused_id);
            let reply = FlowReplyModel::Context { related_tasks, messages };
            let (g, second) = f.step(skills, reply, fresh, message_id, now);
            let (_, third) = g.step(skills, FlowReplyModel::Stored, fresh, message_id, now);
            &&& first == FlowActionModel::LoadContext(message.context_id)
            &&& f.expects(reply)
            &&& if related_tasks == 0 && messages.len() == 0 {
                second == FlowActionModel::Done(
                    Err(ErrorView::InvalidInput("Invalid context id "@ + message.context_id)),
                )
            } else {
                &&& second == said_by_user(
                    message_id,
                    message.context_id,
                    Seq::empty(),
                    message.content,
                )
                &&& third == FlowActionModel::Negotiate {
                    context_id: message.context_id,
                    content: message.content,
                    messages,
                }
            }
        }),
{
}

/// A request without a message is refused, and so is one that names a task without its
/// conversation.
pub proof fn incomplete_requests_are_refused(
    mode: DeliveryMode,
    message: MessageModel,
    fresh: Seq<char>,
    message_id: Seq<char>,
)
    ensures
        FlowModel::begin(mode, None, fresh, message_id).1 == FlowActionModel::Done(
            Err(ErrorView::InvalidInput("message is required"@)),
        ),
        message.context_id.len() == 0 && message.task_id.len() > 0 ==> FlowModel::begin(
            mode,
            Some(message),
            fresh,
            message_id,
        ).1 == FlowActionModel::Done(
            Err(ErrorView::InvalidInput("context_id is required when passing task_id"@)),
        ),
{
}

/// The skill at `i` is the first with this identifier.
pub open spec fn leads<H>(skills: Seq<SkillRegistration<H>>, id: Seq<char>, i: int) -> bool {
    &&& 0 <= i < skills.len()
    &&& skills[i].metadata.id@ == id
    &&& forall|j: int| 0 <= j < i ==> (#[trigger] skills[j]).metadata.id@ != id
}

proof fn lemma_leading_skill<H>(skills: Seq<SkillRegistration<H>>, id: Seq<char>, i: int)
    requires
        leads(skills, id, i),
    ensures
        crate::runtime::execution::flow::has_skill(skills, id),
        crate::runtime::execution::flow::skill_index(skills, id) == i,
{
    assert(crate::runtime::execution::executor::first_skill(skills, id, i));
    let j = crate::runtime::execution::flow::skill_index(skills, id);
    assert(crate::runtime::execution::executor::first_skill(skills, id, j));
    if i < j {
        assert(skills[i].metadata.id@ != id);
    }
    if j < i {
        assert(skills[j].metadata.id@ != id);
    }
}

/// The course from a decision to the end: what the agent decided is stored as its message in the
/// conversation. Where it starts no task, that message is the answer. Where it starts one, the
/// task is stored as working, then its skill, then what the user said; the first skill with the
/// identifier is run on the request, with nothing kept. A caller that waits is told the task that
/// the run left, with its history; one that follows is told the events so far, and that more come.
pub proof fn decisions_are_carried_out<H>(
    flow: FlowModel,
    context_id: Seq<char>,
    content: Seq<PartModel>,
    messages: Seq<MessageModel>,
    skills: Seq<SkillRegistration<H>>,
    decision: DecisionModel,
    position: int,
    decided_id: Seq<char>,
    task_id: Seq<char>,
    message_id: Seq<char>,
    now: Timestamp,
    ran: TaskModel,
    events: Seq<TaskEventModel>,
)
    requires
        flow.step(skills, FlowReplyModel::Stored, task_id, message_id, now).1
            == (FlowActionModel::Negotiate { context_id, content, messages }),
        flow.expects(FlowReplyModel::Stored),
        decision.skill matches Some(s) ==> leads(skills, s, position),
    ensures
        ({
            let f = flow.step(skills, FlowReplyModel::Stored, task_id, message_id, now).0;
            let (f1, a1) = f.step(
                skills,
                FlowReplyModel::Decision(decision),
                task_id,
                decided_id,
                now,
            );
            let (f2, a2) = f1.step(skills, FlowReplyModel::Stored, task_id, message_id, now);
            let (f3, a3) = f2.step(skills, FlowReplyModel::Stored, task_id, message_id, now);
            let (f4, a4) = f3.step(skills, FlowReplyModel::Stored, task_id, message_id, now);
            let (f5, a5) = f4.step(skills, FlowReplyModel::Stored, task_id, message_id, now);
            let said = MessageModel {
                message_id: decided_id,
                context_id,
                task_id: Seq::empty(),
                role: Role::Assistant,
                content: seq![PartModel::Text(decision.says)],
            };
            let task = TaskModel {
                id: task_id,
                context_id,
                status: StatusModel { state: 2, timestamp: Some(now), message: None },
                artifacts: Seq::empty(),
            };
            &&& a1 == FlowActionModel::Store(
                EffectModel::PushEvent(TaskEventModel::Message(said)),
            )
            &&& decision.skill is None ==> a2 == FlowActionModel::Done(
                Ok(OutcomeModel::Message(said)),
            )
            &&& decision.skill matches Some(skill_id) ==> {
                let launch = LaunchModel {
                    task,
                    skill: position,
                    state: TaskStateModel { data: Map::empty(), slot: None },
                    context_id,
                    task_id,
                    input: false,
                    content,
                };
                &&& a2 == FlowActionModel::Store(EffectModel::SaveTask(task))
                &&& a3 == FlowActionModel::Store(EffectModel::SetTaskSkill { task_id, skill_id })
                &&& a4 == said_by_user(message_id, context_id, task_id, content)
                &&& flow.mode == DeliveryMode::Blocking ==> {
                    let (f6, a6) = f5.step(
                        skills,
                        FlowReplyModel::Ran(ran),
                        task_id,
                        message_id,
                        now,
                    );
                    let (_, a7) = f6.step(
                        skills,
                        FlowReplyModel::Events(events),
                        task_id,
                        message_id,
                        now,
                    );
                    &&& a5 == FlowActionModel::Run(launch)
                    &&& a6 == FlowActionModel::LoadEvents(ran.id)
                    &&& a7 == FlowActionModel::Done(
                        Ok(
                            OutcomeModel::Task(
                                TaskViewModel {
                                    id: ran.id,
                                    context_id: ran.context_id,
                                    status: Some(ran.status),
                                    history: told(events),
                                    artifacts: ran.artifacts,
                                },
                            ),
                        ),
                    )
                }
                &&& flow.mode == DeliveryMode::Streaming ==> {
                    let (f6, a6) = f5.step(
                        skills,
                        FlowReplyModel::Events(events),
                        task_id,
                        message_id,
                        now,
                    );
                    let (_, a7) = f6.step(
                        skills,
                        FlowReplyModel::Following,
                        task_id,
                        message_id,
                        now,
                    );
                    &&& a5 == FlowActionModel::LoadEvents(task_id)
                    &&& a6 == FlowActionModel::Follow(launch)
                    &&& a7 == FlowActionModel::Done(
                        Ok(OutcomeModel::Stream { initial_events: events, follow: true }),
                    )
                }
            }
        }),
{
    if decision.skill is Some {
        let s = decision.skill->Some_0;
        lemma_leading_skill(skills, s, position);
        let e = start_effects(task_id, context_id, s, message_id, content, now);
        assert(e.skip(1)[0] == e[1]);
        assert(e.skip(1).skip(1)[0] == e[2]);
        assert(e.skip(1).skip(1).skip(1).len() == 0);
    }
}

/// A decision for a skill that the agent does not have ends the request with that error.
pub proof fn unknown_skills_end_the_request<H>(
    flow: FlowModel,
    context_id: Seq<char>,
    content: Seq<PartModel>,
    messages: Seq<MessageModel>,
    skills: Seq<SkillRegistration<H>>,
    decision: DecisionModel,
    task_id: Seq<char>,
    message_id: Seq<char>,
    now: Timestamp,
)
    requires
        flow.step(skills, FlowReplyModel::Stored, task_id, message_id, now).1
            == (FlowActionModel::Negotiate { context_id, content, messages }),
        flow.expects(FlowReplyModel::Stored),
        decision.skill is Some,
        forall|j: int|
            0 <= j < skills.len() ==> (#[trigger] skills[j]).metadata.id@ != decision.skill->Some_0,
    ensures
        ({
            let f = flow.step(skills, FlowReplyModel::Stored, task_id, message_id, now).0;
            let f1 = f.step(
                skills,
                FlowReplyModel::Decision(decision),
                task_id,
                message_id,
                now,
            ).0;
            f1.step(skills, FlowReplyModel::Stored, task_id, message_id, now).1
                == FlowActionModel::Done(
                Err(ErrorView::SkillNotFound { skill_id: decision.skill->Some_0 }),
            )
        }),
{
    let s = decision.skill->Some_0;
    if crate::runtime::execution::flow::has_skill(skills, s) {
        let i = choose|i: int| crate::runtime::execution::executor::first_skill(skills, s, i);
        assert(skills[i].metadata.id@ != s);
    }
}

/// A message that names a task goes on with it: the task must be stored, and in that
/// conversation. What the user says is stored with the task before anything else. A task that does
/// not wait for input is not run.
pub proof fn messages_find_their_task<H>(
    mode: DeliveryMode,
    message: MessageModel,
    unused: Seq<char>,
    unused_id: Seq<char>,
    skills: Seq<SkillRegistration<H>>,
    stored: Option<TaskModel>,
    before: Seq<TaskEventModel>,
    message_id: Seq<char>,
    now: Timestamp,
)
    requires
        message.context_id.len() > 0,
        message.task_id.len() > 0,
    ensures
        ({
            let (f, a0) = FlowModel::begin(mode, Some(message), unused, unused_id);
            let (f1, a1) = f.step(skills, FlowReplyModel::Task(stored), unused, message_id, now);
            let (_, a2) = f1.step(skills, FlowReplyModel::Events(before), unused, message_id, now);
            &&& a0 == FlowActionModel::LoadTask(message.task_id)
            &&& stored is None ==> a1 == FlowActionModel::Done(
                Err(ErrorView::TaskNotFound { task_id: message.task_id }),
            )
            &&& stored matches Some(t) ==> if t.context_id == message.context_id {
                &&& a1 == FlowActionModel::LoadEvents(message.task_id)
                &&& a2 == said_by_user(
                    message_id,
                    message.context_id,
                    message.task_id,
                    message.content,
                )
            } else {
                a1 == FlowActionModel::Done(
                    Err(
                        ErrorView::InvalidInput(
                            "Task id "@ + message.task_id + " does not belong to context id "@
                                + message.context_id,
                        ),
                    ),
                )
            }
        }),
{
}

/// A caller that waits, and whose message names a stored task of its conversation: a task that
/// waits for input is saved as working again, with the artifacts it has, and its skill is run on
/// what the user said, with what was kept for the task. Any other task is refused, whatever its
/// state.
pub proof fn waiting_tasks_are_run_on_the_input<H>(
    message: MessageModel,
    unused: Seq<char>,
    unused_id: Seq<char>,
    skills: Seq<SkillRegistration<H>>,
    task: TaskModel,
    before: Seq<TaskEventModel>,
    message_id: Seq<char>,
    skill: Seq<char>,
    position: int,
    kept: Option<TaskStateModel>,
    now: Timestamp,
)
    requires
        message.context_id.len() > 0,
        message.task_id.len() > 0,
        task.context_id == message.context_id,
        leads(skills, skill, position),
    ensures
        ({
            let f = FlowModel::begin(DeliveryMode::Blocking, Some(message), unused, unused_id).0;
            let f1 = f.step(skills, FlowReplyModel::Task(Some(task)), unused, message_id, now).0;
            let f2 = f1.step(skills, FlowReplyModel::Events(before), unused, message_id, now).0;
            let (f3, a3) = f2.step(skills, FlowReplyModel::Stored, unused, message_id, now);
            let (f4, a4) = f3.step(
                skills,
                FlowReplyModel::Skill(Some(skill)),
                unused,
                message_id,
                now,
            );
            let (f5, a5) = f4.step(skills, FlowReplyModel::State(kept), unused, message_id, now);
            let (_, a6) = f5.step(skills, FlowReplyModel::Stored, unused, message_id, now);
            let working = TaskModel {
                id: task.id,
                context_id: task.context_id,
                status: StatusModel { state: 2, timestamp: Some(now), message: None },
                artifacts: task.artifacts,
            };
            if task.status.state == 6 {
                &&& a3 == FlowActionModel::LoadTaskSkill(task.id)
                &&& f3.step(skills, FlowReplyModel::Skill(None), unused, message_id, now).1
                    == FlowActionModel::Done(
                    Err(
                        ErrorView::Internal {
                            component: "task_manager"@,
                            reason: "No skill associated with task "@ + task.id,
                        },
                    ),
                )
                &&& a4 == FlowActionModel::LoadTaskState(task.id)
                &&& a5 == FlowActionModel::Store(EffectModel::SaveTask(working))
                &&& a6 == FlowActionModel::Run(
                    LaunchModel {
                        task: working,
                        skill: position,
                        state: match kept {
                            Some(s) => s,
                            None => TaskStateModel { data: Map::empty(), slot: None },
                        },
                        context_id: task.context_id,
                        task_id: task.id,
                        input: true,
                        content: message.content,
                    },
                )
            } else {
                a3 == FlowActionModel::Done(
                    Err(
                        ErrorView::InvalidTaskStateTransition {
                            from: signed_decimal(task.status.state as int),
                            to: "continuation"@,
                        },
                    ),
                )
            }
        }),
{
    lemma_leading_skill(skills, skill, position);
}

/// A caller that follows a task with its message is told the events that are new since the
/// message came, and the run goes on the side with the same launch as for a caller that waits.
pub proof fn followers_see_what_is_new<H>(
    message: MessageModel,
    unused: Seq<char>,
    unused_id: Seq<char>,
    skills: Seq<SkillRegistration<H>>,
    task: TaskModel,
    before: Seq<TaskEventModel>,
    new: Seq<TaskEventModel>,
    message_id: Seq<char>,
    skill: Seq<char>,
    position: int,
    kept: Option<TaskStateModel>,
    now: Timestamp,
)
    requires
        message.context_id.len() > 0,
        message.task_id.len() > 0,
        task.context_id == message.context_id,
        task.status.state == 6,
        leads(skills, skill, position),
    ensures
        ({
            let f = FlowModel::begin(DeliveryMode::Streaming, Some(message), unused, unused_id).0;
            let f1 = f.step(skills, FlowReplyModel::Task(Some(task)), unused, message_id, now).0;
            let f2 = f1.step(skills, FlowReplyModel::Events(before), unused, message_id, now).0;
            let (f3, a3) = f2.step(skills, FlowReplyModel::Stored, unused, message_id, now);
            let (f4, a4) = f3.step(
                skills,
                FlowReplyModel::Events(before + new),
                unused,
                message_id,
                now,
            );
            let (f5, a5) = f4.step(
                skills,
                FlowReplyModel::Skill(Some(skill)),
                unused,
                message_id,
                now,
            );
            let (f6, a6) = f5.step(skills, FlowReplyModel::State(kept), unused, message_id, now);
            let (f7, a7) = f6.step(skills, FlowReplyModel::Stored, unused, message_id, now);
            let (_, a8) = f7.step(skills, FlowReplyModel::Following, unused, message_id, now);
            let working = TaskModel {
                id: task.id,
                context_id: task.context_id,
                status: StatusModel { state: 2, timestamp: Some(now), message: None },
                artifacts: task.artifacts,
            };
            &&& a3 == FlowActionModel::LoadEvents(task.id)
            &&& a4 == FlowActionModel::LoadTaskSkill(task.id)
            &&& a5 == FlowActionModel::LoadTaskState(task.id)
            &&& a6 == FlowActionModel::Store(EffectModel::SaveTask(working))
            &&& a7 == FlowActionModel::Follow(
                LaunchModel {
                    task: working,
                    skill: position,
                    state: match kept {
                        Some(s) => s,
                        None => TaskStateModel { data: Map::empty(), slot: None },
                    },
                    context_id: task.context_id,
                    task_id: task.id,
                    input: true,
                    content: message.content,
                },
            )
            &&& a8 == FlowActionModel::Done(
                Ok(OutcomeModel::Stream { initial_events: new, follow: true }),
            )
        }),
{
    lemma_leading_skill(skills, skill, position);
    assert((before + new).skip(before.len() as int) =~= new);
}

// ---------------------------------------------------------------------------
// The course of a run
// ---------------------------------------------------------------------------

/// A run asks the skill with everything it was launched with and with what the conversation
/// keeps, stores all that the answer calls for in order, and ends with the task that it saved
/// last.
pub proof fn runs_ask_store_and_end(
    launch: LaunchModel,
    session: Option<SessionState>,
    state: State,
    result: ExecutionResult,
    message_id: Seq<char>,
    now: Timestamp,
)
    ensures
        ({
            let (answering, asked) = (DriveModel::Session { launch }).step(
                DriveReply::Session(session),
                message_id,
                now,
            );
            let effects = finish_effects(
                launch.task,
                launch.context_id,
                launch.task_id,
                state@.task,
                state@.session,
                result,
                message_id,
                now,
            );
            let (storing, first) = answering.step(
                DriveReply::Answer { state, result },
                message_id,
                now,
            );
            let done = finished_task(launch.task, result, now);
            &&& asked == DriveActionModel::RunSkill {
                skill: launch.skill,
                task: launch.state,
                session: match session {
                    Some(s) => s@,
                    None => Map::empty(),
                },
                context_id: launch.context_id,
                task_id: launch.task_id,
                input: launch.input,
                content: launch.content,
            }
            &&& first == DriveActionModel::Store(effects[0])
            &&& storing == (DriveModel::Stored { task: done, rest: effects.skip(1) })
            &&& stored_from(effects, done) == effects
            &&& effects.last() == EffectModel::SaveTask(done)
            &&& (DriveModel::Stored { task: done, rest: Seq::empty() }).step(
                DriveReply::Stored,
                message_id,
                now,
            ) == (DriveModel::Ended, DriveActionModel::Done(Ok(done)))
        }),
{
    let effects = finish_effects(
        launch.task,
        launch.context_id,
        launch.task_id,
        state@.task,
        state@.session,
        result,
        message_id,
        now,
    );
    everything_is_stored(effects, finished_task(launch.task, result, now));
}

/// A step of a run stores the next effect and leaves the ones behind it.
pub proof fn runs_store_one_by_one(
    task: TaskModel,
    rest: Seq<EffectModel>,
    message_id: Seq<char>,
    now: Timestamp,
)
    requires
        rest.len() > 0,
    ensures
        (DriveModel::Stored { task, rest }).step(DriveReply::Stored, message_id, now) == (
            DriveModel::Stored { task, rest: rest.subrange(1, rest.len() as int) },
            DriveActionModel::Store(rest[0]),
        ),
{
    assert(rest.subrange(1, rest.len() as int) =~= rest.skip(1));
}

/// A flow waits for what it asked for, and for nothing else: for the task it loads, for the
/// events, for the conversation, for the skill, for the state, for what is stored, for a
/// decision, for a run, for the start of one on the side. Anything it waits for may fail, and
/// behind its end it waits for nothing.
pub open spec fn waits_for_its_answer(flow: FlowModel, asked: FlowActionModel) -> bool {
    &&& forall|x: Option<TaskModel>| #[trigger]
        flow.expects(FlowReplyModel::Task(x)) <==> asked is LoadTask
    &&& forall|x: Seq<TaskEventModel>| #[trigger]
        flow.expects(FlowReplyModel::Events(x)) <==> asked is LoadEvents
    &&& forall|related_tasks: nat, messages: Seq<MessageModel>| #[trigger]
        flow.expects(FlowReplyModel::Context { related_tasks, messages }) <==> asked is LoadContext
    &&& forall|x: Option<Seq<char>>| #[trigger]
        flow.expects(FlowReplyModel::Skill(x)) <==> asked is LoadTaskSkill
    &&& forall|x: Option<TaskStateModel>| #[trigger]
        flow.expects(FlowReplyModel::State(x)) <==> asked is LoadTaskState
    &&& flow.expects(FlowReplyModel::Stored) <==> asked is Store
    &&& forall|x: DecisionModel| #[trigger]
        flow.expects(FlowReplyModel::Decision(x)) <==> asked is Negotiate
    &&& forall|x: TaskModel| #[trigger] flow.expects(FlowReplyModel::Ran(x)) <==> asked is Run
    &&& flow.expects(FlowReplyModel::Following) <==> asked is Follow
    &&& forall|e: ErrorView| #[trigger]
        flow.expects(FlowReplyModel::Failed(e)) <==> !(asked is Done)
}

/// From its beginning on, whatever comes that it waits for, a flow waits for what it asked for.
pub proof fn flows_wait_for_what_they_asked_for<H>(
    mode: DeliveryMode,
    message: Option<MessageModel>,
    flow: FlowModel,
    skills: Seq<SkillRegistration<H>>,
    reply: FlowReplyModel,
    fresh: Seq<char>,
    message_id: Seq<char>,
    now: Timestamp,
)
    ensures
        ({
            let (begun, asked) = FlowModel::begin(mode, message, fresh, message_id);
            waits_for_its_answer(begun, asked)
        }),
        flow.expects(reply) ==> {
            let (after, asked) = flow.step(skills, reply, fresh, message_id, now);
            waits_for_its_answer(after, asked)
        },
{
}

/// What fails ends a flow with its error.
pub proof fn failures_end_the_flow<H>(
    flow: FlowModel,
    skills: Seq<SkillRegistration<H>>,
    e: ErrorView,
    fresh: Seq<char>,
    message_id: Seq<char>,
    now: Timestamp,
)
    ensures
        flow.step(skills, FlowReplyModel::Failed(e), fresh, message_id, now).1
            == FlowActionModel::Done(Err(e)),
{
}

/// A run waits for the session it loads, for the answer of the skill it asks, and for what it
/// stores; anything may fail, and behind its end it waits for nothing.
pub proof fn runs_wait_for_what_they_asked_for(
    run: DriveModel,
    reply: DriveReply,
    session: Option<SessionState>,
    state: State,
    result: ExecutionResult,
    e: AgentError,
    message_id: Seq<char>,
    now: Timestamp,
)
    requires
        run.expects(reply),
    ensures
        ({
            let (after, asked) = run.step(reply, message_id, now);
            &&& !after.expects(DriveReply::Session(session))
            &&& after.expects(DriveReply::Answer { state, result }) <==> asked is RunSkill
            &&& after.expects(DriveReply::Stored) <==> asked is Store
            &&& after.expects(DriveReply::Failed(e)) <==> !(asked is Done)
        }),
        run is Session <==> run.expects(DriveReply::Session(session)),
        run.step(DriveReply::Failed(e), message_id, now).1 == DriveActionModel::Done(Err(e@)),
{
}

/// A skill is known by its identifier: either there is none with it, or there is a first one.
pub proof fn skills_are_known_by_their_identifier<H>(
    skills: Seq<SkillRegistration<H>>,
    id: Seq<char>,
    i: int,
)
    ensures
        no_skill(skills, id) && 0 <= i < skills.len() ==> skills[i].metadata.id@ != id,
        (forall|j: int| 0 <= j < skills.len() ==> (#[trigger] skills[j]).metadata.id@ != id)
            ==> no_skill(skills, id),
        first_skill(skills, id, i) ==> 0 <= i < skills.len() && skills[i].metadata.id@ == id,
        first_skill(skills, id, i) ==> forall|j: int|
            0 <= j < i ==> (#[trigger] skills[j]).metadata.id@ != id,
        leads(skills, id, i) ==> first_skill(skills, id, i),
{
}

/// A task that does not wait for the user is refused by the number of its state.
pub proof fn tasks_that_do_not_wait_are_refused<R: ExecutorRuntime>(task: Task)
    ensures
        RequestExecutor::<R>::cannot_go_on(task) == (ErrorView::InvalidTaskStateTransition {
            from: signed_decimal(task.status.state as int),
            to: "continuation"@,
        }),
{
}

/// A task that goes on is at work, with nothing else changed.
pub proof fn tasks_go_on_working<R: ExecutorRuntime>(task: TaskModel, now: Timestamp)
    ensures
        RequestExecutor::<R>::going_on(task, now) == (TaskModel {
            id: task.id,
            context_id: task.context_id,
            status: StatusModel { state: 2, timestamp: Some(now), message: None },
            artifacts: task.artifacts,
        }),
{
}

// ---------------------------------------------------------------------------
// Calls
// ---------------------------------------------------------------------------

/// The state after an answer is named as the answer is.
pub proof fn states_are_named_as_the_answer(
    answer: OnRequestResult,
    state: A2aTaskState,
    reply: OnInputResult,
    next: A2aTaskState,
)
    requires
        call_ensures(on_request_to_state, (&answer,), state),
        call_ensures(on_input_to_state, (&reply,), next),
    ensures
        answer is Completed <==> state is Completed,
        answer is InputRequired <==> state is InputRequired,
        answer is Failed <==> state is Failed,
        answer is Rejected <==> state is Rejected,
        reply is Completed <==> next is Completed,
        reply is InputRequired <==> next is InputRequired,
        reply is Failed <==> next is Failed,
{
}

/// A run that is finished leaves a task in the state of the answer, of the same name and
/// conversation: completed, waiting for input, failed or rejected, as the skill said.
pub proof fn finished_tasks_are_as_the_skill_said(
    task: Task,
    identifiers: TaskIdentifiers,
    state: State,
    result: ExecutionResult,
    message_id: String,
    now: Timestamp,
    r: FinishedRun,
)
    requires
        call_ensures(finish_run, (task, &identifiers, state, &result, message_id, now), r),
    ensures
        r.task.id@ == task.id@,
        r.task.context_id@ == task.context_id@,
        r.task.status.timestamp == Some(now),
        r.task.status.state == match result {
            ExecutionResult::Initial(OnRequestResult::Completed { .. }) => 3,
            ExecutionResult::Initial(OnRequestResult::InputRequired { .. }) => 6,
            ExecutionResult::Initial(OnRequestResult::Failed { .. }) => 4,
            ExecutionResult::Initial(OnRequestResult::Rejected { .. }) => 7i32,
            ExecutionResult::Input(OnInputResult::Completed { .. }) => 3,
            ExecutionResult::Input(OnInputResult::InputRequired { .. }) => 6,
            ExecutionResult::Input(OnInputResult::Failed { .. }) => 4,
        },
        r.task.artifacts@.len() == match result {
            ExecutionResult::Initial(OnRequestResult::Completed { artifacts, .. }) =>
                artifacts@.len(),
            ExecutionResult::Input(OnInputResult::Completed { artifacts, .. }) => artifacts@.len(),
            _ => task.artifacts@.len(),
        },
{
    assert(r.task@.status.state == r.task.status.state);
    assert(r.task@.status.timestamp == r.task.status.timestamp);
    assert(r.task@.artifacts.len() == r.task.artifacts@.len());
    assert(task@.artifacts.len() == task.artifacts@.len());
}

/// A message goes to the task it names, or to the conversation it names, or opens one; a
/// message that names a task without its conversation goes nowhere.
pub proof fn messages_go_where_they_say(
    params: SendMessageRequest,
    message: Message,
    r: Result<MessageRoute, AgentError>,
)
    requires
        params.message == Some(message),
        call_ensures(MessageRoute::from_params, (&params,), r),
    ensures
        message.context_id@.len() > 0 && message.task_id@.len() > 0 ==> r == Ok::<
            MessageRoute,
            AgentError,
        >(
            MessageRoute::ExistingTask {
                context_id: message.context_id,
                task_id: message.task_id,
            },
        ),
        message.context_id@.len() > 0 && message.task_id@.len() == 0 ==> r == Ok::<
            MessageRoute,
            AgentError,
        >(MessageRoute::ExistingContext { context_id: message.context_id }),
        message.context_id@.len() == 0 && message.task_id@.len() == 0 ==> r == Ok::<
            MessageRoute,
            AgentError,
        >(MessageRoute::NewContext),
        message.context_id@.len() == 0 && message.task_id@.len() > 0 ==> r is Err,
{
}

/// New events are those behind the ones that were there before.
pub proof fn new_events_come_behind_the_old(
    events: Vec<TaskEvent>,
    old_events: Seq<TaskEvent>,
    new_events: Seq<TaskEvent>,
    count: usize,
    r: Vec<TaskEvent>,
)
    requires
        events@ == old_events + new_events,
        count == old_events.len(),
        call_ensures(collect_new_events, (events, count), r),
    ensures
        r@ == new_events,
{
    assert((old_events + new_events).skip(count as int) =~= new_events);
}

/// Who waits for an answer is given a task or a message, and who follows is given a stream or a
/// message; neither is given what the other asked for.
pub proof fn clients_are_given_what_they_asked_for(
    outcome: DeliveryOutcome,
    waited: Result<SendMessageResponse, AgentError>,
    followed: Result<PreparedSendMessage, AgentError>,
)
    requires
        call_ensures(blocking_response, (outcome,), waited),
        call_ensures(streaming_response, (outcome,), followed),
    ensures
        outcome matches DeliveryOutcome::Task(t) ==> waited == Ok::<
            SendMessageResponse,
            AgentError,
        >(SendMessageResponse::Task(t)) && followed is Err,
        outcome matches DeliveryOutcome::Stream(s) ==> followed == Ok::<
            PreparedSendMessage,
            AgentError,
        >(PreparedSendMessage::Task(s)) && waited is Err,
        outcome matches DeliveryOutcome::Message(m) ==> waited == Ok::<
            SendMessageResponse,
            AgentError,
        >(SendMessageResponse::Message(m)) && followed == Ok::<PreparedSendMessage, AgentError>(
            PreparedSendMessage::Message(m),
        ),
{
}

/// A task that is asked for is told as it is stored, with what its events tell; one that is
/// followed is followed on from its events unless it has ended; one that is not stored is not
/// found by either, and canceling is refused.
pub proof fn tasks_are_told_as_stored<R: ExecutorRuntime>(
    stored: Option<Task>,
    task_id: &str,
    events: Vec<TaskEvent>,
    got: Result<TaskView, AgentError>,
    followed: Result<TaskStream, AgentError>,
    canceled: Result<TaskView, AgentError>,
)
    requires
        call_ensures(RequestExecutor::<R>::handle_get_task, (stored, task_id, events), got),
        call_ensures(
            RequestExecutor::<R>::handle_task_resubscribe,
            (stored, task_id, events),
            followed,
        ),
        call_ensures(RequestExecutor::<R>::handle_cancel_task, (task_id,), canceled),
    ensures
        stored is None ==> got is Err && got->Err_0@ == (ErrorView::TaskNotFound {
            task_id: task_id@,
        }),
        stored is None ==> followed is Err && followed->Err_0@ == (ErrorView::TaskNotFound {
            task_id: task_id@,
        }),
        stored matches Some(task) ==> got is Ok && {
            let v = got->Ok_0;
            &&& v.id == task.id
            &&& v.context_id == task.context_id
            &&& v.status == Some(task.status)
            &&& v.artifacts == task.artifacts
            &&& v.history@ == history(events@)
        },
        stored matches Some(task) ==> followed is Ok && followed->Ok_0.initial_events == events
            && (followed->Ok_0.follow <==> !(task.status.state == 3 || task.status.state == 4
            || task.status.state == 5 || task.status.state == 7)),
        canceled is Err && canceled->Err_0@ is NotImplemented,
{
}

/// A decision is told in a message of the agent to the conversation, and a task begins exactly
/// where one is to be started, with the skill that was chosen.
pub proof fn decisions_are_told_and_followed<R: ExecutorRuntime>(
    decision: NegotiationDecision,
    context_id: &str,
    message_id: String,
    mode: DeliveryMode,
    r: NegotiationDelivery,
)
    requires
        call_ensures(
            RequestExecutor::<R>::deliver_negotiation_decision,
            (decision, context_id, message_id, mode),
            r,
        ),
    ensures
        r.message@.message_id == message_id@,
        r.message@.context_id == context_id@,
        r.message@.task_id.len() == 0,
        r.message@.role == Role::Assistant,
        match decision {
            NegotiationDecision::StartTask { skill_id, reasoning } => r.next == (
            NegotiationNext::Start { skill_id, mode }) && r.message@.content == seq![
                PartModel::Text(reasoning@),
            ],
            NegotiationDecision::AskClarification { message } => r.next == NegotiationNext::Reply
                && r.message@.content == seq![PartModel::Text(message@)],
            NegotiationDecision::Reject { reason } => r.next == NegotiationNext::Reply
                && r.message@.content == seq![PartModel::Text(reason@)],
        },
{
}

} // verus!
