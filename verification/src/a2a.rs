//! Tasks, messages and events of the agent-to-agent protocol.

use crate::json::{Json, JsonMap};
use crate::models::{Content, PartModel, Role};
use vstd::prelude::*;

verus! {

/// The state of a task.
#[derive(Debug, Clone, Copy, PartialEq, Eq, Structural)]
pub enum TaskState {
    Unspecified,
    Submitted,
    Working,
    Completed,
    Failed,
    Canceled,
    InputRequired,
    Rejected,
    AuthRequired,
}

/// A point in time: seconds since the epoch, and nanoseconds.
#[derive(Debug, Clone, Copy, PartialEq, Eq, Structural)]
pub struct Timestamp {
    pub seconds: i64,
    pub nanos: i32,
}

/// A message. Identifiers that are not there are empty.
#[derive(Debug)]
pub struct Message {
    pub message_id: String,
    pub context_id: String,
    pub task_id: String,
    pub role: Role,
    pub content: Content,
}

/// Something that a task produced.
#[derive(Debug)]
pub struct Artifact {
    pub artifact_id: String,
    pub name: String,
    pub description: String,
    pub content: Content,
    pub metadata: Option<JsonMap>,
}

/// The status of a task. The state is the number that the protocol gives it.
#[derive(Debug)]
pub struct TaskStatus {
    pub state: i32,
    pub timestamp: Option<Timestamp>,
    pub message: Option<Message>,
}

/// A task as it is stored.
#[derive(Debug)]
pub struct Task {
    pub id: String,
    pub context_id: String,
    pub status: TaskStatus,
    pub artifacts: Vec<Artifact>,
}

/// A task as it is told to a client: with its history.
#[derive(Debug)]
pub struct TaskView {
    pub id: String,
    pub context_id: String,
    pub status: Option<TaskStatus>,
    pub history: Vec<Message>,
    pub artifacts: Vec<Artifact>,
}

/// The status of a task has changed.
#[derive(Debug)]
pub struct TaskStatusUpdate {
    pub task_id: String,
    pub context_id: String,
    pub status: Option<TaskStatus>,
    pub is_final: bool,
}

/// A task has produced something.
#[derive(Debug)]
pub struct TaskArtifactUpdate {
    pub task_id: String,
    pub context_id: String,
    pub artifact: Option<Artifact>,
    pub append: bool,
    pub last_chunk: bool,
}

/// Something that happened to a task.
#[derive(Debug)]
pub enum TaskEvent {
    StatusUpdate(TaskStatusUpdate),
    ArtifactUpdate(TaskArtifactUpdate),
    Message(Message),
}

// ---------------------------------------------------------------------------
// Models
// ---------------------------------------------------------------------------

/// The model of a message.
pub struct MessageModel {
    pub message_id: Seq<char>,
    pub context_id: Seq<char>,
    pub task_id: Seq<char>,
    pub role: Role,
    pub content: Seq<PartModel>,
}

/// The model of an artifact.
pub struct ArtifactModel {
    pub artifact_id: Seq<char>,
    pub name: Seq<char>,
    pub description: Seq<char>,
    pub content: Seq<PartModel>,
    pub metadata: Option<Map<Seq<char>, Json>>,
}

/// The model of a status.
pub struct StatusModel {
    pub state: i32,
    pub timestamp: Option<Timestamp>,
    pub message: Option<MessageModel>,
}

/// The model of a stored task.
pub struct TaskModel {
    pub id: Seq<char>,
    pub context_id: Seq<char>,
    pub status: StatusModel,
    pub artifacts: Seq<ArtifactModel>,
}

/// The model of an event.
pub enum TaskEventModel {
    StatusUpdate {
        task_id: Seq<char>,
        context_id: Seq<char>,
        status: Option<StatusModel>,
        is_final: bool,
    },
    ArtifactUpdate {
        task_id: Seq<char>,
        context_id: Seq<char>,
        artifact: Option<ArtifactModel>,
        append: bool,
        last_chunk: bool,
    },
    Message(MessageModel),
}

impl View for Message {
    type V = MessageModel;

    open spec fn view(&self) -> MessageModel {
        MessageModel {
            message_id: self.message_id@,
            context_id: self.context_id@,
            task_id: self.task_id@,
            role: self.role,
            content: self.content@,
        }
    }
}

impl View for Artifact {
    type V = ArtifactModel;

    open spec fn view(&self) -> ArtifactModel {
        ArtifactModel {
            artifact_id: self.artifact_id@,
            name: self.name@,
            description: self.description@,
            content: self.content@,
            metadata: match self.metadata {
                Some(m) => Some(m@),
                None => None,
            },
        }
    }
}

/// The model of an optional message.
pub open spec fn optional_message(m: Option<Message>) -> Option<MessageModel> {
    match m {
        Some(x) => Some(x@),
        None => None,
    }
}

impl View for TaskStatus {
    type V = StatusModel;

    open spec fn view(&self) -> StatusModel {
        StatusModel {
            state: self.state,
            timestamp: self.timestamp,
            message: optional_message(self.message),
        }
    }
}

/// The models of a row of artifacts.
pub open spec fn artifact_models(v: Seq<Artifact>) -> Seq<ArtifactModel> {
    Seq::new(v.len(), |i: int| v[i]@)
}

/// The models of a row of messages.
pub open spec fn message_models(v: Seq<Message>) -> Seq<MessageModel> {
    Seq::new(v.len(), |i: int| v[i]@)
}

/// The models of a row of events.
pub open spec fn task_event_models(v: Seq<TaskEvent>) -> Seq<TaskEventModel> {
    Seq::new(v.len(), |i: int| v[i]@)
}

impl View for Task {
    type V = TaskModel;

    open spec fn view(&self) -> TaskModel {
        TaskModel {
            id: self.id@,
            context_id: self.context_id@,
            status: self.status@,
            artifacts: artifact_models(self.artifacts@),
        }
    }
}

impl View for TaskEvent {
    type V = TaskEventModel;

    open spec fn view(&self) -> TaskEventModel {
        match *self {
            TaskEvent::StatusUpdate(u) => TaskEventModel::StatusUpdate {
                task_id: u.task_id@,
                context_id: u.context_id@,
                status: match u.status {
                    Some(s) => Some(s@),
                    None => None,
                },
                is_final: u.is_final,
            },
            TaskEvent::ArtifactUpdate(u) => TaskEventModel::ArtifactUpdate {
                task_id: u.task_id@,
                context_id: u.context_id@,
                artifact: match u.artifact {
                    Some(a) => Some(a@),
                    None => None,
                },
                append: u.append,
                last_chunk: u.last_chunk,
            },
            TaskEvent::Message(m) => TaskEventModel::Message(m@),
        }
    }
}

// ---------------------------------------------------------------------------
// States
// ---------------------------------------------------------------------------

impl TaskState {
    /// The number of the state in the protocol.
    pub open spec fn code(self) -> i32 {
        match self {
            TaskState::Unspecified => 0,
            TaskState::Submitted => 1,
            TaskState::Working => 2,
            TaskState::Completed => 3,
            TaskState::Failed => 4,
            TaskState::Canceled => 5,
            TaskState::InputRequired => 6,
            TaskState::Rejected => 7,
            TaskState::AuthRequired => 8,
        }
    }

    /// The state with this number.
    pub open spec fn of_code(code: i32) -> Option<TaskState> {
        if code == 0 {
            Some(TaskState::Unspecified)
        } else if code == 1 {
            Some(TaskState::Submitted)
        } else if code == 2 {
            Some(TaskState::Working)
        } else if code == 3 {
            Some(TaskState::Completed)
        } else if code == 4 {
            Some(TaskState::Failed)
        } else if code == 5 {
            Some(TaskState::Canceled)
        } else if code == 6 {
            Some(TaskState::InputRequired)
        } else if code == 7 {
            Some(TaskState::Rejected)
        } else if code == 8 {
            Some(TaskState::AuthRequired)
        } else {
            None
        }
    }

    /// The name of the state.
    pub open spec fn name(self) -> Seq<char> {
        match self {
            TaskState::Unspecified => "Unspecified"@,
            TaskState::Submitted => "Submitted"@,
            TaskState::Working => "Working"@,
            TaskState::Completed => "Completed"@,
            TaskState::Failed => "Failed"@,
            TaskState::Canceled => "Canceled"@,
            TaskState::InputRequired => "InputRequired"@,
            TaskState::Rejected => "Rejected"@,
            TaskState::AuthRequired => "AuthRequired"@,
        }
    }

    /// The number of the state in the protocol.
    pub fn to_code(&self) -> (r: i32)
        ensures
            r == self.code(),
    {
        match self {
            TaskState::Unspecified => 0,
            TaskState::Submitted => 1,
            TaskState::Working => 2,
            TaskState::Completed => 3,
            TaskState::Failed => 4,
            TaskState::Canceled => 5,
            TaskState::InputRequired => 6,
            TaskState::Rejected => 7,
            TaskState::AuthRequired => 8,
        }
    }

    /// The state with this number.
    pub fn from_code(code: i32) -> (r: Option<TaskState>)
        ensures
            r == TaskState::of_code(code),
    {
        match code {
            0 => Some(TaskState::Unspecified),
            1 => Some(TaskState::Submitted),
            2 => Some(TaskState::Working),
            3 => Some(TaskState::Completed),
            4 => Some(TaskState::Failed),
            5 => Some(TaskState::Canceled),
            6 => Some(TaskState::InputRequired),
            7 => Some(TaskState::Rejected),
            8 => Some(TaskState::AuthRequired),
            _ => None,
        }
    }

    /// The name of the state.
    pub fn to_name(&self) -> (r: String)
        ensures
            r@ == self.name(),
    {
        match self {
            TaskState::Unspecified => "Unspecified".to_owned(),
            TaskState::Submitted => "Submitted".to_owned(),
            TaskState::Working => "Working".to_owned(),
            TaskState::Completed => "Completed".to_owned(),
            TaskState::Failed => "Failed".to_owned(),
            TaskState::Canceled => "Canceled".to_owned(),
            TaskState::InputRequired => "InputRequired".to_owned(),
            TaskState::Rejected => "Rejected".to_owned(),
            TaskState::AuthRequired => "AuthRequired".to_owned(),
        }
    }
}

/// The number of a state stands for that state.
pub proof fn codes_stand_for_states(s: TaskState)
    ensures
        TaskState::of_code(s.code()) == Some(s),
{
}

impl Clone for Artifact {
    fn clone(&self) -> (r: Artifact)
        ensures
            r@ == self@,
    {
        Artifact {
            artifact_id: self.artifact_id.clone(),
            name: self.name.clone(),
            description: self.description.clone(),
            content: self.content.clone(),
            metadata: match &self.metadata {
                Some(m) => Some(m.clone()),
                None => None,
            },
        }
    }
}

impl Clone for Message {
    fn clone(&self) -> (r: Message)
        ensures
            r@ == self@,
    {
        Message {
            message_id: self.message_id.clone(),
            context_id: self.context_id.clone(),
            task_id: self.task_id.clone(),
            role: self.role,
            content: self.content.clone(),
        }
    }
}

impl Clone for TaskStatus {
    fn clone(&self) -> (r: TaskStatus)
        ensures
            r@ == self@,
    {
        TaskStatus {
            state: self.state,
            timestamp: self.timestamp,
            message: match &self.message {
                Some(m) => Some(m.clone()),
                None => None,
            },
        }
    }
}

/// The model of a task as it is told to a client.
pub struct TaskViewModel {
    pub id: Seq<char>,
    pub context_id: Seq<char>,
    pub status: Option<StatusModel>,
    pub history: Seq<MessageModel>,
    pub artifacts: Seq<ArtifactModel>,
}

impl View for TaskView {
    type V = TaskViewModel;

    open spec fn view(&self) -> TaskViewModel {
        TaskViewModel {
            id: self.id@,
            context_id: self.context_id@,
            status: match self.status {
                Some(s) => Some(s@),
                None => None,
            },
            history: message_models(self.history@),
            artifacts: artifact_models(self.artifacts@),
        }
    }
}

impl Clone for TaskView {
    fn clone(&self) -> (r: TaskView)
        ensures
            r@ == self@,
    {
        let mut history: Vec<Message> = Vec::new();
        let mut i: usize = 0;
        while i < self.history.len()
            invariant
                i <= self.history.len(),
                history.len() == i,
                forall|j: int| 0 <= j < i ==> (#[trigger] history@[j])@ == self.history@[j]@,
            decreases self.history.len() - i,
        {
            history.push(self.history[i].clone());
            i = i + 1;
        }
        proof {
            assert(message_models(history@) =~= message_models(self.history@));
        }
        TaskView {
            id: self.id.clone(),
            context_id: self.context_id.clone(),
            status: match &self.status {
                Some(s) => Some(s.clone()),
                None => None,
            },
            history,
            artifacts: copy_artifacts(&self.artifacts),
        }
    }
}

/// Copies of the artifacts.
pub fn copy_artifacts(v: &Vec<Artifact>) -> (r: Vec<Artifact>)
    ensures
        artifact_models(r@) == artifact_models(v@),
{
    let mut out: Vec<Artifact> = Vec::new();
    let mut i: usize = 0;
    while i < v.len()
        invariant
            i <= v.len(),
            out.len() == i,
            forall|j: int| 0 <= j < i ==> (#[trigger] out@[j])@ == v@[j]@,
        decreases v.len() - i,
    {
        out.push(v[i].clone());
        i = i + 1;
    }
    proof {
        assert(artifact_models(out@) =~= artifact_models(v@));
    }
    out
}

// ---------------------------------------------------------------------------
// History
// ---------------------------------------------------------------------------

/// The message that an event brings into the history of its task.
pub open spec fn event_message(e: TaskEvent) -> Option<Message> {
    match e {
        TaskEvent::Message(m) => Some(m),
        TaskEvent::StatusUpdate(u) => match u.status {
            Some(s) => s.message,
            None => None,
        },
        TaskEvent::ArtifactUpdate(_) => None,
    }
}

/// The history of a task: the messages of its events, in order.
pub open spec fn history(events: Seq<TaskEvent>) -> Seq<Message>
    decreases events.len(),
{
    if events.len() == 0 {
        Seq::empty()
    } else {
        match event_message(events.last()) {
            Some(m) => history(events.drop_last()).push(m),
            None => history(events.drop_last()),
        }
    }
}

/// `view` tells `task` with the history of `events`.
pub open spec fn tells(view: TaskView, task: Task, events: Seq<TaskEvent>) -> bool {
    &&& view.id == task.id
    &&& view.context_id == task.context_id
    &&& view.status == Some(task.status)
    &&& view.artifacts == task.artifacts
    &&& view.history@ == history(events)
}

/// The messages of the events, in order.
pub fn history_of(events: Vec<TaskEvent>) -> (r: Vec<Message>)
    ensures
        r@ == history(events@),
{
    let mut out: Vec<Message> = Vec::new();
    let ghost all = events@;
    for event in it: events
        invariant
            out@ == history(it.seq().take(it.index())),
            it.seq() == all,
    {
        proof {
            let i = it.index();
            assert(all.take(i + 1).drop_last() =~= all.take(i));
            assert(all.take(i + 1).last() == event);
        }
        match event {
            TaskEvent::Message(m) => {
                out.push(m);
            },
            TaskEvent::StatusUpdate(u) => {
                match u.status {
                    Some(s) => {
                        match s.message {
                            Some(m) => {
                                out.push(m);
                            },
                            None => {},
                        }
                    },
                    None => {},
                }
            },
            TaskEvent::ArtifactUpdate(_) => {},
        }
    }
    proof {
        assert(all.take(all.len() as int) =~= all);
    }
    out
}

/// The task with the history of its events.
pub fn task_with_history(task: Task, events: Vec<TaskEvent>) -> (r: TaskView)
    ensures
        tells(r, task, events@),
{
    let history = history_of(events);
    TaskView {
        id: task.id,
        context_id: task.context_id,
        status: Some(task.status),
        history,
        artifacts: task.artifacts,
    }
}

} // verus!
