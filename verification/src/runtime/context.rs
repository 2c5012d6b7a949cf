//! What a skill is handed while it works on a request.

use crate::a2a::{
    Artifact, Message, MessageModel, StatusModel, TaskArtifactUpdate, TaskEvent,
    TaskEventModel, TaskState as A2aTaskState, TaskStatus, TaskStatusUpdate, Timestamp,
};
use crate::agent::skill::SkillSlot;
use crate::errors::{AgentError, ErrorView};
use crate::json::{Json, JsonMap, JsonValue};
use crate::models::{Content, Role};
use crate::tools::optional_json;
use vstd::prelude::*;

verus! {

/// On whose behalf an operation runs: an application and one of its users.
///
/// Whatever is stored for one pair of names stays out of reach of every other pair.
#[derive(Debug)]
pub struct AuthContext {
    pub app_name: String,
    pub user_name: String,
}

impl View for AuthContext {
    type V = (Seq<char>, Seq<char>);

    open spec fn view(&self) -> (Seq<char>, Seq<char>) {
        (self.app_name@, self.user_name@)
    }
}

impl Clone for AuthContext {
    fn clone(&self) -> (r: AuthContext)
        ensures
            r@ == self@,
    {
        AuthContext { app_name: self.app_name.clone(), user_name: self.user_name.clone() }
    }
}

// ---------------------------------------------------------------------------
// Values by key
// ---------------------------------------------------------------------------

/// Puts a value at a key, where turning it into JSON succeeded.
fn save_into(data: &mut JsonMap, key: &str, value: Result<JsonValue, String>) -> (r: Result<
    (),
    AgentError,
>)
    ensures
        match value {
            Ok(v) => r is Ok && final(data)@ == old(data)@.insert(key@, v@),
            Err(m) => r matches Err(e) && e@ == ErrorView::ContextError(m@) && final(data)@ == old(data)@,
        },
{
    match value {
        Ok(v) => {
            data.insert(key.to_owned(), v);
            Ok(())
        },
        Err(m) => Err(AgentError::ContextError(m)),
    }
}

/// What decoding a stored value gave.
pub open spec fn decoded<T, F: FnOnce(JsonValue) -> Result<T, String>>(
    decode: F,
    stored: Option<Json>,
    slot: bool,
    r: Result<Option<T>, AgentError>,
) -> bool {
    match stored {
        None => r == Ok::<Option<T>, AgentError>(None),
        Some(v) => exists|value: JsonValue, d: Result<T, String>|
            value@ == v && #[trigger] call_ensures(decode, (value,), d) && match (d, r) {
                (Ok(t), Ok(Some(x))) => x == t,
                (Err(m), Err(e)) => e@ == if slot {
                    ErrorView::SkillSlot(m@)
                } else {
                    ErrorView::ContextError(m@)
                },
                _ => false,
            },
    }
}

/// The value at a key of a map.
pub open spec fn value_at(m: Map<Seq<char>, Json>, key: Seq<char>) -> Option<Json> {
    if m.contains_key(key) {
        Some(m[key])
    } else {
        None
    }
}

fn decode_value<T, F: FnOnce(JsonValue) -> Result<T, String>>(
    stored: Option<&JsonValue>,
    decode: F,
    slot: bool,
) -> (r: Result<Option<T>, AgentError>)
    requires
        forall|v: JsonValue| call_requires(decode, (v,)),
    ensures
        decoded(
            decode,
            match stored {
                Some(v) => Some(v@),
                None => None,
            },
            slot,
            r,
        ),
{
    match stored {
        None => Ok(None),
        Some(v) => {
            let value = v.clone();
            match decode(value) {
                Ok(t) => Ok(Some(t)),
                Err(m) => Err(
                    if slot {
                        AgentError::SkillSlot(m)
                    } else {
                        AgentError::ContextError(m)
                    },
                ),
            }
        },
    }
}

/// What lives as long as a conversation: values by key.
#[derive(Debug)]
pub struct SessionState {
    pub data: JsonMap,
}

impl View for SessionState {
    type V = Map<Seq<char>, Json>;

    open spec fn view(&self) -> Map<Seq<char>, Json> {
        self.data@
    }
}

impl Default for SessionState {
    fn default() -> (r: SessionState)
        ensures
            r@ == Map::<Seq<char>, Json>::empty(),
    {
        SessionState { data: JsonMap::new() }
    }
}

impl SessionState {
    /// No values.
    #[must_use]
    pub fn new() -> (r: SessionState)
        ensures
            r@ == Map::<Seq<char>, Json>::empty(),
    {
        SessionState { data: JsonMap::new() }
    }

    /// Puts a value at a key. `value` is what turning the value into JSON gave.
    pub fn save(&mut self, key: &str, value: Result<JsonValue, String>) -> (r: Result<
        (),
        AgentError,
    >)
        ensures
            match value {
                Ok(v) => r is Ok && final(self)@ == old(self)@.insert(key@, v@),
                Err(m) => r matches Err(e) && e@ == ErrorView::ContextError(m@) && final(self)@
                    == old(self)@,
            },
    {
        save_into(&mut self.data, key, value)
    }

    /// The value at a key, decoded.
    pub fn load<T, F: FnOnce(JsonValue) -> Result<T, String>>(&self, key: &str, decode: F) -> (r:
        Result<Option<T>, AgentError>)
        requires
            forall|v: JsonValue| call_requires(decode, (v,)),
        ensures
            decoded(decode, value_at(self@, key@), false, r),
    {
        decode_value(self.data.get(key), decode, false)
    }

    /// Takes out the value at a key.
    pub fn remove(&mut self, key: &str) -> (r: Option<JsonValue>)
        ensures
            final(self)@ == old(self)@.remove(key@),
            optional_json(r) == value_at(old(self)@, key@),
    {
        self.data.remove(key)
    }

    /// Tells whether there is a value at a key.
    #[must_use]
    pub fn contains(&self, key: &str) -> (r: bool)
        ensures
            r == self@.contains_key(key@),
    {
        self.data.contains_key(key)
    }

    /// The number of values.
    #[must_use]
    pub fn len(&self) -> (r: usize)
        ensures
            r == self@.dom().len(),
            self@.dom().finite(),
    {
        self.data.len()
    }

    /// Tells whether there is no value.
    #[must_use]
    pub fn is_empty(&self) -> (r: bool)
        ensures
            r == (self@ == Map::<Seq<char>, Json>::empty()),
    {
        self.data.is_empty()
    }
}

/// What lives as long as a task: values by key, and what is kept while the user is asked.
#[derive(Debug)]
pub struct TaskState {
    pub data: JsonMap,
    pub slot: Option<JsonValue>,
}

/// The model of the state of a task.
pub struct TaskStateModel {
    pub data: Map<Seq<char>, Json>,
    pub slot: Option<Json>,
}

impl View for TaskState {
    type V = TaskStateModel;

    open spec fn view(&self) -> TaskStateModel {
        TaskStateModel { data: self.data@, slot: optional_json(self.slot) }
    }
}

impl TaskStateModel {
    /// No values, and nothing kept.
    pub open spec fn empty() -> TaskStateModel {
        TaskStateModel { data: Map::empty(), slot: None }
    }
}

impl Default for TaskState {
    fn default() -> (r: TaskState)
        ensures
            r@ == TaskStateModel::empty(),
    {
        TaskState { data: JsonMap::new(), slot: None }
    }
}

/// The slot that a kept value is.
pub open spec fn is_slot(r: Option<SkillSlot>, slot: Option<Json>) -> bool {
    match (r, slot) {
        (Some(s), Some(v)) => s.value@ == v,
        (None, None) => true,
        _ => false,
    }
}

impl TaskState {
    /// No values, and nothing kept.
    #[must_use]
    pub fn new() -> (r: TaskState)
        ensures
            r@ == TaskStateModel::empty(),
    {
        TaskState { data: JsonMap::new(), slot: None }
    }

    /// Puts a value at a key. `value` is what turning the value into JSON gave.
    pub fn save(&mut self, key: &str, value: Result<JsonValue, String>) -> (r: Result<
        (),
        AgentError,
    >)
        ensures
            final(self)@.slot == old(self)@.slot,
            match value {
                Ok(v) => r is Ok && final(self)@.data == old(self)@.data.insert(key@, v@),
                Err(m) => r matches Err(e) && e@ == ErrorView::ContextError(m@) && final(self)@.data == old(self)@.data,
            },
    {
        save_into(&mut self.data, key, value)
    }

    /// The value at a key, decoded.
    pub fn load<T, F: FnOnce(JsonValue) -> Result<T, String>>(&self, key: &str, decode: F) -> (r:
        Result<Option<T>, AgentError>)
        requires
            forall|v: JsonValue| call_requires(decode, (v,)),
        ensures
            decoded(decode, value_at(self@.data, key@), false, r),
    {
        decode_value(self.data.get(key), decode, false)
    }

    /// Takes out the value at a key.
    pub fn remove(&mut self, key: &str) -> (r: Option<JsonValue>)
        ensures
            final(self)@ == (TaskStateModel { data: old(self)@.data.remove(key@), ..old(self)@ }),
            optional_json(r) == value_at(old(self)@.data, key@),
    {
        self.data.remove(key)
    }

    /// What is kept while the user is asked.
    #[must_use]
    pub fn current_slot(&self) -> (r: Option<SkillSlot>)
        ensures
            is_slot(r, self@.slot),
    {
        match &self.slot {
            Some(v) => Some(SkillSlot::new(v.clone())),
            None => None,
        }
    }

    /// What is kept while the user is asked, decoded.
    pub fn slot<T, F: FnOnce(JsonValue) -> Result<T, String>>(&self, decode: F) -> (r: Result<
        Option<T>,
        AgentError,
    >)
        requires
            forall|v: JsonValue| call_requires(decode, (v,)),
        ensures
            decoded(decode, self@.slot, true, r),
    {
        let stored = match &self.slot {
            Some(v) => Some(v),
            None => None,
        };
        decode_value(stored, decode, true)
    }

    /// Keeps a value while the user is asked. `slot` is what turning it into JSON gave.
    pub fn set_slot(&mut self, slot: Result<JsonValue, String>) -> (r: Result<(), AgentError>)
        ensures
            final(self)@.data == old(self)@.data,
            match slot {
                Ok(v) => r is Ok && final(self)@.slot == Some(v@),
                Err(m) => r matches Err(e) && e@ == ErrorView::SkillSlot(m@) && final(self)@.slot
                    == old(self)@.slot,
            },
    {
        match slot {
            Ok(v) => {
                self.slot = Some(v);
                Ok(())
            },
            Err(m) => Err(AgentError::SkillSlot(m)),
        }
    }

    /// Keeps nothing any more.
    pub fn clear_slot(&mut self)
        ensures
            final(self)@ == (TaskStateModel { slot: None, ..old(self)@ }),
    {
        self.slot = None;
    }
}

/// What a skill can keep: for the task, and for the conversation.
#[derive(Debug)]
pub struct State {
    pub task: TaskState,
    pub session: SessionState,
}

/// The model of what a skill can keep.
pub struct StateModel {
    pub task: TaskStateModel,
    pub session: Map<Seq<char>, Json>,
}

impl View for State {
    type V = StateModel;

    open spec fn view(&self) -> StateModel {
        StateModel { task: self.task@, session: self.session@ }
    }
}

impl Default for State {
    fn default() -> (r: State)
        ensures
            r@ == (StateModel { task: TaskStateModel::empty(), session: Map::empty() }),
    {
        State { task: TaskState::new(), session: SessionState::new() }
    }
}

impl State {
    /// Nothing kept.
    #[must_use]
    pub fn new() -> (r: State)
        ensures
            r@ == (StateModel { task: TaskStateModel::empty(), session: Map::empty() }),
    {
        State { task: TaskState::new(), session: SessionState::new() }
    }

    /// What was kept for a task and a conversation.
    #[must_use]
    pub fn with_states(task: TaskState, session: SessionState) -> (r: State)
        ensures
            r == (State { task, session }),
    {
        State { task, session }
    }

    /// What is kept for the task; the conversation is left alone.
    pub fn task(&mut self) -> (r: &mut TaskState)
        ensures
            *r == old(self).task,
            *final(self) == (State { task: *final(r), session: old(self).session }),
    {
        &mut self.task
    }

    /// What is kept for the conversation; the task is left alone.
    pub fn session(&mut self) -> (r: &mut SessionState)
        ensures
            *r == old(self).session,
            *final(self) == (State { task: old(self).task, session: *final(r) }),
    {
        &mut self.session
    }

    /// What is kept for the task.
    #[must_use]
    pub fn task_ref(&self) -> (r: &TaskState)
        ensures
            *r == self.task,
    {
        &self.task
    }

    /// What is kept for the conversation.
    #[must_use]
    pub fn session_ref(&self) -> (r: &SessionState)
        ensures
            *r == self.session,
    {
        &self.session
    }

    /// What is kept for the task, and for the conversation.
    #[must_use]
    pub fn into_parts(self) -> (r: (TaskState, SessionState))
        ensures
            r == (self.task, self.session),
    {
        (self.task, self.session)
    }

    /// What is kept while the user is asked, decoded.
    pub fn slot<T, F: FnOnce(JsonValue) -> Result<T, String>>(&self, decode: F) -> (r: Result<
        Option<T>,
        AgentError,
    >)
        requires
            forall|v: JsonValue| call_requires(decode, (v,)),
        ensures
            decoded(decode, self@.task.slot, true, r),
    {
        self.task.slot(decode)
    }

    /// Keeps a value while the user is asked. `slot` is what turning it into JSON gave.
    pub fn set_slot(&mut self, slot: Result<JsonValue, String>) -> (r: Result<(), AgentError>)
        ensures
            final(self)@.session == old(self)@.session,
            final(self)@.task.data == old(self)@.task.data,
            match slot {
                Ok(v) => r is Ok && final(self)@.task.slot == Some(v@),
                Err(m) => r matches Err(e) && e@ == ErrorView::SkillSlot(m@) && final(self)@.task.slot == old(self)@.task.slot,
            },
    {
        self.task.set_slot(slot)
    }

    /// Keeps nothing any more while the user is asked.
    pub fn clear_slot(&mut self)
        ensures
            final(self)@ == (StateModel {
                task: TaskStateModel { slot: None, ..old(self)@.task },
                ..old(self)@
            }),
    {
        self.task.clear_slot();
    }

    /// What is kept while the user is asked.
    pub fn current_slot(&self) -> (r: Option<SkillSlot>)
        ensures
            is_slot(r, self@.task.slot),
    {
        self.task.current_slot()
    }

    /// Keeps a slot while the user is asked.
    pub fn set_pending_slot(&mut self, slot: SkillSlot)
        ensures
            final(self)@ == (StateModel {
                task: TaskStateModel { slot: Some(slot.value@), ..old(self)@.task },
                ..old(self)@
            }),
    {
        self.task.slot = Some(slot.value);
    }

    /// Keeps no slot any more.
    pub fn clear_pending_slot(&mut self)
        ensures
            final(self)@ == (StateModel {
                task: TaskStateModel { slot: None, ..old(self)@.task },
                ..old(self)@
            }),
    {
        self.task.slot = None;
    }
}

// ---------------------------------------------------------------------------
// Progress
// ---------------------------------------------------------------------------

/// Where a skill sends news of its progress: to a task, or nowhere.
#[derive(Debug)]
pub struct ProgressSender {
    pub auth: Option<AuthContext>,
    pub task_id: String,
    pub context_id: String,
}

impl ProgressSender {
    /// News go to a task.
    pub fn new(auth: AuthContext, context_id: String, task_id: String) -> (r: ProgressSender)
        ensures
            r == (ProgressSender { auth: Some(auth), task_id, context_id }),
    {
        ProgressSender { auth: Some(auth), task_id, context_id }
    }

    /// News go nowhere.
    #[must_use]
    pub fn noop() -> (r: ProgressSender)
        ensures
            r.auth is None,
            r.task_id@.len() == 0,
            r.context_id@.len() == 0,
    {
        ProgressSender { auth: None, task_id: String::new(), context_id: String::new() }
    }

    /// The event to store and to publish for news of progress: the task is working, and this
    /// is what it says. Without a task there is none. The message gets the identifier, the
    /// status the time that are given.
    pub fn send_update(&self, message: Content, message_id: String, now: Timestamp) -> (r: Option<
        TaskEvent,
    >)
        ensures
            match r {
                None => self.auth is None,
                Some(e) => self.auth is Some && e@ == (TaskEventModel::StatusUpdate {
                    task_id: self.task_id@,
                    context_id: self.context_id@,
                    status: Some(
                        StatusModel {
                            state: A2aTaskState::Working.code(),
                            timestamp: Some(now),
                            message: Some(
                                MessageModel {
                                    message_id: message_id@,
                                    context_id: self.context_id@,
                                    task_id: self.task_id@,
                                    role: Role::Assistant,
                                    content: message@,
                                },
                            ),
                        },
                    ),
                    is_final: false,
                }),
            },
    {
        if self.auth.is_none() {
            return None;
        }
        let status = TaskStatus {
            state: A2aTaskState::Working.to_code(),
            timestamp: Some(now),
            message: Some(
                Message {
                    message_id,
                    context_id: self.context_id.clone(),
                    task_id: self.task_id.clone(),
                    role: Role::Assistant,
                    content: message,
                },
            ),
        };
        Some(
            TaskEvent::StatusUpdate(
                TaskStatusUpdate {
                    task_id: self.task_id.clone(),
                    context_id: self.context_id.clone(),
                    status: Some(status),
                    is_final: false,
                },
            ),
        )
    }

    /// The event to store and to publish for a part of an artifact. Without a task there is
    /// none.
    pub fn send_partial_artifact(&self, artifact: Artifact) -> (r: Option<TaskEvent>)
        ensures
            match r {
                None => self.auth is None,
                Some(e) => self.auth is Some && e@ == (TaskEventModel::ArtifactUpdate {
                    task_id: self.task_id@,
                    context_id: self.context_id@,
                    artifact: Some(artifact@),
                    append: false,
                    last_chunk: false,
                }),
            },
    {
        if self.auth.is_none() {
            return None;
        }
        Some(
            TaskEvent::ArtifactUpdate(
                TaskArtifactUpdate {
                    task_id: self.task_id.clone(),
                    context_id: self.context_id.clone(),
                    artifact: Some(artifact),
                    append: false,
                    last_chunk: false,
                },
            ),
        )
    }
}

// ---------------------------------------------------------------------------
// Laws
// ---------------------------------------------------------------------------

/// What was saved at a key is there, and saving at one key leaves every other key alone.
pub proof fn saved_values_are_there(
    m: Map<Seq<char>, Json>,
    key: Seq<char>,
    value: Json,
    other: Seq<char>,
)
    ensures
        value_at(m.insert(key, value), key) == Some(value),
        other != key ==> value_at(m.insert(key, value), other) == value_at(m, other),
        value_at(m.remove(key), key) is None,
        other != key ==> value_at(m.remove(key), other) == value_at(m, other),
{
}

/// Users are told apart by the application and by their name: two contexts act for the same user
/// exactly where both are the same.
pub proof fn users_are_told_apart(a: AuthContext, b: AuthContext)
    ensures
        a@ == b@ <==> a.app_name@ == b.app_name@ && a.user_name@ == b.user_name@,
{
}

/// What is not there is loaded as nothing; what is there is loaded as what decoding it gives, or
/// fails with the reason of that, told as one of the slot or of the context.
pub proof fn loaded_values_are_decoded<T, F: FnOnce(JsonValue) -> Result<T, String>>(
    decode: F,
    stored: Option<Json>,
    slot: bool,
    r: Result<Option<T>, AgentError>,
)
    requires
        decoded(decode, stored, slot, r),
    ensures
        stored is None <==> r == Ok::<Option<T>, AgentError>(None),
        stored matches Some(v) ==> (r matches Ok(Some(t)) ==> exists|value: JsonValue|
            value@ == v && #[trigger] call_ensures(decode, (value,), Ok(t))),
        stored matches Some(v) ==> (r matches Err(e) ==> exists|value: JsonValue, m: String|
            value@ == v && #[trigger] call_ensures(decode, (value,), Err(m)) && (if slot {
                e@ == ErrorView::SkillSlot(m@)
            } else {
                e@ == ErrorView::ContextError(m@)
            })),
{
    match stored {
        None => {},
        Some(v) => {
            let (value, d) = choose|value: JsonValue, d: Result<T, String>|
                value@ == v && #[trigger] call_ensures(decode, (value,), d) && match (d, r) {
                    (Ok(t), Ok(Some(x))) => x == t,
                    (Err(m), Err(e)) => e@ == if slot {
                        ErrorView::SkillSlot(m@)
                    } else {
                        ErrorView::ContextError(m@)
                    },
                    _ => false,
                };
            match d {
                Ok(t) => {
                    assert(call_ensures(decode, (value,), Ok(t)));
                },
                Err(m) => {
                    assert(call_ensures(decode, (value,), Err(m)));
                },
            }
        },
    }
}

/// A slot is there exactly where a value is kept, and holds that value; a new state keeps
/// nothing.
pub proof fn slots_hold_what_is_kept(r: Option<SkillSlot>, slot: Option<Json>)
    requires
        is_slot(r, slot),
    ensures
        r is Some <==> slot is Some,
        r matches Some(s) ==> slot == Some(s.value@),
        TaskStateModel::empty().data == Map::<Seq<char>, Json>::empty(),
        TaskStateModel::empty().slot is None,
{
}

} // verus!
