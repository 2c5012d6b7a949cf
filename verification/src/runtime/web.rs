//! Answering over the web.

use crate::a2a::{
    Message, TaskArtifactUpdate, TaskEvent, TaskState, TaskStatus, TaskStatusUpdate, TaskView,
    Timestamp,
};
use crate::agent::builder::{AgentDefinition, SkillRegistration};
use crate::errors::{AgentError, ErrorView};
use crate::json::{object3, Json, JsonNumber, JsonValue};
use crate::text::{
    ascii_upper, ascii_uppercase, begins_with, chars_of, concat2, concat3, concat4, decimal,
    decimal_text, join, joined, lemma_split_some, only, parse_unsigned, pieces_on, read_unsigned,
    same_text, split_on, starts_with, string_of_range, texts, trim, trimmed,
};
use vstd::prelude::*;

verus! {

// ---------------------------------------------------------------------------
// Addresses
// ---------------------------------------------------------------------------

/// The port that an address ends with.
pub open spec fn port_of(address: Seq<char>) -> Option<nat> {
    parse_unsigned(split_on(address, ':').last(), 65535)
}

/// What stands before the last colon of an address; the local host where there is none.
pub open spec fn host_of(address: Seq<char>) -> Seq<char> {
    let p = split_on(address, ':');
    if p.len() > 1 {
        join(p.drop_last(), ":"@)
    } else {
        "localhost"@
    }
}

/// The address for clients of a server at an address.
pub open spec fn base_url(address: Seq<char>) -> Seq<char> {
    match port_of(address) {
        None => "http://localhost"@,
        Some(port) => if starts_with(address, "0.0.0.0:"@) || starts_with(address, "127.0.0.1:"@)
            || starts_with(address, "localhost:"@) || address == decimal(port) {
            "http://localhost:"@ + decimal(port)
        } else {
            "http://"@ + host_of(address) + ":"@ + decimal(port)
        },
    }
}

/// The address for clients of a server that is bound to an address: the local host for
/// addresses that stand for this machine, the host of the address otherwise.
pub fn infer_base_url(bind_address: &str) -> (r: String)
    ensures
        r@ == base_url(bind_address@),
{
    let mut parts = pieces_on(bind_address, ':');
    let ghost p = split_on(bind_address@, ':');
    proof {
        lemma_split_some(bind_address@, only(':'));
        assert(texts(parts@).len() == parts@.len());
        assert(texts(parts@)[parts@.len() - 1] == parts@[parts@.len() - 1]@);
    }
    let port = match read_unsigned(parts[parts.len() - 1].as_str(), 65535) {
        Some(port) => port,
        None => {
            return "http://localhost".to_owned();
        },
    };
    let digits = decimal_text(port);
    if begins_with(bind_address, "0.0.0.0:") || begins_with(bind_address, "127.0.0.1:")
        || begins_with(bind_address, "localhost:") || same_text(bind_address, digits.as_str()) {
        return concat2("http://localhost:", digits.as_str());
    }
    let host = if parts.len() > 1 {
        let ghost before = parts@;
        let _ = parts.pop();
        proof {
            assert(texts(parts@) =~= p.drop_last());
        }
        joined(&parts, ":")
    } else {
        "localhost".to_owned()
    };
    concat4("http://", host.as_str(), ":", digits.as_str())
}

/// A text without the slashes at its end.
pub open spec fn without_slashes(s: Seq<char>) -> Seq<char>
    decreases s.len(),
{
    if s.len() > 0 && s.last() == '/' {
        without_slashes(s.drop_last())
    } else {
        s
    }
}

fn trim_slashes(s: &str) -> (r: String)
    ensures
        r@ == without_slashes(s@),
{
    let v = chars_of(s);
    let mut n: usize = v.len();
    proof {
        assert(s@.take(s@.len() as int) =~= s@);
    }
    while n > 0 && v[n - 1] == '/'
        invariant
            n <= v.len(),
            v@ == s@,
            without_slashes(s@) == without_slashes(s@.take(n as int)),
        decreases n,
    {
        proof {
            assert(s@.take(n as int).drop_last() =~= s@.take(n - 1));
        }
        n = n - 1;
    }
    proof {
        assert(v@.subrange(0, n as int) =~= s@.take(n as int));
    }
    string_of_range(&v, 0, n)
}

// ---------------------------------------------------------------------------
// The agent card
// ---------------------------------------------------------------------------

/// A way to talk to an agent.
#[derive(Debug)]
pub struct AgentInterface {
    pub url: String,
    pub protocol_binding: String,
    pub tenant: String,
    pub protocol_version: String,
}

/// What an agent can do beyond answering.
#[derive(Debug, Clone, Copy, PartialEq, Eq, Structural)]
pub struct AgentCapabilities {
    pub streaming: bool,
    pub push_notifications: bool,
    pub extended_agent_card: bool,
}

/// What clients are told of a skill.
#[derive(Debug)]
pub struct AgentSkillCard {
    pub id: String,
    pub name: String,
    pub description: String,
    pub tags: Vec<String>,
    pub examples: Vec<String>,
    pub input_modes: Vec<String>,
    pub output_modes: Vec<String>,
}

/// What clients are told of an agent.
#[derive(Debug)]
pub struct AgentCard {
    pub name: String,
    pub description: String,
    pub supported_interfaces: Vec<AgentInterface>,
    pub version: String,
    pub capabilities: AgentCapabilities,
    pub default_input_modes: Vec<String>,
    pub default_output_modes: Vec<String>,
    pub skills: Vec<AgentSkillCard>,
}

/// The interface is this one, in version 1.0 of the protocol.
pub open spec fn is_interface(i: AgentInterface, url: Seq<char>, binding: Seq<char>) -> bool {
    &&& i.url@ == url
    &&& i.protocol_binding@ == binding
    &&& i.tenant@.len() == 0
    &&& i.protocol_version@ == "1.0"@
}

/// The card tells the skill.
pub open spec fn tells_skill<H>(c: AgentSkillCard, s: SkillRegistration<H>) -> bool {
    &&& c.id@ == s.metadata.id@
    &&& c.name@ == s.metadata.name@
    &&& c.description@ == s.metadata.description@
    &&& texts(c.tags@) == texts(s.metadata.tags@)
    &&& texts(c.examples@) == texts(s.metadata.examples@)
    &&& texts(c.input_modes@) == texts(s.metadata.input_modes@)
    &&& texts(c.output_modes@) == texts(s.metadata.output_modes@)
}

/// Where clients find an agent: where it was told to be, or where its server is bound.
pub open spec fn public_url(configured: Option<&str>, bind: Option<&str>) -> Seq<char> {
    match configured {
        Some(url) => url@,
        None => match bind {
            Some(address) => base_url(address@),
            None => "http://localhost"@,
        },
    }
}

/// The card tells the agent, at an address without slashes at its end.
pub open spec fn is_card<H>(card: AgentCard, agent: AgentDefinition<H>, url: Seq<char>) -> bool {
    &&& card.name@ == agent.name@
    &&& match agent.description {
        Some(d) => card.description@ == d@,
        None => card.description@.len() == 0,
    }
    &&& card.version@ == agent.version@
    &&& card.supported_interfaces@.len() == 2
    &&& is_interface(card.supported_interfaces@[0], url + "/rpc"@, "JSONRPC"@)
    &&& is_interface(card.supported_interfaces@[1], url, "HTTP+JSON"@)
    &&& card.capabilities == (AgentCapabilities {
        streaming: true,
        push_notifications: false,
        extended_agent_card: true,
    })
    &&& texts(card.default_input_modes@) == seq!["text/plain"@]
    &&& texts(card.default_output_modes@) == seq!["text/plain"@]
    &&& card.skills@.len() == agent.skills@.len()
    &&& forall|i: int|
        0 <= i < card.skills@.len() ==> tells_skill(#[trigger] card.skills@[i], agent.skills@[i])
}

fn copy_strings(v: &Vec<String>) -> (r: Vec<String>)
    ensures
        texts(r@) == texts(v@),
{
    let mut out: Vec<String> = Vec::new();
    let mut i: usize = 0;
    while i < v.len()
        invariant
            i <= v.len(),
            out.len() == i,
            forall|j: int| 0 <= j < i ==> (#[trigger] out@[j])@ == v@[j]@,
        decreases v.len() - i,
    {
        out.push(v[i].clone());
        i = i + 1;
    }
    proof {
        assert(texts(out@) =~= texts(v@));
    }
    out
}

fn plain_text_only() -> (r: Vec<String>)
    ensures
        texts(r@) == seq!["text/plain"@],
{
    let mut v: Vec<String> = Vec::new();
    v.push("text/plain".to_owned());
    proof {
        assert(texts(v@) =~= seq!["text/plain"@]);
    }
    v
}

fn skill_card<H>(skill: &SkillRegistration<H>) -> (r: AgentSkillCard)
    ensures
        tells_skill(r, *skill),
{
    AgentSkillCard {
        id: skill.id().to_owned(),
        name: skill.name().to_owned(),
        description: skill.description().to_owned(),
        tags: copy_strings(&skill.metadata.tags),
        examples: copy_strings(&skill.metadata.examples),
        input_modes: copy_strings(&skill.metadata.input_modes),
        output_modes: copy_strings(&skill.metadata.output_modes),
    }
}

/// What clients are told of an agent.
pub fn build_agent_card<H>(
    configured_base_url: Option<&str>,
    bind_address: Option<&str>,
    agent: &AgentDefinition<H>,
) -> (r: AgentCard)
    ensures
        is_card(r, *agent, without_slashes(public_url(configured_base_url, bind_address))),
{
    let url = match configured_base_url {
        Some(url) => url.to_owned(),
        None => match bind_address {
            Some(address) => infer_base_url(address),
            None => "http://localhost".to_owned(),
        },
    };
    let base = trim_slashes(url.as_str());
    let mut interfaces: Vec<AgentInterface> = Vec::new();
    interfaces.push(
        AgentInterface {
            url: concat2(base.as_str(), "/rpc"),
            protocol_binding: "JSONRPC".to_owned(),
            tenant: String::new(),
            protocol_version: "1.0".to_owned(),
        },
    );
    interfaces.push(
        AgentInterface {
            url: base,
            protocol_binding: "HTTP+JSON".to_owned(),
            tenant: String::new(),
            protocol_version: "1.0".to_owned(),
        },
    );
    let mut skills: Vec<AgentSkillCard> = Vec::new();
    let mut i: usize = 0;
    while i < agent.skills.len()
        invariant
            i <= agent.skills.len(),
            skills.len() == i,
            forall|j: int|
                0 <= j < i ==> tells_skill(#[trigger] skills@[j], agent.skills@[j]),
        decreases agent.skills.len() - i,
    {
        skills.push(skill_card(&agent.skills[i]));
        i = i + 1;
    }
    AgentCard {
        name: agent.name().to_owned(),
        description: match agent.description() {
            Some(d) => d.to_owned(),
            None => String::new(),
        },
        supported_interfaces: interfaces,
        version: agent.version().to_owned(),
        capabilities: AgentCapabilities {
            streaming: true,
            push_notifications: false,
            extended_agent_card: true,
        },
        default_input_modes: plain_text_only(),
        default_output_modes: plain_text_only(),
        skills,
    }
}

/// A short description of an agent.
#[derive(Debug)]
pub struct AgentInfo {
    pub name: String,
    pub version: String,
    pub description: Option<String>,
    pub skill_count: usize,
}

impl AgentInfo {
    /// A short description of an agent.
    pub fn from_agent_definition<H>(agent: &AgentDefinition<H>) -> (r: AgentInfo)
        ensures
            r.name@ == agent.name@,
            r.version@ == agent.version@,
            match (r.description, agent.description) {
                (Some(a), Some(b)) => a@ == b@,
                (None, None) => true,
                _ => false,
            },
            r.skill_count == agent.skills@.len(),
    {
        AgentInfo {
            name: agent.name().to_owned(),
            version: agent.version().to_owned(),
            description: match agent.description() {
                Some(d) => Some(d.to_owned()),
                None => None,
            },
            skill_count: agent.skills.len(),
        }
    }
}

// ---------------------------------------------------------------------------
// Times
// ---------------------------------------------------------------------------

/// There is a date and time for these seconds since the epoch and nanoseconds: a year from
/// -262143 to 262142, and more than a second of nanoseconds only in the last second of a
/// minute.
pub open spec fn time_exists(seconds: i64, nanos: u32) -> bool {
    &&& -8_334_601_228_800 <= seconds <= 8_210_266_876_799
    &&& nanos < 1_000_000_000 || (nanos < 2_000_000_000 && (seconds as int) % 60 == 59)
}

/// What `chrono::DateTime::to_rfc3339` writes for a time in UTC.
pub uninterp spec fn rfc3339_text(seconds: i64, nanos: u32) -> Seq<char>;

/// `chrono::DateTime::from_timestamp`, then `to_rfc3339`: the text of the time where there is
/// one.
#[verifier::external_body]
fn time_text(seconds: i64, nanos: u32) -> (r: Option<String>)
    ensures
        match r {
            Some(s) => time_exists(seconds, nanos) && s@ == rfc3339_text(seconds, nanos),
            None => !time_exists(seconds, nanos),
        },
{
    chrono::DateTime::from_timestamp(seconds, nanos).map(|t| t.to_rfc3339())
}

/// What `chrono::DateTime::parse_from_rfc3339` makes of a text: the seconds since the epoch, or
/// the text of the error.
pub uninterp spec fn rfc3339_seconds(text: Seq<char>) -> Result<i64, Seq<char>>;

/// `chrono::DateTime::parse_from_rfc3339`, then `timestamp`: the seconds since the epoch of the
/// time that the text gives, or the text of the error.
#[verifier::external_body]
fn seconds_of(text: &str) -> (r: Result<i64, String>)
    ensures
        match r {
            Ok(n) => rfc3339_seconds(text@) == Ok::<i64, Seq<char>>(n),
            Err(m) => rfc3339_seconds(text@) == Err::<i64, Seq<char>>(m@),
        },
{
    chrono::DateTime::parse_from_rfc3339(text).map(|t| t.timestamp()).map_err(|e| e.to_string())
}

/// The text of a timestamp, where it is a time.
pub open spec fn timestamp_text(t: Timestamp) -> Option<Seq<char>> {
    if t.nanos >= 0 && time_exists(t.seconds, t.nanos as u32) {
        Some(rfc3339_text(t.seconds, t.nanos as u32))
    } else {
        None
    }
}

fn text_of_timestamp(t: &Timestamp) -> (r: Option<String>)
    ensures
        match r {
            Some(s) => timestamp_text(*t) == Some(s@),
            None => timestamp_text(*t) is None,
        },
{
    if t.nanos < 0 {
        None
    } else {
        time_text(t.seconds, t.nanos as u32)
    }
}

// ---------------------------------------------------------------------------
// Listing tasks
// ---------------------------------------------------------------------------

/// Which tasks are asked for.
#[derive(Debug)]
pub struct ListTasksQuery {
    pub context_id: Option<String>,
    pub status: Option<String>,
    pub page_size: Option<i32>,
    pub page_token: Option<String>,
    pub history_length: Option<i32>,
    pub status_timestamp_after: Option<String>,
    pub include_artifacts: Option<bool>,
}

/// A page of tasks. The token of the next page is empty where there is none.
#[derive(Debug)]
pub struct ListTasksResponse {
    pub tasks: Vec<TaskView>,
    pub next_page_token: String,
    pub page_size: i32,
    pub total_size: i32,
}

/// The state with this name, in upper case.
pub open spec fn state_named(name: Seq<char>) -> Option<TaskState> {
    if name == "TASK_STATE_SUBMITTED"@ || name == "SUBMITTED"@ {
        Some(TaskState::Submitted)
    } else if name == "TASK_STATE_WORKING"@ || name == "WORKING"@ {
        Some(TaskState::Working)
    } else if name == "TASK_STATE_COMPLETED"@ || name == "COMPLETED"@ {
        Some(TaskState::Completed)
    } else if name == "TASK_STATE_FAILED"@ || name == "FAILED"@ {
        Some(TaskState::Failed)
    } else if name == "TASK_STATE_CANCELED"@ || name == "CANCELED"@ {
        Some(TaskState::Canceled)
    } else if name == "TASK_STATE_INPUT_REQUIRED"@ || name == "INPUT_REQUIRED"@ {
        Some(TaskState::InputRequired)
    } else if name == "TASK_STATE_REJECTED"@ || name == "REJECTED"@ {
        Some(TaskState::Rejected)
    } else if name == "TASK_STATE_AUTH_REQUIRED"@ || name == "AUTH_REQUIRED"@ {
        Some(TaskState::AuthRequired)
    } else if name == "TASK_STATE_UNSPECIFIED"@ || name == "UNKNOWN"@ {
        Some(TaskState::Unspecified)
    } else {
        None
    }
}

/// A status as it is compared: without white space around it, in upper case.
pub open spec fn normalized(status: Seq<char>) -> Seq<char> {
    trim(status).map_values(|c: char| ascii_upper(c))
}

/// The task has the status that is asked for; the status must be known.
pub open spec fn has_status(task: TaskView, status: Seq<char>) -> Result<bool, ErrorView> {
    match state_named(normalized(status)) {
        Some(state) => Ok(
            match task.status {
                Some(s) => s.state == state.code(),
                None => false,
            },
        ),
        None => Err(
            ErrorView::Validation {
                field: "status"@,
                reason: "unsupported task state `"@ + normalized(status) + "`"@,
            },
        ),
    }
}

fn find_state(name: &str) -> (r: Option<TaskState>)
    ensures
        r == state_named(name@),
{
    if same_text(name, "TASK_STATE_SUBMITTED") || same_text(name, "SUBMITTED") {
        Some(TaskState::Submitted)
    } else if same_text(name, "TASK_STATE_WORKING") || same_text(name, "WORKING") {
        Some(TaskState::Working)
    } else if same_text(name, "TASK_STATE_COMPLETED") || same_text(name, "COMPLETED") {
        Some(TaskState::Completed)
    } else if same_text(name, "TASK_STATE_FAILED") || same_text(name, "FAILED") {
        Some(TaskState::Failed)
    } else if same_text(name, "TASK_STATE_CANCELED") || same_text(name, "CANCELED") {
        Some(TaskState::Canceled)
    } else if same_text(name, "TASK_STATE_INPUT_REQUIRED") || same_text(name, "INPUT_REQUIRED") {
        Some(TaskState::InputRequired)
    } else if same_text(name, "TASK_STATE_REJECTED") || same_text(name, "REJECTED") {
        Some(TaskState::Rejected)
    } else if same_text(name, "TASK_STATE_AUTH_REQUIRED") || same_text(name, "AUTH_REQUIRED") {
        Some(TaskState::AuthRequired)
    } else if same_text(name, "TASK_STATE_UNSPECIFIED") || same_text(name, "UNKNOWN") {
        Some(TaskState::Unspecified)
    } else {
        None
    }
}

/// Tells whether a task has the status that is asked for.
pub fn task_state_matches_filter(task: &TaskView, status: &str) -> (r: Result<bool, AgentError>)
    ensures
        match r {
            Ok(b) => has_status(*task, status@) == Ok::<bool, ErrorView>(b),
            Err(e) => has_status(*task, status@) == Err::<bool, ErrorView>(e@),
        },
{
    let t = trimmed(status);
    let name = ascii_uppercase(t.as_str());
    match find_state(name.as_str()) {
        Some(state) => Ok(
            match &task.status {
                Some(s) => s.state == state.to_code(),
                None => false,
            },
        ),
        None => Err(
            AgentError::Validation {
                field: "status".to_owned(),
                reason: concat3("unsupported task state `", name.as_str(), "`"),
            },
        ),
    }
}

/// The time of the status of a task.
pub open spec fn status_time(task: TaskView) -> Option<Timestamp> {
    match task.status {
        Some(s) => s.timestamp,
        None => None,
    }
}

/// The status of the task is not older than the time that is asked for, to the second. A task
/// without a time is older than any.
pub open spec fn not_older(task: TaskView, after: Seq<char>) -> Result<bool, ErrorView> {
    match status_time(task) {
        None => Ok(false),
        Some(t) => if timestamp_text(t) is None {
            Err(
                ErrorView::Validation {
                    field: "task.status.timestamp"@,
                    reason: "invalid timestamp"@,
                },
            )
        } else {
            match rfc3339_seconds(after) {
                Ok(n) => Ok(t.seconds >= n),
                Err(m) => Err(
                    ErrorView::Validation { field: "status_timestamp_after"@, reason: m },
                ),
            }
        },
    }
}

/// Tells whether the status of a task is not older than `after`, where that is the answer of
/// reading the time that is asked for.
pub fn compare_status_time(task: &TaskView, after: Result<i64, String>) -> (r: Result<
    bool,
    AgentError,
>)
    ensures
        match (status_time(*task), r) {
            (None, Ok(b)) => !b,
            (Some(t), Err(e)) => if timestamp_text(t) is None {
                e@ == (ErrorView::Validation {
                    field: "task.status.timestamp"@,
                    reason: "invalid timestamp"@,
                })
            } else {
                after matches Err(m) && e@ == (ErrorView::Validation {
                    field: "status_timestamp_after"@,
                    reason: m@,
                })
            },
            (Some(t), Ok(b)) => timestamp_text(t) is Some && (after matches Ok(n) && b
                == (t.seconds >= n)),
            (None, Err(_)) => false,
        },
{
    let t = match &task.status {
        Some(s) => match s.timestamp {
            Some(t) => t,
            None => {
                return Ok(false);
            },
        },
        None => {
            return Ok(false);
        },
    };
    if text_of_timestamp(&t).is_none() {
        return Err(
            AgentError::Validation {
                field: "task.status.timestamp".to_owned(),
                reason: "invalid timestamp".to_owned(),
            },
        );
    }
    match after {
        Ok(n) => Ok(t.seconds >= n),
        Err(m) => Err(
            AgentError::Validation { field: "status_timestamp_after".to_owned(), reason: m },
        ),
    }
}

/// Tells whether the status of a task is not older than a time in the format of RFC 3339.
pub fn timestamp_after_filter(task: &TaskView, after: &str) -> (r: Result<bool, AgentError>)
    ensures
        match r {
            Ok(b) => not_older(*task, after@) == Ok::<bool, ErrorView>(b),
            Err(e) => not_older(*task, after@) == Err::<bool, ErrorView>(e@),
        },
{
    compare_status_time(task, seconds_of(after))
}

/// The end of a history, with as many messages as asked for.
pub open spec fn last_messages(history: Seq<Message>, length: Option<i32>) -> Seq<Message> {
    match length {
        None => history,
        Some(n) => {
            let keep: int = if n < 0 {
                0
            } else {
                n as int
            };
            if history.len() > keep {
                history.skip(history.len() - keep)
            } else {
                history
            }
        },
    }
}

/// Cuts the history of a task down to its last messages.
pub fn truncate_history(task: &mut TaskView, history_length: Option<i32>)
    ensures
        final(task).history@ == last_messages(old(task).history@, history_length),
        final(task).id == old(task).id,
        final(task).context_id == old(task).context_id,
        final(task).status == old(task).status,
        final(task).artifacts == old(task).artifacts,
{
    match history_length {
        None => {},
        Some(n) => {
            let keep: u64 = if n < 0 {
                0
            } else {
                n as u64
            };
            if task.history.len() as u64 > keep {
                let split: usize = task.history.len() - keep as usize;
                let ghost all = task.history@;
                let end = task.history.split_off(split);
                task.history = end;
                proof {
                    assert(task.history@ =~= all.skip(split as int));
                }
            }
        },
    }
}

/// How many tasks are looked at for a list.
pub const MAX_LISTED_TASKS: usize = 10_000;

/// The tasks of a conversation, or all where none is given, in order.
pub open spec fn in_context(tasks: Seq<TaskView>, context_id: Option<String>) -> Seq<TaskView>
    decreases tasks.len(),
{
    if tasks.len() == 0 {
        Seq::empty()
    } else {
        let before = in_context(tasks.drop_last(), context_id);
        if context_id is None || context_id->Some_0@ == tasks.last().context_id@ {
            before.push(tasks.last())
        } else {
            before
        }
    }
}

/// The tasks that are looked at: the first of those in the conversation that is asked for.
pub open spec fn looked_at(tasks: Seq<TaskView>, query: ListTasksQuery) -> Seq<TaskView> {
    let all = in_context(tasks, query.context_id);
    if all.len() <= MAX_LISTED_TASKS {
        all
    } else {
        all.take(MAX_LISTED_TASKS as int)
    }
}

/// The tasks of a conversation, or all where none is given, in order.
pub fn tasks_in_context(tasks: Vec<TaskView>, context_id: &Option<String>) -> (r: Vec<TaskView>)
    ensures
        r@ == in_context(tasks@, *context_id),
{
    let mut out: Vec<TaskView> = Vec::new();
    let ghost all = tasks@;
    proof {
        assert(all.take(0) =~= Seq::<TaskView>::empty());
    }
    for task in it: tasks
        invariant
            it.seq() == all,
            out@ == in_context(all.take(it.index()), *context_id),
    {
        let ghost i = it.index();
        proof {
            assert(all.take(i + 1).drop_last() =~= all.take(i));
            assert(all.take(i + 1).last() == task);
        }
        let wanted = match context_id {
            Some(id) => same_text(id.as_str(), task.context_id.as_str()),
            None => true,
        };
        if wanted {
            out.push(task);
        }
    }
    proof {
        assert(all.take(all.len() as int) =~= all);
    }
    out
}

/// The task is asked for.
pub open spec fn asked_for(task: TaskView, query: ListTasksQuery) -> Result<bool, ErrorView> {
    let by_status = match query.status {
        Some(s) => has_status(task, s@),
        None => Ok(true),
    };
    match by_status {
        Err(e) => Err(e),
        Ok(false) => Ok(false),
        Ok(true) => match query.status_timestamp_after {
            Some(s) => not_older(task, s@),
            None => Ok(true),
        },
    }
}

/// The tasks that are asked for, in order; the first that cannot be judged is an error.
pub open spec fn listed(tasks: Seq<TaskView>, query: ListTasksQuery) -> Result<
    Seq<TaskView>,
    ErrorView,
>
    decreases tasks.len(),
{
    if tasks.len() == 0 {
        Ok(Seq::empty())
    } else {
        match listed(tasks.drop_last(), query) {
            Err(e) => Err(e),
            Ok(before) => match asked_for(tasks.last(), query) {
                Err(e) => Err(e),
                Ok(true) => Ok(before.push(tasks.last())),
                Ok(false) => Ok(before),
            },
        }
    }
}

/// The task as it is shown: with the end of its history, and with its artifacts only where they
/// are asked for.
pub open spec fn shown(task: TaskView, query: ListTasksQuery, r: TaskView) -> bool {
    &&& r.id == task.id
    &&& r.context_id == task.context_id
    &&& r.status == task.status
    &&& r.history@ == last_messages(task.history@, query.history_length)
    &&& if query.include_artifacts == Some(true) {
        r.artifacts == task.artifacts
    } else {
        r.artifacts@.len() == 0
    }
}

/// The number of tasks on a page: 50 where none is given, and from 1 to 100.
pub open spec fn page_size_of(query: ListTasksQuery) -> int {
    let n = match query.page_size {
        Some(n) => n as int,
        None => 50,
    };
    if n < 1 {
        1
    } else if n > 100 {
        100
    } else {
        n
    }
}

/// Where a page begins: at its token, or at the first task where there is none to be read.
pub open spec fn page_start(query: ListTasksQuery) -> nat {
    match query.page_token {
        Some(t) => match parse_unsigned(t@, usize::MAX as nat) {
            Some(n) => n,
            None => 0,
        },
        None => 0,
    }
}

/// Where a page of `count` tasks ends.
pub open spec fn page_end(start: int, size: int, count: int) -> int {
    if start + size < count {
        start + size
    } else {
        count
    }
}

/// The tasks on a page.
pub open spec fn page(tasks: Seq<TaskView>, start: int, size: int) -> Seq<TaskView> {
    let end = page_end(start, size, tasks.len() as int);
    if start < end {
        tasks.subrange(start, end)
    } else {
        Seq::empty()
    }
}

/// The token of the page that follows, if there is one.
pub open spec fn next_token(tasks: Seq<TaskView>, start: int, size: int) -> Seq<char> {
    let end = page_end(start, size, tasks.len() as int);
    if end < tasks.len() {
        decimal(end as nat)
    } else {
        Seq::empty()
    }
}

proof fn lemma_error_stays(tasks: Seq<TaskView>, query: ListTasksQuery, i: int)
    requires
        0 <= i <= tasks.len(),
        listed(tasks.take(i), query) is Err,
    ensures
        listed(tasks, query) == listed(tasks.take(i), query),
    decreases tasks.len() - i,
{
    if i == tasks.len() {
        assert(tasks.take(i) =~= tasks);
    } else {
        assert(tasks.take(i + 1).drop_last() =~= tasks.take(i));
        lemma_error_stays(tasks, query, i + 1);
    }
}

fn is_asked_for(task: &TaskView, query: &ListTasksQuery) -> (r: Result<bool, AgentError>)
    ensures
        match r {
            Ok(b) => asked_for(*task, *query) == Ok::<bool, ErrorView>(b),
            Err(e) => asked_for(*task, *query) == Err::<bool, ErrorView>(e@),
        },
{
    match &query.status {
        Some(s) => match task_state_matches_filter(task, s.as_str()) {
            Err(e) => {
                return Err(e);
            },
            Ok(b) => {
                if !b {
                    return Ok(false);
                }
            },
        },
        None => {},
    }
    match &query.status_timestamp_after {
        Some(s) => timestamp_after_filter(task, s.as_str()),
        None => Ok(true),
    }
}

fn show(task: TaskView, query: &ListTasksQuery) -> (r: TaskView)
    ensures
        shown(task, *query, r),
{
    let mut task = task;
    truncate_history(&mut task, query.history_length);
    let include_artifacts = match query.include_artifacts {
        Some(b) => b,
        None => false,
    };
    if include_artifacts {
        task
    } else {
        TaskView {
            id: task.id,
            context_id: task.context_id,
            status: task.status,
            history: task.history,
            artifacts: Vec::new(),
        }
    }
}

/// The tasks that are asked for, as they are shown.
fn select_tasks(tasks: Vec<TaskView>, query: &ListTasksQuery) -> (r: Result<
    Vec<TaskView>,
    AgentError,
>)
    ensures
        match r {
            Ok(v) => {
                &&& listed(tasks@, *query) is Ok
                &&& v@.len() == listed(tasks@, *query)->Ok_0.len()
                &&& forall|i: int|
                    0 <= i < v@.len() ==> shown(
                        listed(tasks@, *query)->Ok_0[i],
                        *query,
                        #[trigger] v@[i],
                    )
            },
            Err(e) => listed(tasks@, *query) == Err::<Seq<TaskView>, ErrorView>(e@),
        },
{
    let mut out: Vec<TaskView> = Vec::new();
    let ghost all = tasks@;
    let ghost mut chosen: Seq<TaskView> = Seq::empty();
    proof {
        assert(all.take(0) =~= Seq::<TaskView>::empty());
    }
    for task in it: tasks
        invariant
            it.seq() == all,
            listed(all.take(it.index()), *query) == Ok::<Seq<TaskView>, ErrorView>(chosen),
            out@.len() == chosen.len(),
            forall|i: int| 0 <= i < out@.len() ==> shown(chosen[i], *query, #[trigger] out@[i]),
    {
        let ghost i = it.index();
        proof {
            assert(all.take(i + 1).drop_last() =~= all.take(i));
            assert(all.take(i + 1).last() == task);
        }
        match is_asked_for(&task, query) {
            Err(e) => {
                proof {
                    lemma_error_stays(all, *query, i + 1);
                }
                return Err(e);
            },
            Ok(b) => {
                if b {
                    proof {
                        chosen = chosen.push(task);
                    }
                    out.push(show(task, query));
                }
            },
        }
    }
    proof {
        assert(all.take(all.len() as int) =~= all);
    }
    Ok(out)
}

/// Where a page begins.
pub fn page_offset(query: &ListTasksQuery) -> (r: usize)
    ensures
        r == page_start(*query),
{
    match &query.page_token {
        Some(t) => match read_unsigned(t.as_str(), usize::MAX as u64) {
            Some(n) => n as usize,
            None => 0,
        },
        None => 0,
    }
}

/// A page of the tasks that are asked for. `tasks` are all the tasks of the user, with their
/// histories; those of the conversation that is asked for are looked at.
pub fn fetch_v1_tasks(tasks: Vec<TaskView>, query: &ListTasksQuery) -> (r: Result<
    ListTasksResponse,
    AgentError,
>)
    requires
        page_start(*query) + page_size_of(*query) <= usize::MAX,
    ensures
        match listed(looked_at(tasks@, *query), *query) {
            Err(x) => r matches Err(e) && e@ == x,
            Ok(all) => r matches Ok(p) && {
                let start = page_start(*query) as int;
                let size = page_size_of(*query);
                &&& p.tasks@.len() == page(all, start, size).len()
                &&& forall|i: int|
                    0 <= i < p.tasks@.len() ==> shown(
                        page(all, start, size)[i],
                        *query,
                        #[trigger] p.tasks@[i],
                    )
                &&& p.next_page_token@ == next_token(all, start, size)
                &&& p.page_size == size
                &&& p.total_size == if all.len() <= i32::MAX {
                    all.len() as int
                } else {
                    i32::MAX as int
                }
            },
        },
{
    let ghost given = tasks@;
    let mut tasks = tasks_in_context(tasks, &query.context_id);
    tasks.truncate(MAX_LISTED_TASKS);
    proof {
        assert(tasks@ =~= looked_at(given, *query));
    }
    let mut found = match select_tasks(tasks, query) {
        Ok(v) => v,
        Err(e) => {
            return Err(e);
        },
    };
    let ghost all = listed(tasks@, *query)->Ok_0;
    let ghost full = found@;
    let count: usize = found.len();
    let total_size: i32 = if count as u64 <= 0x7fff_ffff {
        count as i32
    } else {
        0x7fff_ffff
    };
    let wanted: i32 = match query.page_size {
        Some(n) => n,
        None => 50,
    };
    let page_size: i32 = if wanted < 1 {
        1
    } else if wanted > 100 {
        100
    } else {
        wanted
    };
    let start: usize = page_offset(query);
    let end: usize = if start + page_size as usize <= count {
        start + page_size as usize
    } else {
        count
    };
    let token = if end < count {
        decimal_text(end as u64)
    } else {
        let s = String::new();
        proof {
            assert(s@ =~= Seq::<char>::empty());
        }
        s
    };
    let on_page: Vec<TaskView> = if start < end {
        found.truncate(end);
        let ghost cut = found@;
        let v = found.split_off(start);
        proof {
            assert(cut =~= full.take(end as int));
            assert(v@ =~= full.subrange(start as int, end as int));
            assert forall|i: int| 0 <= i < v@.len() implies shown(
                page(all, start as int, page_size as int)[i],
                *query,
                #[trigger] v@[i],
            ) by {
                assert(v@[i] == full[start + i]);
                assert(shown(all[start + i], *query, full[start + i]));
            }
        }
        v
    } else {
        Vec::new()
    };
    Ok(
        ListTasksResponse {
            tasks: on_page,
            next_page_token: token,
            page_size,
            total_size,
        },
    )
}

/// All the pages from one on, one after the other, each following the token of the one before.
pub open spec fn pages_from(tasks: Seq<TaskView>, start: nat, size: nat) -> Seq<TaskView>
    decreases tasks.len() - start,
{
    let this = page(tasks, start as int, size as int);
    if size == 0 || next_token(tasks, start as int, size as int).len() == 0 {
        this
    } else {
        this + pages_from(
            tasks,
            page_end(start as int, size as int, tasks.len() as int) as nat,
            size,
        )
    }
}

/// Following the tokens from the first page on gives every task once, in order.
pub proof fn pages_give_every_task(tasks: Seq<TaskView>, start: nat, size: nat)
    requires
        size >= 1,
        start <= tasks.len(),
    ensures
        pages_from(tasks, start, size) == tasks.skip(start as int),
    decreases tasks.len() - start,
{
    let end = page_end(start as int, size as int, tasks.len() as int);
    crate::text::lemma_decimal_reads_back(end as nat);
    if end < tasks.len() {
        pages_give_every_task(tasks, end as nat, size);
        assert(tasks.subrange(start as int, end) + tasks.skip(end) =~= tasks.skip(start as int));
    } else if start < end {
        assert(tasks.subrange(start as int, end) =~= tasks.skip(start as int));
    } else {
        assert(tasks.skip(start as int) =~= Seq::<TaskView>::empty());
    }
}

/// The token of a page that follows is read as the place where that page begins.
pub proof fn tokens_lead_on(tasks: Seq<TaskView>, start: nat, size: nat)
    requires
        next_token(tasks, start as int, size as int).len() > 0,
        tasks.len() <= usize::MAX,
    ensures
        parse_unsigned(next_token(tasks, start as int, size as int), usize::MAX as nat) == Some(
            page_end(start as int, size as int, tasks.len() as int) as nat,
        ),
{
    let end = page_end(start as int, size as int, tasks.len() as int);
    crate::text::lemma_decimal_reads_back(end as nat);
    let d = decimal(end as nat);
    assert(crate::text::is_digit(d[0]));
}

// ---------------------------------------------------------------------------
// Streams
// ---------------------------------------------------------------------------

/// What a client that follows a task is sent.
#[derive(Debug)]
pub enum StreamResponse {
    Task(TaskView),
    Message(Message),
    StatusUpdate(TaskStatusUpdate),
    ArtifactUpdate(TaskArtifactUpdate),
}

/// After an event with this state nothing follows.
pub open spec fn closes(state: i32) -> bool {
    match TaskState::of_code(state) {
        Some(TaskState::Completed) => true,
        Some(TaskState::Failed) => true,
        Some(TaskState::Rejected) => true,
        Some(TaskState::Canceled) => true,
        Some(TaskState::Unspecified) => true,
        _ => false,
    }
}

/// Nothing follows the event.
pub open spec fn is_last(e: TaskEvent) -> bool {
    match e {
        TaskEvent::StatusUpdate(u) => match u.status {
            Some(s) => closes(s.state),
            None => false,
        },
        _ => false,
    }
}

/// What is sent for an event.
pub open spec fn sent_for(e: TaskEvent) -> StreamResponse {
    match e {
        TaskEvent::StatusUpdate(u) => StreamResponse::StatusUpdate(u),
        TaskEvent::ArtifactUpdate(u) => StreamResponse::ArtifactUpdate(u),
        TaskEvent::Message(m) => StreamResponse::Message(m),
    }
}

/// What is sent for an event, and whether nothing follows it.
pub fn task_event_to_v1_response(event: TaskEvent) -> (r: (StreamResponse, bool))
    ensures
        r == (sent_for(event), is_last(event)),
{
    match event {
        TaskEvent::StatusUpdate(u) => {
            let last = match &u.status {
                Some(s) => match TaskState::from_code(s.state) {
                    Some(TaskState::Completed) => true,
                    Some(TaskState::Failed) => true,
                    Some(TaskState::Rejected) => true,
                    Some(TaskState::Canceled) => true,
                    Some(TaskState::Unspecified) => true,
                    _ => false,
                },
                None => false,
            };
            (StreamResponse::StatusUpdate(u), last)
        },
        TaskEvent::ArtifactUpdate(u) => (StreamResponse::ArtifactUpdate(u), false),
        TaskEvent::Message(m) => (StreamResponse::Message(m), false),
    }
}

/// The events up to and with the first after which nothing follows.
pub open spec fn up_to_last(events: Seq<TaskEvent>) -> Seq<TaskEvent>
    decreases events.len(),
{
    if events.len() == 0 {
        Seq::empty()
    } else if is_last(events[0]) {
        seq![events[0]]
    } else {
        seq![events[0]] + up_to_last(events.skip(1))
    }
}

/// Among the events is one after which nothing follows.
pub open spec fn has_last(events: Seq<TaskEvent>) -> bool {
    exists|i: int| 0 <= i < events.len() && is_last(#[trigger] events[i])
}

/// What is sent at once to a client that follows a task: what its events so far call for, up
/// to the first after which nothing follows. The answer tells whether there was such an event.
pub fn initial_responses(events: Vec<TaskEvent>) -> (r: (Vec<StreamResponse>, bool))
    ensures
        r.0@ == up_to_last(events@).map_values(|e: TaskEvent| sent_for(e)),
        r.1 == has_last(events@),
{
    let mut out: Vec<StreamResponse> = Vec::new();
    let ghost all = events@;
    let ghost whole = up_to_last(all).map_values(|e: TaskEvent| sent_for(e));
    let ghost mut sent: Seq<TaskEvent> = Seq::empty();
    proof {
        assert(all.skip(0) =~= all);
        assert(sent + up_to_last(all) =~= up_to_last(all));
        assert(out@ =~= sent.map_values(|e: TaskEvent| sent_for(e)));
    }
    for event in it: events
        invariant
            it.seq() == all,
            whole == up_to_last(all).map_values(|e: TaskEvent| sent_for(e)),
            sent + up_to_last(all.skip(it.index())) == up_to_last(all),
            out@ == sent.map_values(|e: TaskEvent| sent_for(e)),
            forall|j: int| 0 <= j < it.index() ==> !is_last(#[trigger] all[j]),
    {
        let ghost i = it.index();
        proof {
            assert(all.skip(i)[0] == event);
            assert(all.skip(i).skip(1) =~= all.skip(i + 1));
        }
        let ghost before = sent;
        let (response, last) = task_event_to_v1_response(event);
        out.push(response);
        proof {
            sent = sent.push(event);
            assert(out@ =~= sent.map_values(|e: TaskEvent| sent_for(e)));
        }
        if last {
            proof {
                assert(is_last(all[i]));
                assert(before + seq![event] =~= sent);
            }
            return (out, true);
        }
        proof {
            assert(sent + up_to_last(all.skip(i + 1)) =~= before + (seq![event] + up_to_last(
                all.skip(i + 1),
            )));
        }
    }
    proof {
        assert(all.skip(all.len() as int) =~= Seq::<TaskEvent>::empty());
        assert(sent + Seq::<TaskEvent>::empty() =~= sent);
    }
    (out, false)
}

/// A client is sent nothing after an event after which nothing follows: only the end of what
/// is sent can be such an event.
pub proof fn nothing_follows_the_last(events: Seq<TaskEvent>, i: int)
    requires
        0 <= i < up_to_last(events).len() - 1,
    ensures
        !is_last(up_to_last(events)[i]),
    decreases events.len(),
{
    if !is_last(events[0]) && i > 0 {
        nothing_follows_the_last(events.skip(1), i - 1);
        assert(up_to_last(events)[i] == up_to_last(events.skip(1))[i - 1]);
    }
}

// ---------------------------------------------------------------------------
// JSON-RPC
// ---------------------------------------------------------------------------

/// The identifier of a request.
#[derive(Debug)]
pub enum JsonRpcId {
    String(String),
    Integer(i64),
    Null,
}

/// The methods that can be called.
#[derive(Debug, Clone, Copy, PartialEq, Eq, Structural)]
pub enum RpcMethod {
    SendMessage,
    SendStreamingMessage,
    GetTask,
    CancelTask,
    SubscribeToTask,
    GetExtendedAgentCard,
}

/// The method with this name.
pub open spec fn method_named(name: Seq<char>) -> Option<RpcMethod> {
    if name == "SendMessage"@ {
        Some(RpcMethod::SendMessage)
    } else if name == "SendStreamingMessage"@ {
        Some(RpcMethod::SendStreamingMessage)
    } else if name == "GetTask"@ {
        Some(RpcMethod::GetTask)
    } else if name == "CancelTask"@ {
        Some(RpcMethod::CancelTask)
    } else if name == "SubscribeToTask"@ {
        Some(RpcMethod::SubscribeToTask)
    } else if name == "GetExtendedAgentCard"@ {
        Some(RpcMethod::GetExtendedAgentCard)
    } else {
        None
    }
}

/// The method that a request calls: the request must be in version 2.0, and the method known.
pub fn json_rpc_method(jsonrpc: &str, method: &str) -> (r: Result<RpcMethod, AgentError>)
    ensures
        if jsonrpc@ != "2.0"@ {
            r matches Err(e) && e@ == (ErrorView::Validation {
                field: "jsonrpc"@,
                reason: "expected `2.0`, got `"@ + jsonrpc@ + "`"@,
            })
        } else {
            match method_named(method@) {
                Some(m) => r == Ok::<RpcMethod, AgentError>(m),
                None => r matches Err(e) && e@ == (ErrorView::NotImplemented {
                    feature: "JSON-RPC method `"@ + method@ + "`"@,
                }),
            }
        },
{
    if !same_text(jsonrpc, "2.0") {
        return Err(
            AgentError::Validation {
                field: "jsonrpc".to_owned(),
                reason: concat3("expected `2.0`, got `", jsonrpc, "`"),
            },
        );
    }
    if same_text(method, "SendMessage") {
        Ok(RpcMethod::SendMessage)
    } else if same_text(method, "SendStreamingMessage") {
        Ok(RpcMethod::SendStreamingMessage)
    } else if same_text(method, "GetTask") {
        Ok(RpcMethod::GetTask)
    } else if same_text(method, "CancelTask") {
        Ok(RpcMethod::CancelTask)
    } else if same_text(method, "SubscribeToTask") {
        Ok(RpcMethod::SubscribeToTask)
    } else if same_text(method, "GetExtendedAgentCard") {
        Ok(RpcMethod::GetExtendedAgentCard)
    } else {
        Err(AgentError::NotImplemented { feature: concat3("JSON-RPC method `", method, "`") })
    }
}

/// The name of a method.
pub fn method_name(method: RpcMethod) -> (r: &'static str)
    ensures
        method_named(r@) == Some(method),
{
    proof {
        reveal_strlit("SendMessage");
        reveal_strlit("SendStreamingMessage");
        reveal_strlit("GetTask");
        reveal_strlit("CancelTask");
        reveal_strlit("SubscribeToTask");
        reveal_strlit("GetExtendedAgentCard");
        assert("SendMessage"@.len() == 11);
        assert("SendStreamingMessage"@.len() == 20);
        assert("GetTask"@.len() == 7);
        assert("CancelTask"@.len() == 10);
        assert("SubscribeToTask"@.len() == 15);
        assert("GetExtendedAgentCard"@.len() == 20);
        assert("SendStreamingMessage"@[0] == 'S');
        assert("GetExtendedAgentCard"@[0] == 'G');
    }
    match method {
        RpcMethod::SendMessage => "SendMessage",
        RpcMethod::SendStreamingMessage => "SendStreamingMessage",
        RpcMethod::GetTask => "GetTask",
        RpcMethod::CancelTask => "CancelTask",
        RpcMethod::SubscribeToTask => "SubscribeToTask",
        RpcMethod::GetExtendedAgentCard => "GetExtendedAgentCard",
    }
}

/// The body of a request, read. `parsed` is what reading it gave, `context` what it was to be.
pub fn parse_json_body<T>(parsed: Result<T, String>, context: &str) -> (r: Result<T, AgentError>)
    ensures
        match parsed {
            Ok(v) => r == Ok::<T, AgentError>(v),
            Err(m) => r matches Err(e) && e@ == (ErrorView::Serialization {
                format: "json"@,
                reason: "failed to parse "@ + context@ + ": "@ + m@,
            }),
        },
{
    match parsed {
        Ok(v) => Ok(v),
        Err(m) => Err(
            AgentError::Serialization {
                format: "json".to_owned(),
                reason: concat4("failed to parse ", context, ": ", m.as_str()),
            },
        ),
    }
}

/// The parameters of a call, read. `parsed` is what reading them gave.
pub fn parse_rpc_params<T>(parsed: Result<T, String>, method: &str) -> (r: Result<T, AgentError>)
    ensures
        match parsed {
            Ok(v) => r == Ok::<T, AgentError>(v),
            Err(m) => r matches Err(e) && e@ == (ErrorView::Serialization {
                format: "json"@,
                reason: "failed to parse params for "@ + method@ + ": "@ + m@,
            }),
        },
{
    match parsed {
        Ok(v) => Ok(v),
        Err(m) => Err(
            AgentError::Serialization {
                format: "json".to_owned(),
                reason: concat4("failed to parse params for ", method, ": ", m.as_str()),
            },
        ),
    }
}

/// The identifier of a request as JSON; none is null.
pub open spec fn id_json(id: Option<JsonRpcId>) -> Json {
    match id {
        Some(JsonRpcId::String(s)) => Json::Text(s@),
        Some(JsonRpcId::Integer(n)) => Json::Number(
            if n >= 0 {
                JsonNumber::PosInt(n as u64)
            } else {
                JsonNumber::NegInt(n)
            },
        ),
        Some(JsonRpcId::Null) => Json::Null,
        None => Json::Null,
    }
}

fn json_id(id: &Option<JsonRpcId>) -> (r: JsonValue)
    ensures
        r@ == id_json(*id),
{
    match id {
        Some(JsonRpcId::String(s)) => JsonValue::text(s.as_str()),
        Some(JsonRpcId::Integer(n)) => {
            let n: i64 = *n;
            if n >= 0 {
                JsonValue::Number(JsonNumber::PosInt(n as u64))
            } else {
                JsonValue::Number(JsonNumber::NegInt(n))
            }
        },
        Some(JsonRpcId::Null) => JsonValue::Null,
        None => JsonValue::Null,
    }
}

/// The answer to a call that succeeded.
pub fn build_jsonrpc_success_response(request_id: &Option<JsonRpcId>, result: JsonValue) -> (r:
    JsonValue)
    ensures
        r@ == object3(
            "jsonrpc"@,
            Json::Text("2.0"@),
            "result"@,
            result@,
            "id"@,
            id_json(*request_id),
        ),
{
    JsonValue::object3(
        "jsonrpc",
        JsonValue::text("2.0"),
        "result",
        result,
        "id",
        json_id(request_id),
    )
}

/// The answer to a call that failed; `error` is the error as JSON.
pub fn build_jsonrpc_error_response(request_id: &Option<JsonRpcId>, error: JsonValue) -> (r:
    JsonValue)
    ensures
        r@ == object3(
            "jsonrpc"@,
            Json::Text("2.0"@),
            "error"@,
            error@,
            "id"@,
            id_json(*request_id),
        ),
{
    JsonValue::object3(
        "jsonrpc",
        JsonValue::text("2.0"),
        "error",
        error,
        "id",
        json_id(request_id),
    )
}

// ---------------------------------------------------------------------------
// Routes of tasks
// ---------------------------------------------------------------------------

/// What a path ends with.
pub open spec fn ends_with(s: Seq<char>, end: Seq<char>) -> bool {
    end.len() <= s.len() && s.skip(s.len() - end.len()) == end
}

/// The path without its end, where it ends so.
pub fn strip_suffix(path: &str, end: &str) -> (r: Option<String>)
    ensures
        match r {
            Some(s) => ends_with(path@, end@) && s@ == path@.take(path@.len() - end@.len()),
            None => !ends_with(path@, end@),
        },
{
    let v = chars_of(path);
    let e = chars_of(end);
    if e.len() > v.len() {
        return None;
    }
    let n: usize = v.len() - e.len();
    let found = crate::text::stands_at(&v, &e, n);
    proof {
        assert(path@.subrange(n as int, n + end@.len()) =~= path@.skip(n as int));
    }
    if found {
        proof {
            assert(v@.subrange(0, n as int) =~= path@.take(n as int));
        }
        Some(string_of_range(&v, 0, n))
    } else {
        None
    }
}

/// What is asked of a task by reading it.
#[derive(Debug)]
pub enum TaskGetRoute {
    Subscribe { task_id: String },
    Get { task_id: String },
}

/// What is asked of a task by posting to it.
#[derive(Debug)]
pub enum TaskPostRoute {
    Cancel { task_id: String },
    Unsupported { error: String },
}

/// What is asked of a task by reading it: to follow it, or to see it.
pub fn task_get_route(task_path: &str) -> (r: TaskGetRoute)
    ensures
        match r {
            TaskGetRoute::Subscribe { task_id } => ends_with(task_path@, ":subscribe"@) && task_id@
                == task_path@.take(task_path@.len() - ":subscribe"@.len()),
            TaskGetRoute::Get { task_id } => !ends_with(task_path@, ":subscribe"@) && task_id@
                == task_path@,
        },
{
    match strip_suffix(task_path, ":subscribe") {
        Some(task_id) => TaskGetRoute::Subscribe { task_id },
        None => TaskGetRoute::Get { task_id: task_path.to_owned() },
    }
}

/// What is asked of a task by posting to it: to cancel it; nothing else can be asked.
pub fn task_post_route(task_path: &str) -> (r: TaskPostRoute)
    ensures
        match r {
            TaskPostRoute::Cancel { task_id } => ends_with(task_path@, ":cancel"@) && task_id@
                == task_path@.take(task_path@.len() - ":cancel"@.len()),
            TaskPostRoute::Unsupported { error } => !ends_with(task_path@, ":cancel"@) && error@
                == "unsupported task route `/tasks/"@ + task_path@ + "`"@,
        },
{
    match strip_suffix(task_path, ":cancel") {
        Some(task_id) => TaskPostRoute::Cancel { task_id },
        None => TaskPostRoute::Unsupported {
            error: concat3("unsupported task route `/tasks/", task_path, "`"),
        },
    }
}

// ---------------------------------------------------------------------------
// Views for the developer
// ---------------------------------------------------------------------------

/// A change of the state of a task.
#[derive(Debug)]
pub struct StateTransition {
    pub from_state: Option<String>,
    pub to_state: String,
    pub timestamp: String,
    pub trigger: String,
}

/// The changes of the state of a task.
#[derive(Debug)]
pub struct TaskTransitionsResponse {
    pub transitions: Vec<StateTransition>,
}

/// The model of a change.
pub struct TransitionModel {
    pub from_state: Option<Seq<char>>,
    pub to_state: Seq<char>,
    pub timestamp: Seq<char>,
    pub trigger: Seq<char>,
}

impl View for StateTransition {
    type V = TransitionModel;

    open spec fn view(&self) -> TransitionModel {
        TransitionModel {
            from_state: crate::tools::optional_chars(self.from_state),
            to_state: self.to_state@,
            timestamp: self.timestamp@,
            trigger: self.trigger@,
        }
    }
}

/// The models of a row of changes.
pub open spec fn transition_models(v: Seq<StateTransition>) -> Seq<TransitionModel> {
    Seq::new(v.len(), |i: int| v[i]@)
}

/// The status that an event brings.
pub open spec fn event_status(e: TaskEvent) -> Option<TaskStatus> {
    match e {
        TaskEvent::StatusUpdate(u) => u.status,
        _ => None,
    }
}

/// The state that the last status among events brings.
pub open spec fn last_state(events: Seq<TaskEvent>) -> Option<i32>
    decreases events.len(),
{
    if events.len() == 0 {
        None
    } else {
        match event_status(events.last()) {
            Some(s) => Some(s.state),
            None => last_state(events.drop_last()),
        }
    }
}

/// What caused a change.
pub open spec fn trigger_of(before: Option<TaskState>, now: TaskState) -> Seq<char> {
    if before is None && (now == TaskState::Submitted || now == TaskState::Working) {
        "on_request"@
    } else if before == Some(TaskState::InputRequired) && now == TaskState::Working {
        "on_input_received"@
    } else {
        "status_update"@
    }
}

/// The change that a status brings after a state.
pub open spec fn transition(before: Option<i32>, status: TaskStatus, now: Seq<char>) -> TransitionModel {
    let prev = match before {
        Some(c) => TaskState::of_code(c),
        None => None,
    };
    let current = match TaskState::of_code(status.state) {
        Some(s) => s,
        None => TaskState::Unspecified,
    };
    let time = match status.timestamp {
        Some(t) => timestamp_text(t),
        None => None,
    };
    TransitionModel {
        from_state: match prev {
            Some(s) => Some(s.name()),
            None => None,
        },
        to_state: current.name(),
        timestamp: match time {
            Some(t) => t,
            None => now,
        },
        trigger: trigger_of(prev, current),
    }
}

/// The changes that events bring, in order; those without a time are given `now`.
pub open spec fn transitions_of(events: Seq<TaskEvent>, now: Seq<char>) -> Seq<TransitionModel>
    decreases events.len(),
{
    if events.len() == 0 {
        Seq::empty()
    } else {
        let before = transitions_of(events.drop_last(), now);
        match event_status(events.last()) {
            Some(s) => before.push(transition(last_state(events.drop_last()), s, now)),
            None => before,
        }
    }
}

fn trigger_text(before: Option<TaskState>, now: TaskState) -> (r: String)
    ensures
        r@ == trigger_of(before, now),
{
    match (before, now) {
        (None, TaskState::Submitted) => "on_request".to_owned(),
        (None, TaskState::Working) => "on_request".to_owned(),
        (Some(TaskState::InputRequired), TaskState::Working) => "on_input_received".to_owned(),
        _ => "status_update".to_owned(),
    }
}

fn read_transition(before: Option<i32>, status: &TaskStatus, now: &str) -> (r: StateTransition)
    ensures
        r@ == transition(before, *status, now@),
{
    let prev = match before {
        Some(c) => TaskState::from_code(c),
        None => None,
    };
    let current = match TaskState::from_code(status.state) {
        Some(s) => s,
        None => TaskState::Unspecified,
    };
    let time = match &status.timestamp {
        Some(t) => text_of_timestamp(t),
        None => None,
    };
    StateTransition {
        from_state: match prev {
            Some(s) => Some(s.to_name()),
            None => None,
        },
        to_state: current.to_name(),
        timestamp: match time {
            Some(t) => t,
            None => now.to_owned(),
        },
        trigger: trigger_text(prev, current),
    }
}

/// The changes of the state of a task, from its events. `now` stands for the time of those
/// that tell none.
pub fn fetch_task_transitions(events: &Vec<TaskEvent>, now: &str) -> (r: TaskTransitionsResponse)
    ensures
        transition_models(r.transitions@) == transitions_of(events@, now@),
{
    let mut transitions: Vec<StateTransition> = Vec::new();
    let mut prev_state: Option<i32> = None;
    let mut i: usize = 0;
    proof {
        assert(events@.take(0) =~= Seq::<TaskEvent>::empty());
        assert(transition_models(transitions@) =~= Seq::<TransitionModel>::empty());
    }
    while i < events.len()
        invariant
            i <= events.len(),
            prev_state == last_state(events@.take(i as int)),
            transition_models(transitions@) == transitions_of(events@.take(i as int), now@),
        decreases events.len() - i,
    {
        proof {
            assert(events@.take(i + 1).drop_last() =~= events@.take(i as int));
            assert(events@.take(i + 1).last() == events@[i as int]);
        }
        match &events[i] {
            TaskEvent::StatusUpdate(u) => match &u.status {
                Some(status) => {
                    let t = read_transition(prev_state, status, now);
                    let ghost before = transitions@;
                    transitions.push(t);
                    proof {
                        assert(transition_models(transitions@) =~= transition_models(before).push(
                            t@,
                        ));
                    }
                    prev_state = Some(status.state);
                },
                None => {},
            },
            _ => {},
        }
        i = i + 1;
    }
    proof {
        assert(events@.take(events@.len() as int) =~= events@);
    }
    TaskTransitionsResponse { transitions }
}

/// A task with what is kept of it.
#[derive(Debug)]
pub struct UiTaskSummary {
    pub task: TaskView,
    pub skill_id: Option<String>,
    pub pending_slot: Option<JsonValue>,
}

/// The second of the status of a task.
pub open spec fn status_second(s: UiTaskSummary) -> Option<i64> {
    match status_time(s.task) {
        Some(t) => Some(t.seconds),
        None => None,
    }
}

/// The one is not older than the other; without a time is older than any.
pub open spec fn not_before(a: Option<i64>, b: Option<i64>) -> bool {
    match (a, b) {
        (_, None) => true,
        (None, Some(_)) => false,
        (Some(x), Some(y)) => x >= y,
    }
}

/// A row with one more, put behind all that are not older at the end of the row.
pub open spec fn put_by_time(s: Seq<UiTaskSummary>, x: UiTaskSummary) -> Seq<UiTaskSummary>
    decreases s.len(),
{
    if s.len() == 0 || not_before(status_second(s.last()), status_second(x)) {
        s.push(x)
    } else {
        put_by_time(s.drop_last(), x).push(s.last())
    }
}

/// The tasks by time, the newest first; equally old ones keep their order.
pub open spec fn by_time(s: Seq<UiTaskSummary>) -> Seq<UiTaskSummary>
    decreases s.len(),
{
    if s.len() == 0 {
        Seq::empty()
    } else {
        put_by_time(by_time(s.drop_last()), s.last())
    }
}

fn second_of(s: &UiTaskSummary) -> (r: Option<i64>)
    ensures
        r == status_second(*s),
{
    match &s.task.status {
        Some(status) => match status.timestamp {
            Some(t) => Some(t.seconds),
            None => None,
        },
        None => None,
    }
}

fn is_not_before(a: Option<i64>, b: Option<i64>) -> (r: bool)
    ensures
        r == not_before(a, b),
{
    match (a, b) {
        (_, None) => true,
        (None, Some(_)) => false,
        (Some(x), Some(y)) => x >= y,
    }
}

fn insert_by_time(v: &mut Vec<UiTaskSummary>, x: UiTaskSummary)
    ensures
        final(v)@ == put_by_time(old(v)@, x),
{
    let ghost s = v@;
    let mut j: usize = v.len();
    let key = second_of(&x);
    proof {
        assert(s.take(s.len() as int) =~= s);
        assert(put_by_time(s, x) =~= put_by_time(s.take(j as int), x) + s.skip(j as int));
    }
    while j > 0 && !is_not_before(second_of(&v[j - 1]), key)
        invariant
            j <= v.len(),
            s == v@,
            key == status_second(x),
            put_by_time(s, x) == put_by_time(s.take(j as int), x) + s.skip(j as int),
        decreases j,
    {
        proof {
            let t = s.take(j as int);
            assert(t.last() == s[j - 1]);
            assert(t.drop_last() =~= s.take(j - 1));
            assert(s.skip(j - 1) =~= seq![s[j - 1]] + s.skip(j as int));
            assert(put_by_time(t, x) + s.skip(j as int) =~= put_by_time(s.take(j - 1), x) + s.skip(
                j - 1,
            ));
        }
        j = j - 1;
    }
    proof {
        let t = s.take(j as int);
        if j > 0 {
            assert(t.last() == s[j - 1]);
        }
        assert(put_by_time(t, x) == t.push(x));
    }
    v.insert(j, x);
    proof {
        assert(v@ =~= s.take(j as int).push(x) + s.skip(j as int));
    }
}

/// The tasks of a conversation, the newest first.
pub fn fetch_context_tasks(summaries: Vec<UiTaskSummary>) -> (r: Vec<UiTaskSummary>)
    ensures
        r@ == by_time(summaries@),
{
    let mut out: Vec<UiTaskSummary> = Vec::new();
    let ghost all = summaries@;
    proof {
        assert(all.take(0) =~= Seq::<UiTaskSummary>::empty());
    }
    for summary in it: summaries
        invariant
            it.seq() == all,
            out@ == by_time(all.take(it.index())),
    {
        proof {
            let i = it.index();
            assert(all.take(i + 1).drop_last() =~= all.take(i));
            assert(all.take(i + 1).last() == summary);
        }
        insert_by_time(&mut out, summary);
    }
    proof {
        assert(all.take(all.len() as int) =~= all);
    }
    out
}

proof fn lemma_put_by_time(s: Seq<UiTaskSummary>, x: UiTaskSummary)
    requires
        newest_first(s),
    ensures
        newest_first(put_by_time(s, x)),
        put_by_time(s, x).to_multiset() =~= s.to_multiset().insert(x),
        put_by_time(s, x).len() == s.len() + 1,
        s.len() > 0 && !not_before(status_second(s.last()), status_second(x)) ==> put_by_time(
            s,
            x,
        ).last() == s.last(),
        !(s.len() > 0 && !not_before(status_second(s.last()), status_second(x))) ==> put_by_time(
            s,
            x,
        ).last() == x,
    decreases s.len(),
{
    broadcast use vstd::seq_lib::group_to_multiset_ensures;

    if s.len() == 0 || not_before(status_second(s.last()), status_second(x)) {
        let r = s.push(x);
        assert forall|i: int, j: int| 0 <= i < j < r.len() implies not_before(
            status_second(#[trigger] r[i]),
            status_second(#[trigger] r[j]),
        ) by {
            assert(r[i] == s[i]);
            if j < s.len() {
                assert(r[j] == s[j]);
            } else if i < s.len() - 1 {
                assert(not_before(status_second(s[i]), status_second(s[s.len() - 1])));
            }
        }
    } else {
        let t = s.drop_last();
        let l = s.last();
        assert forall|i: int, j: int| 0 <= i < j < t.len() implies not_before(
            status_second(#[trigger] t[i]),
            status_second(#[trigger] t[j]),
        ) by {
            assert(t[i] == s[i] && t[j] == s[j]);
        }
        lemma_put_by_time(t, x);
        let u = put_by_time(t, x);
        let r = u.push(l);
        assert(not_before(status_second(u.last()), status_second(l))) by {
            if t.len() > 0 && !not_before(status_second(t.last()), status_second(x)) {
                assert(s[s.len() - 2] == t.last());
                assert(not_before(status_second(s[s.len() - 2]), status_second(s[s.len() - 1])));
            }
        }
        assert forall|i: int, j: int| 0 <= i < j < r.len() implies not_before(
            status_second(#[trigger] r[i]),
            status_second(#[trigger] r[j]),
        ) by {
            assert(r[i] == u[i]);
            if j < u.len() {
                assert(r[j] == u[j]);
            } else if i < u.len() - 1 {
                assert(not_before(status_second(u[i]), status_second(u[u.len() - 1])));
            }
        }
        assert(s =~= t.push(l));
    }
}

/// A row of tasks with the newest first.
pub open spec fn newest_first(s: Seq<UiTaskSummary>) -> bool {
    forall|i: int, j: int|
        0 <= i < j < s.len() ==> not_before(
            status_second(#[trigger] s[i]),
            status_second(#[trigger] s[j]),
        )
}

/// Ordering tasks by time puts the newest first, and neither loses nor adds a task.
pub proof fn ordered_by_time(s: Seq<UiTaskSummary>)
    ensures
        newest_first(by_time(s)),
        by_time(s).to_multiset() =~= s.to_multiset(),
    decreases s.len(),
{
    broadcast use vstd::seq_lib::group_to_multiset_ensures;

    if s.len() > 0 {
        ordered_by_time(s.drop_last());
        lemma_put_by_time(by_time(s.drop_last()), s.last());
        assert(s =~= s.drop_last().push(s.last()));
    }
}

/// An event as the developer sees it.
#[derive(Debug)]
pub struct UiTaskEvent {
    pub result: StreamResponse,
    pub is_final: bool,
}

/// The events of a task as the developer sees them, and the task where it is stored.
#[derive(Debug)]
pub struct UiTaskEventsResponse {
    pub events: Vec<UiTaskEvent>,
    pub task: Option<TaskView>,
}

/// The events of a task, and the task where it is stored. Once there was an event after which
/// nothing follows, the task itself comes last.
pub fn fetch_task_events(events: Vec<TaskEvent>, task: Option<TaskView>) -> (r: UiTaskEventsResponse)
    ensures
        r.task == task,
        forall|i: int|
            0 <= i < events@.len() ==> (#[trigger] r.events@[i]) == (UiTaskEvent {
                result: sent_for(events@[i]),
                is_final: is_last(events@[i]),
            }),
        if has_last(events@) && task is Some {
            &&& r.events@.len() == events@.len() + 1
            &&& r.events@.last().is_final
            &&& r.events@.last().result matches StreamResponse::Task(t) && t@ == task->Some_0@
        } else {
            r.events@.len() == events@.len()
        },
{
    let mut out: Vec<UiTaskEvent> = Vec::new();
    let mut final_seen = false;
    let ghost all = events@;
    for event in it: events
        invariant
            it.seq() == all,
            out@.len() == it.index(),
            final_seen == exists|j: int| 0 <= j < it.index() && is_last(#[trigger] all[j]),
            forall|j: int|
                0 <= j < out@.len() ==> (#[trigger] out@[j]) == (UiTaskEvent {
                    result: sent_for(all[j]),
                    is_final: is_last(all[j]),
                }),
    {
        let ghost i = it.index();
        proof {
            assert(all[i] == event);
        }
        let (result, is_final) = task_event_to_v1_response(event);
        if is_final {
            final_seen = true;
            proof {
                assert(is_last(all[i]));
            }
        }
        out.push(UiTaskEvent { result, is_final });
    }
    if final_seen {
        match &task {
            Some(t) => {
                out.push(UiTaskEvent { result: StreamResponse::Task(t.clone()), is_final: true });
            },
            None => {},
        }
    }
    UiTaskEventsResponse { events: out, task }
}

} // verus!
