//! Laws of what values stand for: nothing of a value is left out of its model, changed in it or
//! mixed up with something else.

use crate::a2a::{
    artifact_models, message_models, task_event_models, Artifact, Message, Task, TaskEvent,
    TaskEventModel, TaskStatus, TaskView,
};
use crate::agent::agentskill::{file_gives, gives, AgentSkillDef};
use crate::agent::builder::{Agent, AgentBuilder};
use crate::agent::frontmatter::{split_file, SkillFrontmatter};
use crate::errors::AgentError;
use crate::json::{models, Json, JsonValue};
use crate::models::{
    event_models, part_models, Content, ContentPart, DataPart, DataSource, Event, PartModel,
};
use crate::runtime::context::State;
use crate::runtime::execution::executor::{effect_models, EffectModel, StoreEffect};
use crate::runtime::memory::service::{content_models, entry_models};
use crate::runtime::memory::types::{
    ContentSource, MemoryContent, MemoryEntry, SearchOptions, SourceModel, SourceType,
};
use crate::text::texts;
use crate::tools::{ToolCall, ToolResponse, ToolResult};
use vstd::prelude::*;

verus! {

/// A JSON value stands for itself: null, a truth value, a text, its items in order.
pub proof fn json_values_stand_for_themselves(v: JsonValue, i: int)
    ensures
        v is Null <==> v@ == Json::Null,
        v matches JsonValue::Bool(b) ==> v@ == Json::Bool(b),
        v matches JsonValue::String(s) ==> v@ == Json::Text(s@),
        v matches JsonValue::Array(items) ==> v@ == Json::Array(models(items@)),
        v matches JsonValue::Array(items) ==> models(items@).len() == items@.len(),
        v matches JsonValue::Array(items) ==> 0 <= i < items@.len() ==> models(items@)[i]
            == items@[i]@,
        v matches JsonValue::Object(m) ==> v@ == Json::Object(m@),
        v is Number <==> v@ is Number,
{
}

/// A part of content stands for its text, its data with their type, its call or its answer.
pub proof fn parts_stand_for_what_they_hold(p: ContentPart)
    ensures
        p matches ContentPart::Text(t) ==> p@ == PartModel::Text(t@),
        p matches ContentPart::Data(DataPart { content_type, source: DataSource::Base64(d) })
            ==> p@ == (PartModel::Base64 { content_type: content_type@, data: d@ }),
        p matches ContentPart::Data(DataPart { content_type, source: DataSource::Uri(u) }) ==> p@
            == (PartModel::Uri { content_type: content_type@, uri: u@ }),
        p matches ContentPart::ToolCall(c) ==> p@ == PartModel::ToolCall(c@),
        p matches ContentPart::ToolResponse(r) ==> p@ == PartModel::ToolResponse(r@),
{
}

/// A call, a result and an answer of a tool stand for all that they hold.
pub proof fn tools_stand_for_what_they_hold(c: ToolCall, r: ToolResult, a: ToolResponse)
    ensures
        c@.id == c.id@,
        c@.name == c.name@,
        c@.arguments == c.arguments@,
        c.provider_metadata is Some <==> c@.provider_metadata is Some,
        c.provider_metadata matches Some(m) ==> c@.provider_metadata == Some(m@),
        r@.success == r.success,
        r@.data == r.data@,
        r.error_message is Some <==> r@.error_message is Some,
        r.error_message matches Some(m) ==> r@.error_message == Some(m@),
        a@.tool_call_id == a.tool_call_id@,
        a@.result == a.result@,
{
}

/// A row stands for what its items stand for, all of them and in order.
pub proof fn rows_stand_for_their_items(
    parts: Seq<ContentPart>,
    events: Seq<Event>,
    messages: Seq<Message>,
    artifacts: Seq<Artifact>,
    news: Seq<TaskEvent>,
    effects: Seq<StoreEffect>,
    i: int,
)
    ensures
        part_models(parts).len() == parts.len(),
        0 <= i < parts.len() ==> part_models(parts)[i] == parts[i]@,
        event_models(events).len() == events.len(),
        0 <= i < events.len() ==> event_models(events)[i] == events[i]@,
        message_models(messages).len() == messages.len(),
        0 <= i < messages.len() ==> message_models(messages)[i] == messages[i]@,
        artifact_models(artifacts).len() == artifacts.len(),
        0 <= i < artifacts.len() ==> artifact_models(artifacts)[i] == artifacts[i]@,
        task_event_models(news).len() == news.len(),
        0 <= i < news.len() ==> task_event_models(news)[i] == news[i]@,
        effect_models(effects).len() == effects.len(),
        0 <= i < effects.len() ==> effect_models(effects)[i] == effects[i]@,
{
}

/// A row of memories or of texts stands for what its items stand for, all of them and in order.
pub proof fn kept_rows_stand_for_their_items(
    contents: Seq<MemoryContent>,
    entries: Seq<MemoryEntry>,
    strings: Seq<String>,
    i: int,
)
    ensures
        content_models(contents).len() == contents.len(),
        0 <= i < contents.len() ==> content_models(contents)[i] == contents[i]@,
        entry_models(entries).len() == entries.len(),
        0 <= i < entries.len() ==> entry_models(entries)[i] == entries[i]@,
        texts(strings).len() == strings.len(),
        0 <= i < strings.len() ==> texts(strings)[i] == strings[i]@,
{
}

/// What is said, by whom, in which conversation and to which task.
pub proof fn messages_stand_for_what_they_say(m: Message, e: Event, c: Content)
    ensures
        m@.message_id == m.message_id@,
        m@.context_id == m.context_id@,
        m@.task_id == m.task_id@,
        m@.role == m.role,
        m@.content == m.content@,
        e@.role == e.role,
        e@.content == e.content@,
        c@ == part_models(c.parts@),
{
}

/// A task stands for its name, its conversation, its status and its artifacts, and as it is
/// told to a client for its history too.
pub proof fn tasks_stand_for_what_they_are(t: Task, v: TaskView, s: TaskStatus, a: Artifact)
    ensures
        t@.id == t.id@,
        t@.context_id == t.context_id@,
        t@.status == t.status@,
        t@.artifacts == artifact_models(t.artifacts@),
        v@.id == v.id@,
        v@.context_id == v.context_id@,
        v.status is Some <==> v@.status is Some,
        v.status matches Some(x) ==> v@.status == Some(x@),
        v@.history == message_models(v.history@),
        v@.artifacts == artifact_models(v.artifacts@),
        s@.state == s.state,
        s@.timestamp == s.timestamp,
        s.message is Some <==> s@.message is Some,
        s.message matches Some(m) ==> s@.message == Some(m@),
        a@.artifact_id == a.artifact_id@,
        a@.name == a.name@,
        a@.description == a.description@,
        a@.content == a.content@,
        a.metadata is Some <==> a@.metadata is Some,
        a.metadata matches Some(m) ==> a@.metadata == Some(m@),
{
}

/// An event stands for what happened: a status, an artifact or a message.
pub proof fn events_stand_for_what_happened(e: TaskEvent)
    ensures
        e matches TaskEvent::Message(m) ==> e@ == TaskEventModel::Message(m@),
        e matches TaskEvent::StatusUpdate(u) ==> (e@ matches TaskEventModel::StatusUpdate {
            task_id,
            context_id,
            status,
            is_final,
        } && task_id == u.task_id@ && context_id == u.context_id@ && is_final == u.is_final && (
        u.status is Some <==> status is Some) && (u.status matches Some(s) ==> status == Some(s@))),
        e matches TaskEvent::ArtifactUpdate(u) ==> (e@ matches TaskEventModel::ArtifactUpdate {
            task_id,
            context_id,
            artifact,
            append,
            last_chunk,
        } && task_id == u.task_id@ && context_id == u.context_id@ && append == u.append
            && last_chunk == u.last_chunk && (u.artifact is Some <==> artifact is Some) && (
        u.artifact matches Some(a) ==> artifact == Some(a@))),
{
}

/// What is to be stored stands for what it stores, and where.
pub proof fn effects_stand_for_what_they_store(e: StoreEffect)
    ensures
        e matches StoreEffect::SaveTask(t) ==> e@ == EffectModel::SaveTask(t@),
        e matches StoreEffect::PushEvent(x) ==> e@ == EffectModel::PushEvent(x@),
        e matches StoreEffect::SetTaskSkill { task_id, skill_id } ==> e@ == (
        EffectModel::SetTaskSkill { task_id: task_id@, skill_id: skill_id@ }),
        e matches StoreEffect::SaveTaskState { task_id, state } ==> e@ == (
        EffectModel::SaveTaskState { task_id: task_id@, state: state@ }),
        e matches StoreEffect::SaveSessionState { context_id, state } ==> e@ == (
        EffectModel::SaveSessionState { context_id: context_id@, state: state@ }),
{
}

/// What a skill can keep stands for what it keeps for the task and for the conversation.
pub proof fn states_stand_for_what_they_keep(s: State)
    ensures
        s@.task.data == s.task.data@,
        s.task.slot is Some <==> s@.task.slot is Some,
        s.task.slot matches Some(v) ==> s@.task.slot == Some(v@),
        s@.session == s.session.data@,
{
}

/// A memory stands for its text, its source and its metadata, and as it is found for its
/// identifier and its relevance too.
pub proof fn memories_stand_for_what_they_hold(c: MemoryContent, e: MemoryEntry, s: ContentSource)
    ensures
        c@.text == c.text@,
        c@.source == c.source@,
        c@.metadata == c.metadata@,
        e@.id == e.id@,
        e@.content.text == e.text@,
        e@.content.source == e.source@,
        e@.content.metadata == e.metadata@,
        e@.score == e.score,
        s matches ContentSource::PastConversation { context_id, message_id, role } ==> s@ == (
        SourceModel::PastConversation {
            context_id: context_id@,
            message_id: message_id@,
            role: role@,
        }),
        s matches ContentSource::UserFact { category: Some(c) } ==> s@ == (SourceModel::UserFact {
            category: Some(c@),
        }),
        s matches ContentSource::UserFact { category: None } ==> s@ == (SourceModel::UserFact {
            category: None,
        }),
        s matches ContentSource::Document { document_id, name, chunk_index, total_chunks } ==> s@
            == (SourceModel::Document {
            document_id: document_id@,
            name: name@,
            chunk_index: chunk_index as nat,
            total_chunks: total_chunks as nat,
        }),
        s matches ContentSource::External { source_name, source_id: Some(n) } ==> s@ == (
        SourceModel::External { source_name: source_name@, source_id: Some(n@) }),
        s matches ContentSource::External { source_name, source_id: None } ==> s@ == (
        SourceModel::External { source_name: source_name@, source_id: None }),
{
}

/// The head of a skill file stands for all that it says.
pub proof fn heads_stand_for_what_they_say(f: SkillFrontmatter)
    ensures
        f@.name == f.name@,
        f@.description == f.description@,
        f.license is Some <==> f@.license is Some,
        f.license matches Some(x) ==> f@.license == Some(x@),
        f.compatibility is Some <==> f@.compatibility is Some,
        f.compatibility matches Some(x) ==> f@.compatibility == Some(x@),
        f.allowed_tools is Some <==> f@.allowed_tools is Some,
        f.allowed_tools matches Some(x) ==> f@.allowed_tools == Some(x@),
{
}

/// A skill file that cannot be split gives no skill; from another, what stands between its
/// fences is read, and the skill is what that gives.
pub proof fn files_are_read_between_their_fences<
    F: FnOnce(&str) -> Result<SkillFrontmatter, String>,
>(
    content: Seq<char>,
    dir_name: Seq<char>,
    parse: F,
    r: Result<AgentSkillDef, AgentError>,
)
    requires
        file_gives(content, dir_name, parse, r),
    ensures
        split_file(content) matches Err(e) ==> r is Err && r->Err_0@ == e,
        split_file(content) matches Ok((yaml, body)) ==> exists|
            y: &str,
            head: Result<SkillFrontmatter, String>,
        |
            y@ == yaml && #[trigger] call_ensures(parse, (y,), head) && gives(
                head,
                body,
                dir_name,
                r,
            ),
{
    match split_file(content) {
        Err(_) => {},
        Ok((yaml, body)) => {
            let head = choose|head: Result<SkillFrontmatter, String>| #[trigger]
                crate::agent::frontmatter::parsed(parse, yaml, head) && gives(
                    head,
                    body,
                    dir_name,
                    r,
                );
            let y = choose|y: &str| y@ == yaml && #[trigger] call_ensures(parse, (y,), head);
            assert(call_ensures(parse, (y,), head));
        },
    }
}

/// An agent begins without a name, a description, a prompt and skills, in version 0.0.1.
pub proof fn agents_begin_with_nothing<H>(b: AgentBuilder<H>)
    requires
        call_ensures(Agent::builder::<H>, (), b),
    ensures
        b.inner.name@.len() == 0,
        b.inner.version@ == "0.0.1"@,
        b.inner.description is None,
        b.inner.dispatcher_prompt is None,
        b.inner.skills@.len() == 0,
        b.pending_skill_defs@.len() == 0,
{
}

/// The usual searches of the history and of the knowledge ask for their types and for nothing
/// else.
pub proof fn usual_searches_ask_for_their_types(
    history: SearchOptions,
    knowledge: SearchOptions,
)
    requires
        call_ensures(SearchOptions::history_only, (), history),
        call_ensures(SearchOptions::knowledge_only, (), knowledge),
    ensures
        history.limit is None,
        history.min_score is None,
        history.metadata_filter is None,
        history.source_types matches Some(t) && t@ == seq![
            SourceType::PastConversation,
            SourceType::UserFact,
        ],
        knowledge.limit is None,
        knowledge.min_score is None,
        knowledge.metadata_filter is None,
        knowledge.source_types matches Some(t) && t@ == seq![
            SourceType::Document,
            SourceType::External,
        ],
{
}

} // verus!
