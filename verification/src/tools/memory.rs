//! Tools with which a model reaches long-term memory.
//!
//! The tools act for the user they were made for, or else for the one that the state of the
//! execution names.

use crate::errors::AgentError;
use crate::json::{
    lemma_models_push, models, object2, object3, Json, JsonMap, JsonNumber, JsonValue,
};
use crate::runtime::context::AuthContext;
use crate::runtime::memory::facades::{limited, searched, user_fact};
use crate::runtime::memory::service::{
    adds, lemma_insert_keeps_others, others_kept, place, MemoryService,
};
use crate::runtime::memory::types::{
    history_types, knowledge_types, ContentSource, MemoryContent, MemoryEntry, Score,
    SearchOptions, SourceModel, SourceType,
};
use crate::text::{byte_len, concat2, len_in_bytes};
use crate::tools::{FunctionDeclaration, ResultModel, ToolResult};
use vstd::prelude::*;

verus! {

/// The largest content that is saved, in bytes.
pub const MAX_CONTENT_LENGTH: usize = 4000;

/// Searches past conversations and user facts.
pub struct LoadMemoryTool<S: MemoryService> {
    pub memory_service: S,
    pub auth_context: Option<AuthContext>,
}

/// Saves what is to be remembered of the user.
pub struct SaveMemoryTool<S: MemoryService> {
    pub memory_service: S,
    pub auth_context: Option<AuthContext>,
}

/// Searches documents and external sources.
pub struct SearchKnowledgeTool<S: MemoryService> {
    pub memory_service: S,
    pub auth_context: Option<AuthContext>,
}

// ---------------------------------------------------------------------------
// For whom
// ---------------------------------------------------------------------------

/// For whom a tool acts: for whom it was made, or for whom the state of the execution names.
/// `state` is what reading that state gave.
pub open spec fn acting_for(
    captured: Option<AuthContext>,
    state: Option<Result<AuthContext, String>>,
) -> Result<(Seq<char>, Seq<char>), Seq<char>> {
    match captured {
        Some(a) => Ok(a@),
        None => match state {
            Some(Ok(a)) => Ok(a@),
            Some(Err(m)) => Err("Invalid auth context: "@ + m@),
            None => Err("No auth context available"@),
        },
    }
}

/// For whom a tool acts.
pub fn resolve_auth(
    captured: &Option<AuthContext>,
    state: Option<Result<AuthContext, String>>,
) -> (r: Result<AuthContext, String>)
    ensures
        match r {
            Ok(a) => acting_for(*captured, state) == Ok::<(Seq<char>, Seq<char>), Seq<char>>(a@),
            Err(m) => acting_for(*captured, state) == Err::<(Seq<char>, Seq<char>), Seq<char>>(m@),
        },
{
    match captured {
        Some(a) => Ok(a.clone()),
        None => match state {
            Some(Ok(a)) => Ok(a),
            Some(Err(m)) => Err(concat2("Invalid auth context: ", m.as_str())),
            None => Err("No auth context available".to_owned()),
        },
    }
}

// ---------------------------------------------------------------------------
// Searching
// ---------------------------------------------------------------------------

/// The text that an argument is.
pub open spec fn text_argument(args: Map<Seq<char>, Json>, key: Seq<char>) -> Option<Seq<char>> {
    if args.contains_key(key) {
        args[key].text()
    } else {
        None
    }
}

/// How many results are asked for: 5 where none are given, and at most 10.
pub open spec fn limit_argument(args: Map<Seq<char>, Json>) -> usize {
    let given = if args.contains_key("limit"@) {
        args["limit"@].unsigned()
    } else {
        None
    };
    match given {
        Some(n) => if n < 10 {
            n as usize
        } else {
            10
        },
        None => 5,
    }
}

fn text_of<'a>(args: &'a JsonMap, key: &str) -> (r: Option<&'a str>)
    ensures
        match r {
            Some(s) => text_argument(args@, key@) == Some(s@),
            None => text_argument(args@, key@) is None,
        },
{
    match args.get(key) {
        Some(v) => v.as_str(),
        None => None,
    }
}

fn limit_of(args: &JsonMap) -> (r: usize)
    ensures
        r == limit_argument(args@),
{
    let given = match args.get("limit") {
        Some(v) => v.as_u64(),
        None => None,
    };
    match given {
        Some(n) => if n < 10 {
            n as usize
        } else {
            10
        },
        None => 5,
    }
}

/// A source as JSON.
pub open spec fn source_json(s: SourceModel) -> Json {
    let m = Map::<Seq<char>, Json>::empty();
    match s {
        SourceModel::PastConversation { context_id, message_id, role } => Json::Object(
            m.insert("type"@, Json::Text("past_conversation"@)).insert(
                "context_id"@,
                Json::Text(context_id),
            ).insert("message_id"@, Json::Text(message_id)).insert("role"@, Json::Text(role)),
        ),
        SourceModel::UserFact { category } => Json::Object(
            m.insert("type"@, Json::Text("user_fact"@)).insert(
                "category"@,
                optional_text_json(category),
            ),
        ),
        SourceModel::Document { document_id, name, chunk_index, total_chunks } => Json::Object(
            m.insert("type"@, Json::Text("document"@)).insert(
                "document_id"@,
                Json::Text(document_id),
            ).insert("name"@, Json::Text(name)).insert(
                "chunk_index"@,
                Json::Number(JsonNumber::PosInt(chunk_index as u64)),
            ).insert("total_chunks"@, Json::Number(JsonNumber::PosInt(total_chunks as u64))),
        ),
        SourceModel::External { source_name, source_id } => Json::Object(
            m.insert("type"@, Json::Text("external"@)).insert(
                "source_name"@,
                Json::Text(source_name),
            ).insert("source_id"@, optional_text_json(source_id)),
        ),
    }
}

/// A text, or null.
pub open spec fn optional_text_json(t: Option<Seq<char>>) -> Json {
    match t {
        Some(t) => Json::Text(t),
        None => Json::Null,
    }
}

fn json_optional(t: &Option<String>) -> (r: JsonValue)
    ensures
        r@ == optional_text_json(crate::runtime::memory::types::optional_text(*t)),
{
    match t {
        Some(s) => JsonValue::text(s.as_str()),
        None => JsonValue::Null,
    }
}

/// A source as JSON.
pub fn json_source(s: &ContentSource) -> (r: JsonValue)
    ensures
        r@ == source_json(s@),
{
    let mut m = JsonMap::new();
    match s {
        ContentSource::PastConversation { context_id, message_id, role } => {
            m.insert("type".to_owned(), JsonValue::text("past_conversation"));
            m.insert("context_id".to_owned(), JsonValue::text(context_id.as_str()));
            m.insert("message_id".to_owned(), JsonValue::text(message_id.as_str()));
            m.insert("role".to_owned(), JsonValue::text(role.as_str()));
        },
        ContentSource::UserFact { category } => {
            m.insert("type".to_owned(), JsonValue::text("user_fact"));
            m.insert("category".to_owned(), json_optional(category));
        },
        ContentSource::Document { document_id, name, chunk_index, total_chunks } => {
            m.insert("type".to_owned(), JsonValue::text("document"));
            m.insert("document_id".to_owned(), JsonValue::text(document_id.as_str()));
            m.insert("name".to_owned(), JsonValue::text(name.as_str()));
            m.insert(
                "chunk_index".to_owned(),
                JsonValue::Number(JsonNumber::PosInt(*chunk_index as u64)),
            );
            m.insert(
                "total_chunks".to_owned(),
                JsonValue::Number(JsonNumber::PosInt(*total_chunks as u64)),
            );
        },
        ContentSource::External { source_name, source_id } => {
            m.insert("type".to_owned(), JsonValue::text("external"));
            m.insert("source_name".to_owned(), JsonValue::text(source_name.as_str()));
            m.insert("source_id".to_owned(), json_optional(source_id));
        },
    }
    JsonValue::Object(m)
}

/// A score as JSON.
pub open spec fn score_json(s: Score) -> Json {
    Json::Number(
        JsonNumber::Quotient { numerator: s.matched as u64, denominator: s.total as u64 },
    )
}

/// An entry as the model is told it.
pub open spec fn entry_json(e: MemoryEntry) -> Json {
    object3(
        "text"@,
        Json::Text(e.text@),
        "source"@,
        source_json(e.source@),
        "relevance"@,
        score_json(e.score),
    )
}

/// What a search found, as the model is told it: the entries under `key` with their number,
/// or `nothing`.
pub open spec fn found_json(entries: Seq<MemoryEntry>, key: Seq<char>, nothing: Seq<char>) -> Json {
    if entries.len() == 0 {
        object2("found"@, Json::Bool(false), "message"@, Json::Text(nothing))
    } else {
        object3(
            "found"@,
            Json::Bool(true),
            "count"@,
            Json::Number(JsonNumber::PosInt(entries.len() as u64)),
            key,
            Json::Array(Seq::new(entries.len(), |i: int| entry_json(entries[i]))),
        )
    }
}

/// What a search gave, as the result of a tool.
pub open spec fn search_result(
    found: Result<Vec<MemoryEntry>, AgentError>,
    key: Seq<char>,
    nothing: Seq<char>,
    failed: Seq<char>,
) -> ResultModel {
    match found {
        Ok(entries) => ResultModel::success(found_json(entries@, key, nothing)),
        Err(e) => ResultModel::error(failed + e@.text()),
    }
}

/// What a search gave, as the result of a tool.
pub fn render_search(
    found: &Result<Vec<MemoryEntry>, AgentError>,
    key: &str,
    nothing: &str,
    failed: &str,
) -> (r: ToolResult)
    ensures
        r@ == search_result(*found, key@, nothing@, failed@),
{
    let entries = match found {
        Ok(entries) => entries,
        Err(e) => {
            let text = e.to_string();
            return ToolResult::error(concat2(failed, text.as_str()));
        },
    };
    if entries.len() == 0 {
        return ToolResult::success(
            JsonValue::object2(
                "found",
                JsonValue::Bool(false),
                "message",
                JsonValue::text(nothing),
            ),
        );
    }
    let mut list: Vec<JsonValue> = Vec::new();
    let mut i: usize = 0;
    let ghost expected = Seq::new(entries@.len(), |j: int| entry_json(entries@[j]));
    while i < entries.len()
        invariant
            i <= entries.len(),
            expected == Seq::new(entries@.len(), |j: int| entry_json(entries@[j])),
            models(list@) == expected.take(i as int),
        decreases entries.len() - i,
    {
        let e = &entries[i];
        let ghost before = list@;
        let j = JsonValue::object3(
            "text",
            JsonValue::text(e.text.as_str()),
            "source",
            json_source(&e.source),
            "relevance",
            JsonValue::Number(
                JsonNumber::Quotient {
                    numerator: e.score.matched as u64,
                    denominator: e.score.total as u64,
                },
            ),
        );
        list.push(j);
        proof {
            lemma_models_push(before, j);
            assert(models(list@) =~= expected.take(i + 1));
        }
        i = i + 1;
    }
    proof {
        assert(expected.take(expected.len() as int) =~= expected);
    }
    ToolResult::success(
        JsonValue::object3(
            "found",
            JsonValue::Bool(true),
            "count",
            JsonValue::Number(JsonNumber::PosInt(entries.len() as u64)),
            key,
            JsonValue::Array(list),
        ),
    )
}

/// The result of a tool that searches sources of these types.
pub open spec fn searches<S: MemoryService>(
    service: S,
    captured: Option<AuthContext>,
    args: Map<Seq<char>, Json>,
    state: Option<Result<AuthContext, String>>,
    types: Seq<SourceType>,
    key: Seq<char>,
    nothing: Seq<char>,
    failed: Seq<char>,
    r: ResultModel,
) -> bool {
    match text_argument(args, "query"@) {
        None => r == ResultModel::error("Missing required argument: query"@),
        Some(query) => match acting_for(captured, state) {
            Err(m) => r == ResultModel::error(m),
            Ok(auth) => exists|found: Result<Vec<MemoryEntry>, AgentError>| #[trigger]
                searched(service, auth, query, types, limit_argument(args), found) && r
                    == search_result(found, key, nothing, failed),
        },
    }
}

proof fn lemma_searches<S: MemoryService>(
    service: S,
    captured: Option<AuthContext>,
    args: Map<Seq<char>, Json>,
    state: Option<Result<AuthContext, String>>,
    types: Seq<SourceType>,
    key: Seq<char>,
    nothing: Seq<char>,
    failed: Seq<char>,
    found: Result<Vec<MemoryEntry>, AgentError>,
)
    requires
        text_argument(args, "query"@) is Some,
        acting_for(captured, state) is Ok,
        searched(
            service,
            acting_for(captured, state)->Ok_0,
            text_argument(args, "query"@)->Some_0,
            types,
            limit_argument(args),
            found,
        ),
    ensures
        searches(
            service,
            captured,
            args,
            state,
            types,
            key,
            nothing,
            failed,
            search_result(found, key, nothing, failed),
        ),
{
}

impl<S: MemoryService> LoadMemoryTool<S> {
    /// A tool for the user that the state of the execution names.
    pub fn new(memory_service: S) -> (r: LoadMemoryTool<S>)
        ensures
            r.memory_service == memory_service,
            r.auth_context is None,
    {
        LoadMemoryTool { memory_service, auth_context: None }
    }

    /// A tool for one user.
    pub fn with_auth(memory_service: S, auth_context: AuthContext) -> (r: LoadMemoryTool<S>)
        ensures
            r.memory_service == memory_service,
            r.auth_context == Some(auth_context),
    {
        LoadMemoryTool { memory_service, auth_context: Some(auth_context) }
    }

    /// The name of the tool.
    pub fn name(&self) -> (r: &'static str)
        ensures
            r@ == "load_memory"@,
    {
        "load_memory"
    }

    /// What a model is told of the tool.
    pub fn declaration(&self) -> (r: FunctionDeclaration)
        ensures
            r.name@ == "load_memory"@,
            r.description@ == "Search long-term memory for past conversations and user facts. Use this to recall what was discussed in previous sessions or retrieve user preferences."@,
            r.parameters@ == search_parameters(),
    {
        FunctionDeclaration {
            name: "load_memory".to_owned(),
            description: "Search long-term memory for past conversations and user facts. Use this to recall what was discussed in previous sessions or retrieve user preferences.".to_owned(),
            parameters: json_search_parameters(),
        }
    }

    /// Searches past conversations and user facts. `state` is what reading the user from the
    /// state of the execution gave, where it names one.
    pub fn run(&self, args: &JsonMap, state: Option<Result<AuthContext, String>>) -> (r: ToolResult)
        ensures
            searches(
                self.memory_service,
                self.auth_context,
                args@,
                state,
                history_types(),
                "memories"@,
                "No relevant memories found."@,
                "Memory search failed: "@,
                r@,
            ),
    {
        let query = match text_of(args, "query") {
            Some(q) => q,
            None => {
                return ToolResult::error("Missing required argument: query".to_owned());
            },
        };
        let limit = limit_of(args);
        let auth = match resolve_auth(&self.auth_context, state) {
            Ok(a) => a,
            Err(m) => {
                return ToolResult::error(m);
            },
        };
        let options = SearchOptions::history_only().with_limit(limit);
        proof {
            assert(limited(history_types(), limit, options));
        }
        let found = self.memory_service.search(&auth, query, options);
        proof {
            assert(call_ensures(S::search, (&self.memory_service, &auth, query, options), found));
            assert(searched(self.memory_service, auth@, query@, history_types(), limit, found));
        }
        proof {
            lemma_searches(
                self.memory_service,
                self.auth_context,
                args@,
                state,
                history_types(),
                "memories"@,
                "No relevant memories found."@,
                "Memory search failed: "@,
                found,
            );
        }
        render_search(&found, "memories", "No relevant memories found.", "Memory search failed: ")
    }
}

impl<S: MemoryService> SearchKnowledgeTool<S> {
    /// A tool for the user that the state of the execution names.
    pub fn new(memory_service: S) -> (r: SearchKnowledgeTool<S>)
        ensures
            r.memory_service == memory_service,
            r.auth_context is None,
    {
        SearchKnowledgeTool { memory_service, auth_context: None }
    }

    /// A tool for one user.
    pub fn with_auth(memory_service: S, auth_context: AuthContext) -> (r: SearchKnowledgeTool<S>)
        ensures
            r.memory_service == memory_service,
            r.auth_context == Some(auth_context),
    {
        SearchKnowledgeTool { memory_service, auth_context: Some(auth_context) }
    }

    /// The name of the tool.
    pub fn name(&self) -> (r: &'static str)
        ensures
            r@ == "search_knowledge"@,
    {
        "search_knowledge"
    }

    /// What a model is told of the tool.
    pub fn declaration(&self) -> (r: FunctionDeclaration)
        ensures
            r.name@ == "search_knowledge"@,
            r.description@ == "Search documents and knowledge base for relevant information. Use this to find answers from uploaded documents, manuals, or reference material."@,
            r.parameters@ == search_parameters(),
    {
        FunctionDeclaration {
            name: "search_knowledge".to_owned(),
            description: "Search documents and knowledge base for relevant information. Use this to find answers from uploaded documents, manuals, or reference material.".to_owned(),
            parameters: json_search_parameters(),
        }
    }

    /// Searches documents and external sources. `state` is what reading the user from the
    /// state of the execution gave, where it names one.
    pub fn run(&self, args: &JsonMap, state: Option<Result<AuthContext, String>>) -> (r: ToolResult)
        ensures
            searches(
                self.memory_service,
                self.auth_context,
                args@,
                state,
                knowledge_types(),
                "results"@,
                "No relevant documents found."@,
                "Knowledge search failed: "@,
                r@,
            ),
    {
        let query = match text_of(args, "query") {
            Some(q) => q,
            None => {
                return ToolResult::error("Missing required argument: query".to_owned());
            },
        };
        let limit = limit_of(args);
        let auth = match resolve_auth(&self.auth_context, state) {
            Ok(a) => a,
            Err(m) => {
                return ToolResult::error(m);
            },
        };
        let options = SearchOptions::knowledge_only().with_limit(limit);
        proof {
            assert(limited(knowledge_types(), limit, options));
        }
        let found = self.memory_service.search(&auth, query, options);
        proof {
            assert(call_ensures(S::search, (&self.memory_service, &auth, query, options), found));
            assert(searched(self.memory_service, auth@, query@, knowledge_types(), limit, found));
        }
        proof {
            lemma_searches(
                self.memory_service,
                self.auth_context,
                args@,
                state,
                knowledge_types(),
                "results"@,
                "No relevant documents found."@,
                "Knowledge search failed: "@,
                found,
            );
        }
        render_search(&found, "results", "No relevant documents found.", "Knowledge search failed: ")
    }
}

// ---------------------------------------------------------------------------
// Saving
// ---------------------------------------------------------------------------

/// What saving gave, as the result of a tool.
pub open spec fn save_result(saved: Result<String, AgentError>, category: Option<Seq<char>>) -> ResultModel {
    match saved {
        Ok(id) => ResultModel::success(
            object3(
                "saved"@,
                Json::Bool(true),
                "id"@,
                Json::Text(id@),
                "category"@,
                optional_text_json(category),
            ),
        ),
        Err(e) => ResultModel::error("Failed to save: "@ + e@.text()),
    }
}

/// What saving gave, as the result of a tool.
pub fn render_save(saved: &Result<String, AgentError>, category: &Option<String>) -> (r: ToolResult)
    ensures
        r@ == save_result(*saved, crate::runtime::memory::types::optional_text(*category)),
{
    match saved {
        Ok(id) => ToolResult::success(
            JsonValue::object3(
                "saved",
                JsonValue::Bool(true),
                "id",
                JsonValue::text(id.as_str()),
                "category",
                json_optional(category),
            ),
        ),
        Err(e) => {
            let text = e.to_string();
            ToolResult::error(concat2("Failed to save: ", text.as_str()))
        },
    }
}

impl<S: MemoryService> SaveMemoryTool<S> {
    /// A tool for the user that the state of the execution names.
    pub fn new(memory_service: S) -> (r: SaveMemoryTool<S>)
        ensures
            r.memory_service == memory_service,
            r.auth_context is None,
    {
        SaveMemoryTool { memory_service, auth_context: None }
    }

    /// A tool for one user.
    pub fn with_auth(memory_service: S, auth_context: AuthContext) -> (r: SaveMemoryTool<S>)
        ensures
            r.memory_service == memory_service,
            r.auth_context == Some(auth_context),
    {
        SaveMemoryTool { memory_service, auth_context: Some(auth_context) }
    }

    /// The name of the tool.
    pub fn name(&self) -> (r: &'static str)
        ensures
            r@ == "save_memory"@,
    {
        "save_memory"
    }

    /// What a model is told of the tool.
    pub fn declaration(&self) -> (r: FunctionDeclaration)
        ensures
            r.name@ == "save_memory"@,
            r.description@ == "Save important user information to long-term memory. Use this to remember user preferences, facts, or insights that should be recalled in future conversations."@,
            r.parameters@ == save_parameters(),
    {
        FunctionDeclaration {
            name: "save_memory".to_owned(),
            description: "Save important user information to long-term memory. Use this to remember user preferences, facts, or insights that should be recalled in future conversations.".to_owned(),
            parameters: json_save_parameters(),
        }
    }

    /// Saves what is to be remembered, with a category where one is given. `state` is what
    /// reading the user from the state of the execution gave, where it names one.
    pub fn run(&mut self, args: &JsonMap, state: Option<Result<AuthContext, String>>) -> (r:
        ToolResult)
        ensures
            match text_argument(args@, "content"@) {
                None => r@ == ResultModel::error("Missing required argument: content"@)
                    && *final(self) == *old(self),
                Some(text) => if byte_len(text) > MAX_CONTENT_LENGTH {
                    r@ == ResultModel::error("Content too long. Maximum 4000 characters."@)
                        && *final(self) == *old(self)
                } else {
                    match acting_for(old(self).auth_context, state) {
                        Err(m) => r@ == ResultModel::error(m) && *final(self) == *old(self),
                        Ok(auth) => {
                            let category = text_argument(args@, "category"@);
                            final(self).auth_context == old(self).auth_context && others_kept(
                                old(self).memory_service.memory(),
                                final(self).memory_service.memory(),
                                auth,
                            ) && (exists|
                                s: &mut S,
                                saved: Result<String, AgentError>,
                            |
                                *s == old(self).memory_service && *final(s) == final(self).memory_service && #[trigger] adds(
                                    s,
                                    auth,
                                    user_fact(text, category),
                                    saved,
                                ) && r@ == save_result(saved, category) && (saved matches Ok(
                                    id,
                                ) ==> user_fact(text, category).source.names(id@) && final(self).memory_service.memory() == old(self).memory_service.memory().insert(
                                    place(auth, id@),
                                    user_fact(text, category),
                                )))
                        },
                    }
                },
            },
    {
        let text = match text_of(args, "content") {
            Some(c) => c.to_owned(),
            None => {
                return ToolResult::error("Missing required argument: content".to_owned());
            },
        };
        if len_in_bytes(text.as_str()) > MAX_CONTENT_LENGTH {
            return ToolResult::error("Content too long. Maximum 4000 characters.".to_owned());
        }
        let category = match text_of(args, "category") {
            Some(c) => Some(c.to_owned()),
            None => None,
        };
        let auth = match resolve_auth(&self.auth_context, state) {
            Ok(a) => a,
            Err(m) => {
                return ToolResult::error(m);
            },
        };
        let kept = match &category {
            Some(c) => Some(c.clone()),
            None => None,
        };
        let content = MemoryContent {
            text,
            source: ContentSource::UserFact { category: kept },
            metadata: JsonMap::new(),
        };
        proof {
            assert(content@ == user_fact(text@, text_argument(args@, "category"@)));
        }
        let saved = self.memory_service.add(&auth, content);
        proof {
            let s = choose|s: &mut S|
                *s == old(self).memory_service && *final(s) == self.memory_service
                    && #[trigger] call_ensures(S::add, (s, &auth, content), saved);
            assert(*final(s) == final(self).memory_service);
            if saved is Ok {
                lemma_insert_keeps_others(
                    old(self).memory_service.memory(),
                    auth@,
                    saved->Ok_0@,
                    content@,
                );
            }
            assert(adds(
                s,
                acting_for(old(self).auth_context, state)->Ok_0,
                user_fact(
                    text_argument(args@, "content"@)->Some_0,
                    text_argument(args@, "category"@),
                ),
                saved,
            ));
        }
        render_save(&saved, &category)
    }
}

// ---------------------------------------------------------------------------
// Parameters
// ---------------------------------------------------------------------------

/// A parameter of a type with a description.
pub open spec fn parameter(kind: Seq<char>, description: Seq<char>) -> Json {
    object2("type"@, Json::Text(kind), "description"@, Json::Text(description))
}

/// The parameters of a search.
pub open spec fn search_parameters() -> Json {
    object3(
        "type"@,
        Json::Text("object"@),
        "properties"@,
        object2(
            "query"@,
            parameter(
                "string"@,
                "Natural language query describing what you're looking for"@,
            ),
            "limit"@,
            object3(
                "type"@,
                Json::Text("integer"@),
                "description"@,
                Json::Text("Maximum number of results (default: 5, max: 10)"@),
                "default"@,
                Json::Number(JsonNumber::PosInt(5)),
            ),
        ),
        "required"@,
        Json::Array(seq![Json::Text("query"@)]),
    )
}

/// The parameters of saving.
pub open spec fn save_parameters() -> Json {
    object3(
        "type"@,
        Json::Text("object"@),
        "properties"@,
        object2(
            "content"@,
            parameter(
                "string"@,
                "The information to remember. Be specific and include context."@,
            ),
            "category"@,
            parameter("string"@, "Category for organization (e.g., 'preferences', 'facts')"@),
        ),
        "required"@,
        Json::Array(seq![Json::Text("content"@)]),
    )
}

fn json_parameter(kind: &str, description: &str) -> (r: JsonValue)
    ensures
        r@ == parameter(kind@, description@),
{
    JsonValue::object2("type", JsonValue::text(kind), "description", JsonValue::text(description))
}

fn json_search_parameters() -> (r: JsonValue)
    ensures
        r@ == search_parameters(),
{
    JsonValue::object3(
        "type",
        JsonValue::text("object"),
        "properties",
        JsonValue::object2(
            "query",
            json_parameter("string", "Natural language query describing what you're looking for"),
            "limit",
            JsonValue::object3(
                "type",
                JsonValue::text("integer"),
                "description",
                JsonValue::text("Maximum number of results (default: 5, max: 10)"),
                "default",
                JsonValue::Number(JsonNumber::PosInt(5)),
            ),
        ),
        "required",
        JsonValue::array1(JsonValue::text("query")),
    )
}

fn json_save_parameters() -> (r: JsonValue)
    ensures
        r@ == save_parameters(),
{
    JsonValue::object3(
        "type",
        JsonValue::text("object"),
        "properties",
        JsonValue::object2(
            "content",
            json_parameter(
                "string",
                "The information to remember. Be specific and include context.",
            ),
            "category",
            json_parameter("string", "Category for organization (e.g., 'preferences', 'facts')"),
        ),
        "required",
        JsonValue::array1(JsonValue::text("content")),
    )
}

// ---------------------------------------------------------------------------
// All of them
// ---------------------------------------------------------------------------

/// The tools for long-term memory, on handles to one store.
pub struct MemoryToolset<S: MemoryService> {
    pub load_memory: LoadMemoryTool<S>,
    pub save_memory: SaveMemoryTool<S>,
    pub search_knowledge: SearchKnowledgeTool<S>,
}

impl<S: MemoryService + Clone> MemoryToolset<S> {
    /// The tools for the user that the state of the execution names.
    pub fn new(memory_service: S) -> (r: MemoryToolset<S>)
        ensures
            cloned(memory_service, r.load_memory.memory_service),
            cloned(memory_service, r.save_memory.memory_service),
            r.search_knowledge.memory_service == memory_service,
            r.load_memory.auth_context is None,
            r.save_memory.auth_context is None,
            r.search_knowledge.auth_context is None,
    {
        MemoryToolset {
            load_memory: LoadMemoryTool::new(memory_service.clone()),
            save_memory: SaveMemoryTool::new(memory_service.clone()),
            search_knowledge: SearchKnowledgeTool::new(memory_service),
        }
    }

    /// The tools for one user.
    pub fn with_auth(memory_service: S, auth_context: AuthContext) -> (r: MemoryToolset<S>)
        ensures
            cloned(memory_service, r.load_memory.memory_service),
            cloned(memory_service, r.save_memory.memory_service),
            r.search_knowledge.memory_service == memory_service,
            r.load_memory.auth_context matches Some(a) && a@ == auth_context@,
            r.save_memory.auth_context matches Some(a) && a@ == auth_context@,
            r.search_knowledge.auth_context == Some(auth_context),
    {
        MemoryToolset {
            load_memory: LoadMemoryTool::with_auth(memory_service.clone(), auth_context.clone()),
            save_memory: SaveMemoryTool::with_auth(memory_service.clone(), auth_context.clone()),
            search_knowledge: SearchKnowledgeTool::with_auth(memory_service, auth_context),
        }
    }
}

// ---------------------------------------------------------------------------
// Laws
// ---------------------------------------------------------------------------

/// The user that a tool was made for comes before the one that the state names.
pub proof fn captured_user_comes_first(
    auth: AuthContext,
    state: Option<Result<AuthContext, String>>,
)
    ensures
        acting_for(Some(auth), state) == Ok::<(Seq<char>, Seq<char>), Seq<char>>(auth@),
{
}

/// A search never asks for more than ten results.
pub proof fn limit_is_bounded(args: Map<Seq<char>, Json>)
    ensures
        limit_argument(args) <= 10,
{
}

} // verus!
