//! Laws of the tools for long-term memory.

use crate::errors::AgentError;
use crate::json::{Json, JsonMap, JsonNumber};
use crate::runtime::context::AuthContext;
use crate::runtime::memory::facades::searched;
use crate::runtime::memory::service::MemoryService;
use crate::runtime::memory::types::{MemoryEntry, SourceModel, SourceType};
use crate::tools::memory::{
    acting_for, entry_json, found_json, limit_argument, save_parameters, save_result,
    search_parameters, search_result, searches, source_json, text_argument, LoadMemoryTool,
    SearchKnowledgeTool, MAX_CONTENT_LENGTH,
};
use crate::tools::{ResultModel, ToolResult};
use vstd::prelude::*;

verus! {

/// A tool acts for whom it was made; otherwise for whom the state names; it refuses to act where
/// that cannot be read or nobody is named.
pub proof fn tools_act_for_somebody(
    captured: Option<AuthContext>,
    state: Option<Result<AuthContext, String>>,
)
    ensures
        captured matches Some(a) ==> acting_for(captured, state) == Ok::<
            (Seq<char>, Seq<char>),
            Seq<char>,
        >((a.app_name@, a.user_name@)),
        captured is None ==> (state matches Some(Ok(a)) ==> acting_for(captured, state) == Ok::<
            (Seq<char>, Seq<char>),
            Seq<char>,
        >((a.app_name@, a.user_name@))),
        captured is None ==> (state matches Some(Err(m)) ==> acting_for(captured, state) == Err::<
            (Seq<char>, Seq<char>),
            Seq<char>,
        >("Invalid auth context: "@ + m@)),
        captured is None && state is None ==> acting_for(captured, state) == Err::<
            (Seq<char>, Seq<char>),
            Seq<char>,
        >("No auth context available"@),
{
}

/// An argument is taken where it is a text, and counts as missing where it is anything else.
pub proof fn arguments_are_texts(args: Map<Seq<char>, Json>, key: Seq<char>, t: Seq<char>)
    ensures
        text_argument(args, key) == Some(t) <==> args.contains_pair(key, Json::Text(t)),
        text_argument(args, key) is None <==> !(args.contains_key(key) && args[key] is Text),
{
}

/// A search asks for as many results as given, for at most ten, and for five where no number is
/// given.
pub proof fn searches_ask_for_five_to_ten(args: Map<Seq<char>, Json>, n: u64)
    ensures
        args.contains_pair("limit"@, Json::Number(JsonNumber::PosInt(n))) && n <= 10
            ==> limit_argument(args) == n,
        args.contains_pair("limit"@, Json::Number(JsonNumber::PosInt(n))) && n > 10
            ==> limit_argument(args) == 10,
        !args.contains_key("limit"@) ==> limit_argument(args) == 5,
        args.contains_key("limit"@) && !(args["limit"@] matches Json::Number(JsonNumber::PosInt(_)))
            ==> limit_argument(args) == 5,
{
}

/// A source is told by its type and by all that is known of it.
pub proof fn sources_are_told_whole(s: SourceModel)
    ensures
        s matches SourceModel::PastConversation { context_id, message_id, role } ==> source_json(s)
            == Json::Object(
            map![
                "type"@ => Json::Text("past_conversation"@),
                "context_id"@ => Json::Text(context_id),
                "message_id"@ => Json::Text(message_id),
                "role"@ => Json::Text(role),
            ],
        ),
        s matches SourceModel::UserFact { category: Some(c) } ==> source_json(s) == Json::Object(
            map!["type"@ => Json::Text("user_fact"@), "category"@ => Json::Text(c)],
        ),
        s matches SourceModel::UserFact { category: None } ==> source_json(s) == Json::Object(
            map!["type"@ => Json::Text("user_fact"@), "category"@ => Json::Null],
        ),
        s matches SourceModel::Document { document_id, name, chunk_index, total_chunks }
            ==> source_json(s) == Json::Object(
            map![
                "type"@ => Json::Text("document"@),
                "document_id"@ => Json::Text(document_id),
                "name"@ => Json::Text(name),
                "chunk_index"@ => Json::Number(JsonNumber::PosInt(chunk_index as u64)),
                "total_chunks"@ => Json::Number(JsonNumber::PosInt(total_chunks as u64)),
            ],
        ),
        s matches SourceModel::External { source_name, source_id: Some(id) } ==> source_json(s)
            == Json::Object(
            map![
                "type"@ => Json::Text("external"@),
                "source_name"@ => Json::Text(source_name),
                "source_id"@ => Json::Text(id),
            ],
        ),
        s matches SourceModel::External { source_name, source_id: None } ==> source_json(s)
            == Json::Object(
            map![
                "type"@ => Json::Text("external"@),
                "source_name"@ => Json::Text(source_name),
                "source_id"@ => Json::Null,
            ],
        ),
{
}

/// Where something was found, the model is told that, how many entries there are, and of each,
/// in order, its text, its source and its relevance; where nothing was, that and a message.
pub proof fn findings_are_told_in_order(
    entries: Seq<MemoryEntry>,
    key: Seq<char>,
    nothing: Seq<char>,
    told: Seq<Json>,
)
    ensures
        entries.len() == 0 ==> found_json(entries, key, nothing) == Json::Object(
            map!["found"@ => Json::Bool(false), "message"@ => Json::Text(nothing)],
        ),
        entries.len() > 0 && told.len() == entries.len() && (forall|i: int|
            0 <= i < told.len() ==> #[trigger] told[i] == Json::Object(
                map![
                    "text"@ => Json::Text(entries[i].text@),
                    "source"@ => source_json(entries[i].source@),
                    "relevance"@ => Json::Number(
                        JsonNumber::Quotient {
                            numerator: entries[i].score.matched as u64,
                            denominator: entries[i].score.total as u64,
                        },
                    ),
                ],
            )) ==> found_json(entries, key, nothing) == Json::Object(
            map![
                "found"@ => Json::Bool(true),
                "count"@ => Json::Number(JsonNumber::PosInt(entries.len() as u64)),
                key => Json::Array(told),
            ],
        ),
{
    if entries.len() > 0 && told.len() == entries.len() && (forall|i: int|
        0 <= i < told.len() ==> #[trigger] told[i] == entry_json(entries[i])) {
        assert(Seq::new(entries.len(), |i: int| entry_json(entries[i])) =~= told);
    }
    if told.len() == entries.len() && (forall|i: int|
        0 <= i < told.len() ==> #[trigger] told[i] == Json::Object(
            map![
                "text"@ => Json::Text(entries[i].text@),
                "source"@ => source_json(entries[i].source@),
                "relevance"@ => Json::Number(
                    JsonNumber::Quotient {
                        numerator: entries[i].score.matched as u64,
                        denominator: entries[i].score.total as u64,
                    },
                ),
            ],
        )) {
        assert forall|i: int| 0 <= i < told.len() implies #[trigger] told[i] == entry_json(
            entries[i],
        ) by {}
    }
}

/// A tool that searches succeeds with what was found, and fails with the text of the error.
pub proof fn searches_tell_how_they_went(
    found: Result<Vec<MemoryEntry>, AgentError>,
    key: Seq<char>,
    nothing: Seq<char>,
    failed: Seq<char>,
)
    ensures
        found matches Ok(entries) ==> {
            &&& search_result(found, key, nothing, failed).success
            &&& search_result(found, key, nothing, failed).data == found_json(
                entries@,
                key,
                nothing,
            )
            &&& search_result(found, key, nothing, failed).error_message is None
        },
        found matches Err(e) ==> {
            &&& !search_result(found, key, nothing, failed).success
            &&& search_result(found, key, nothing, failed).data == Json::Null
            &&& search_result(found, key, nothing, failed).error_message == Some(failed + e@.text())
        },
{
}

/// A search without a query fails; so does one on nobody's behalf; any other is made for the
/// user, for the query, for these types and for as many results as asked for, and tells how it
/// went.
pub proof fn searches_need_a_query_and_a_user<S: MemoryService>(
    service: S,
    captured: Option<AuthContext>,
    args: Map<Seq<char>, Json>,
    state: Option<Result<AuthContext, String>>,
    types: Seq<SourceType>,
    key: Seq<char>,
    nothing: Seq<char>,
    failed: Seq<char>,
    r: ResultModel,
)
    requires
        searches(service, captured, args, state, types, key, nothing, failed, r),
    ensures
        !(args.contains_key("query"@) && args["query"@] is Text) ==> !r.success && r.error_message
            == Some("Missing required argument: query"@),
        args.contains_key("query"@) ==> (args["query"@] matches Json::Text(query) ==> match acting_for(
            captured,
            state,
        ) {
            Err(m) => !r.success && r.error_message == Some(m),
            Ok(user) => exists|found: Result<Vec<MemoryEntry>, AgentError>| #[trigger]
                searched(service, user, query, types, limit_argument(args), found) && r
                    == search_result(found, key, nothing, failed),
        }),
{
}

/// What was saved is told by its identifier and its category, and what was not by the error.
pub proof fn savings_tell_how_they_went(
    saved: Result<String, AgentError>,
    category: Option<Seq<char>>,
)
    ensures
        saved matches Ok(id) ==> {
            &&& save_result(saved, category).success
            &&& save_result(saved, category).error_message is None
            &&& save_result(saved, category).data == Json::Object(
                map![
                    "saved"@ => Json::Bool(true),
                    "id"@ => Json::Text(id@),
                    "category"@ => match category {
                        Some(c) => Json::Text(c),
                        None => Json::Null,
                    },
                ],
            )
        },
        saved matches Err(e) ==> {
            &&& !save_result(saved, category).success
            &&& save_result(saved, category).data == Json::Null
            &&& save_result(saved, category).error_message == Some("Failed to save: "@ + e@.text())
        },
        MAX_CONTENT_LENGTH == 4000,
{
}

/// A search takes a query, which it needs, and a number, which is five where it is not given.
pub proof fn searches_declare_their_parameters()
    ensures
        search_parameters() == Json::Object(
            map![
                "type"@ => Json::Text("object"@),
                "properties"@ => Json::Object(
                    map![
                        "query"@ => Json::Object(
                            map![
                                "type"@ => Json::Text("string"@),
                                "description"@ => Json::Text(
                                    "Natural language query describing what you're looking for"@,
                                ),
                            ],
                        ),
                        "limit"@ => Json::Object(
                            map![
                                "type"@ => Json::Text("integer"@),
                                "description"@ => Json::Text(
                                    "Maximum number of results (default: 5, max: 10)"@,
                                ),
                                "default"@ => Json::Number(JsonNumber::PosInt(5)),
                            ],
                        ),
                    ],
                ),
                "required"@ => Json::Array(seq![Json::Text("query"@)]),
            ],
        ),
{
}

/// Saving takes what is to be remembered, which it needs, and a category.
pub proof fn saving_declares_its_parameters()
    ensures
        save_parameters() == Json::Object(
            map![
                "type"@ => Json::Text("object"@),
                "properties"@ => Json::Object(
                    map![
                        "content"@ => Json::Object(
                            map![
                                "type"@ => Json::Text("string"@),
                                "description"@ => Json::Text(
                                    "The information to remember. Be specific and include context."@,
                                ),
                            ],
                        ),
                        "category"@ => Json::Object(
                            map![
                                "type"@ => Json::Text("string"@),
                                "description"@ => Json::Text(
                                    "Category for organization (e.g., 'preferences', 'facts')"@,
                                ),
                            ],
                        ),
                    ],
                ),
                "required"@ => Json::Array(seq![Json::Text("content"@)]),
            ],
        ),
{
}

/// A result with data is a success without a message, a failure has a message and no data.
pub proof fn results_succeed_or_fail(data: Json, message: Seq<char>)
    ensures
        ResultModel::success(data).success,
        ResultModel::success(data).data == data,
        ResultModel::success(data).error_message is None,
        !ResultModel::error(message).success,
        ResultModel::error(message).data == Json::Null,
        ResultModel::error(message).error_message == Some(message),
{
}

/// The one tool searches what was said and what is known of the user, the other documents and
/// what comes from elsewhere; each says what it found under its own name.
pub proof fn tools_search_their_own_sources<S: MemoryService>(
    load: LoadMemoryTool<S>,
    knowledge: SearchKnowledgeTool<S>,
    args: JsonMap,
    state: Option<Result<AuthContext, String>>,
    loaded: ToolResult,
    known: ToolResult,
)
    requires
        call_ensures(LoadMemoryTool::<S>::run, (&load, &args, state), loaded),
        call_ensures(SearchKnowledgeTool::<S>::run, (&knowledge, &args, state), known),
    ensures
        searches(
            load.memory_service,
            load.auth_context,
            args@,
            state,
            seq![SourceType::PastConversation, SourceType::UserFact],
            "memories"@,
            "No relevant memories found."@,
            "Memory search failed: "@,
            loaded@,
        ),
        searches(
            knowledge.memory_service,
            knowledge.auth_context,
            args@,
            state,
            seq![SourceType::Document, SourceType::External],
            "results"@,
            "No relevant documents found."@,
            "Knowledge search failed: "@,
            known@,
        ),
        !args@.contains_key("query"@) ==> !loaded.success && !known.success,
{
}

} // verus!
