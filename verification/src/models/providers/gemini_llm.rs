//! Requests to Gemini, and what comes back.

use crate::errors::{AgentError, ErrorView};
use crate::json::{
    lemma_models_push, models, object1, object2, object3, Json, JsonMap, JsonNumber, JsonValue,
};
use crate::models::{
    event_models, text_lines, Content, ContentPart, DataSource, Event, EventModel, LlmResponse,
    PartModel, Role, Thread, TokenUsage,
};
use crate::text::{blank, concat2, concat3, is_blank, is_empty_text, join, joined, texts};
use crate::tools::{
    optional_chars, optional_json, CallModel, FunctionDeclaration, ResponseModel, ToolCall,
    ToolResponse,
};
use vstd::prelude::*;

verus! {

/// A model of Gemini and how to reach it.
#[derive(Debug)]
pub struct GeminiLlm {
    pub model_name: String,
    pub api_key: String,
    pub base_url: String,
    pub max_tokens: Option<u32>,
    /// The sampling temperature, as the JSON number that is sent.
    pub temperature: Option<JsonValue>,
}

/// Where the models are.
pub open spec fn gemini_base_url() -> Seq<char> {
    "https://generativelanguage.googleapis.com/v1beta/"@
}

/// The variable that holds the key.
pub open spec fn api_key_env() -> Seq<char> {
    "GEMINI_API_KEY"@
}

/// An error of the provider.
pub open spec fn provider_error(message: Seq<char>) -> ErrorView {
    ErrorView::LlmProvider { provider: "Gemini"@, message }
}

/// An error of the provider.
pub fn gemini_error(message: String) -> (r: AgentError)
    ensures
        r@ == provider_error(message@),
{
    AgentError::LlmProvider { provider: "Gemini".to_owned(), message }
}

/// The address for content from a model.
pub open spec fn generate_url(base_url: Seq<char>, model: Seq<char>) -> Seq<char> {
    base_url + "models/"@ + model + ":generateContent"@
}

/// The address for content from a model.
pub fn generate_content_url(base_url: &str, model: &str) -> (r: String)
    ensures
        r@ == generate_url(base_url@, model@),
{
    let mut s = concat3(base_url, "models/", model);
    s.append(":generateContent");
    s
}

impl GeminiLlm {
    /// The variable that holds the key.
    pub const API_KEY_ENV: &'static str = "GEMINI_API_KEY";

    /// A model at the usual address.
    pub fn new(model_name: String, api_key: String) -> (r: GeminiLlm)
        ensures
            r.model_name == model_name,
            r.api_key == api_key,
            r.base_url@ == gemini_base_url(),
            r.max_tokens is None,
            r.temperature is None,
    {
        GeminiLlm {
            model_name,
            api_key,
            base_url: "https://generativelanguage.googleapis.com/v1beta/".to_owned(),
            max_tokens: None,
            temperature: None,
        }
    }

    /// A model with the key that the variable holds. There must be such a variable, and it
    /// must not be empty.
    pub fn from_env(model_name: String, variable: Option<String>) -> (r: Result<
        GeminiLlm,
        AgentError,
    >)
        ensures
            match (variable, r) {
                (None, Err(e)) => e@ == (ErrorView::MissingConfiguration { field: api_key_env() }),
                (Some(key), Err(e)) => key@.len() == 0 && e@ == (ErrorView::InvalidConfiguration {
                    field: api_key_env(),
                    reason: "API key cannot be empty"@,
                }),
                (Some(key), Ok(llm)) => {
                    &&& key@.len() > 0
                    &&& llm.model_name == model_name
                    &&& llm.api_key == key
                    &&& llm.base_url@ == gemini_base_url()
                    &&& llm.max_tokens is None
                    &&& llm.temperature is None
                },
                (None, Ok(_)) => false,
            },
    {
        match variable {
            None => Err(AgentError::MissingConfiguration { field: "GEMINI_API_KEY".to_owned() }),
            Some(api_key) => {
                if is_empty_text(api_key.as_str()) {
                    Err(
                        AgentError::InvalidConfiguration {
                            field: "GEMINI_API_KEY".to_owned(),
                            reason: "API key cannot be empty".to_owned(),
                        },
                    )
                } else {
                    Ok(GeminiLlm::new(model_name, api_key))
                }
            },
        }
    }

    /// Sets the address.
    #[must_use]
    pub fn with_base_url(self, base_url: String) -> (r: GeminiLlm)
        ensures
            r == (GeminiLlm { base_url, ..self }),
    {
        GeminiLlm { base_url, ..self }
    }

    /// Sets the largest number of tokens of an answer.
    #[must_use]
    pub fn with_max_tokens(self, max_tokens: u32) -> (r: GeminiLlm)
        ensures
            r == (GeminiLlm { max_tokens: Some(max_tokens), ..self }),
    {
        GeminiLlm { max_tokens: Some(max_tokens), ..self }
    }

    /// Sets the sampling temperature, given as the JSON number that is sent.
    #[must_use]
    pub fn with_temperature(self, temperature: JsonValue) -> (r: GeminiLlm)
        ensures
            r == (GeminiLlm { temperature: Some(temperature), ..self }),
    {
        GeminiLlm { temperature: Some(temperature), ..self }
    }

    /// The name of the model.
    pub fn model_name(&self) -> (r: &str)
        ensures
            r@ == self.model_name@,
    {
        self.model_name.as_str()
    }

    /// The address for content from this model.
    pub fn url(&self) -> (r: String)
        ensures
            r@ == generate_url(self.base_url@, self.model_name@),
    {
        generate_content_url(self.base_url.as_str(), self.model_name.as_str())
    }
}

// ---------------------------------------------------------------------------
// What is sent, as mathematical values
// ---------------------------------------------------------------------------

/// A text part.
pub open spec fn text_part(text: Seq<char>) -> Json {
    object1("text"@, Json::Text(text))
}

/// A part with the bytes of data.
pub open spec fn inline_data(content_type: Seq<char>, data: Seq<char>) -> Json {
    object1(
        "inline_data"@,
        object2("mime_type"@, Json::Text(content_type), "data"@, Json::Text(data)),
    )
}

/// A part with the address of data.
pub open spec fn file_data(content_type: Seq<char>, uri: Seq<char>) -> Json {
    object1(
        "fileData"@,
        object2("mime_type"@, Json::Text(content_type), "fileUri"@, Json::Text(uri)),
    )
}

/// A call of a tool.
pub open spec fn function_call(c: CallModel) -> Json {
    object1("functionCall"@, object2("name"@, Json::Text(c.name), "args"@, c.arguments))
}

/// A call of a tool, as the provider sent it where it did.
pub open spec fn function_call_back(c: CallModel) -> Json {
    match c.provider_metadata {
        Some(raw) => raw,
        None => function_call(c),
    }
}

/// The content of an answer to a call: the data, or the error.
pub open spec fn response_content(r: ResponseModel) -> Json {
    if r.result.success {
        r.result.data
    } else {
        object1(
            "error"@,
            Json::Text(
                match r.result.error_message {
                    Some(m) => m,
                    None => "Unknown error"@,
                },
            ),
        )
    }
}

/// The answer to a call of a tool.
pub open spec fn function_response(r: ResponseModel) -> Json {
    object1(
        "functionResponse"@,
        object2(
            "name"@,
            Json::Text(r.tool_call_id),
            "response"@,
            object2("name"@, Json::Text(r.tool_call_id), "content"@, response_content(r)),
        ),
    )
}

/// What is sent for a part of what the user said.
pub open spec fn user_part(p: PartModel) -> Json {
    match p {
        PartModel::Text(t) => text_part(t),
        PartModel::Base64 { content_type, data } => inline_data(content_type, data),
        PartModel::Uri { content_type, uri } => file_data(content_type, uri),
        PartModel::ToolCall(c) => function_call(c),
        PartModel::ToolResponse(r) => function_response(r),
    }
}

/// What is sent for a part of what the model said; data and answers are left out.
pub open spec fn assistant_part(p: PartModel) -> Option<Json> {
    match p {
        PartModel::Text(t) => Some(text_part(t)),
        PartModel::ToolCall(c) => Some(function_call_back(c)),
        _ => None,
    }
}

/// What is sent for a part of what a tool said; texts and data are left out.
pub open spec fn tool_part(p: PartModel) -> Option<Json> {
    match p {
        PartModel::ToolResponse(r) => Some(function_response(r)),
        PartModel::ToolCall(c) => Some(function_call_back(c)),
        _ => None,
    }
}

/// What is sent for a part, by who said it.
pub open spec fn sent_part(role: Role, p: PartModel) -> Option<Json> {
    match role {
        Role::System => None,
        Role::User => Some(user_part(p)),
        Role::Assistant => assistant_part(p),
        Role::Tool => tool_part(p),
    }
}

/// What is sent for parts, by who said them.
pub open spec fn sent_parts(role: Role, p: Seq<PartModel>) -> Seq<Json>
    decreases p.len(),
{
    if p.len() == 0 {
        Seq::empty()
    } else {
        match sent_part(role, p.last()) {
            Some(j) => sent_parts(role, p.drop_last()).push(j),
            None => sent_parts(role, p.drop_last()),
        }
    }
}

/// Who speaks, to Gemini.
pub open spec fn sent_role(role: Role) -> Seq<char> {
    if role == Role::Assistant {
        "model"@
    } else {
        "user"@
    }
}

/// A message of parts.
pub open spec fn sent_message(role: Seq<char>, parts: Seq<Json>) -> Json {
    object2("role"@, Json::Text(role), "parts"@, Json::Array(parts))
}

/// The messages with one more, unless it has no parts.
pub open spec fn with_message(contents: Seq<Json>, role: Role, content: Seq<PartModel>) -> Seq<Json> {
    let parts = sent_parts(role, content);
    if parts.len() == 0 {
        contents
    } else {
        contents.push(sent_message(sent_role(role), parts))
    }
}

/// The messages that a conversation is sent as.
pub open spec fn sent_contents(before: Seq<Json>, events: Seq<EventModel>) -> Seq<Json>
    decreases events.len(),
{
    if events.len() == 0 {
        before
    } else {
        let e = events.last();
        with_message(sent_contents(before, events.drop_last()), e.role, e.content)
    }
}

/// The system instructions of a conversation: those given, and what the system said.
pub open spec fn system_texts(before: Seq<Seq<char>>, events: Seq<EventModel>) -> Seq<Seq<char>>
    decreases events.len(),
{
    if events.len() == 0 {
        before
    } else {
        let s = system_texts(before, events.drop_last());
        let e = events.last();
        if e.role == Role::System {
            match text_lines(e.content) {
                Some(t) => s.push(t),
                None => s,
            }
        } else {
            s
        }
    }
}

/// The settings of an answer.
pub open spec fn generation_config(temperature: Option<Json>, max_tokens: Option<u32>) -> Map<
    Seq<char>,
    Json,
> {
    let m = Map::<Seq<char>, Json>::empty();
    let m = match temperature {
        Some(t) => m.insert("temperature"@, t),
        None => m,
    };
    match max_tokens {
        Some(n) => m.insert("maxOutputTokens"@, Json::Number(JsonNumber::PosInt(n as u64))),
        None => m,
    }
}

/// What is sent of a tool.
pub open spec fn sent_tool(d: FunctionDeclaration) -> Json {
    object3(
        "name"@,
        Json::Text(d.name@),
        "description"@,
        Json::Text(d.description@),
        "parameters"@,
        d.parameters@,
    )
}

/// What is sent of tools.
pub open spec fn sent_tools(tools: Seq<FunctionDeclaration>) -> Json {
    Json::Array(
        seq![
            object1(
                "function_declarations"@,
                Json::Array(Seq::new(tools.len(), |i: int| sent_tool(tools[i]))),
            ),
        ],
    )
}

/// What is asked for, apart from the messages: the settings and the tools that are there.
pub open spec fn with_config(
    payload: Map<Seq<char>, Json>,
    temperature: Option<Json>,
    max_tokens: Option<u32>,
) -> Map<Seq<char>, Json> {
    let config = generation_config(temperature, max_tokens);
    if config == Map::<Seq<char>, Json>::empty() {
        payload
    } else {
        payload.insert("generationConfig"@, Json::Object(config))
    }
}

/// The payload with the tools, where there are any.
pub open spec fn with_tools(payload: Map<Seq<char>, Json>, tools: Seq<FunctionDeclaration>) -> Map<
    Seq<char>,
    Json,
> {
    if tools.len() == 0 {
        payload
    } else {
        payload.insert("tools"@, sent_tools(tools))
    }
}

/// The request for the next thing said in a conversation.
pub open spec fn payload(
    system: Option<Seq<char>>,
    events: Seq<EventModel>,
    temperature: Option<Json>,
    max_tokens: Option<u32>,
    tools: Seq<FunctionDeclaration>,
) -> Map<Seq<char>, Json> {
    let given = match system {
        Some(s) => seq![s],
        None => Seq::<Seq<char>>::empty(),
    };
    let texts = system_texts(given, events);
    let base = Map::<Seq<char>, Json>::empty().insert(
        "contents"@,
        Json::Array(sent_contents(Seq::empty(), events)),
    );
    let base = if texts.len() == 0 {
        base
    } else {
        base.insert(
            "systemInstruction"@,
            object1("parts"@, Json::Array(seq![text_part(join(texts, "\n"@))])),
        )
    };
    with_tools(with_config(base, temperature, max_tokens), tools)
}

// ---------------------------------------------------------------------------
// Building what is sent
// ---------------------------------------------------------------------------

fn json_text_part(text: &str) -> (r: JsonValue)
    ensures
        r@ == text_part(text@),
{
    JsonValue::object1("text", JsonValue::text(text))
}

/// A part with the bytes of data.
pub fn json_inline_data(content_type: &str, data: &str) -> (r: JsonValue)
    ensures
        r@ == inline_data(content_type@, data@),
{
    JsonValue::object1(
        "inline_data",
        JsonValue::object2("mime_type", JsonValue::text(content_type), "data", JsonValue::text(data)),
    )
}

fn json_function_call(c: &ToolCall) -> (r: JsonValue)
    ensures
        r@ == function_call(c@),
{
    JsonValue::object1(
        "functionCall",
        JsonValue::object2(
            "name",
            JsonValue::text(c.name.as_str()),
            "args",
            c.arguments.clone(),
        ),
    )
}

fn json_function_call_back(c: &ToolCall) -> (r: JsonValue)
    ensures
        r@ == function_call_back(c@),
{
    match &c.provider_metadata {
        Some(raw) => raw.clone(),
        None => json_function_call(c),
    }
}

fn json_function_response(t: &ToolResponse) -> (r: JsonValue)
    ensures
        r@ == function_response(t@),
{
    let content = if t.result.success {
        t.result.data.clone()
    } else {
        let message = match &t.result.error_message {
            Some(m) => JsonValue::text(m.as_str()),
            None => JsonValue::text("Unknown error"),
        };
        JsonValue::object1("error", message)
    };
    let id = t.tool_call_id.as_str();
    JsonValue::object1(
        "functionResponse",
        JsonValue::object2(
            "name",
            JsonValue::text(id),
            "response",
            JsonValue::object2("name", JsonValue::text(id), "content", content),
        ),
    )
}

fn json_user_part(p: &ContentPart) -> (r: JsonValue)
    ensures
        r@ == user_part(p@),
{
    match p {
        ContentPart::Text(t) => json_text_part(t.as_str()),
        ContentPart::Data(d) => match &d.source {
            DataSource::Base64(data) => json_inline_data(d.content_type.as_str(), data.as_str()),
            DataSource::Uri(uri) => JsonValue::object1(
                "fileData",
                JsonValue::object2(
                    "mime_type",
                    JsonValue::text(d.content_type.as_str()),
                    "fileUri",
                    JsonValue::text(uri.as_str()),
                ),
            ),
        },
        ContentPart::ToolCall(c) => json_function_call(c),
        ContentPart::ToolResponse(t) => json_function_response(t),
    }
}

fn json_part(role: Role, p: &ContentPart) -> (r: Option<JsonValue>)
    ensures
        match r {
            Some(j) => sent_part(role, p@) == Some(j@),
            None => sent_part(role, p@) is None,
        },
{
    match role {
        Role::System => None,
        Role::User => Some(json_user_part(p)),
        Role::Assistant => match p {
            ContentPart::Text(t) => Some(json_text_part(t.as_str())),
            ContentPart::ToolCall(c) => Some(json_function_call_back(c)),
            _ => None,
        },
        Role::Tool => match p {
            ContentPart::ToolResponse(t) => Some(json_function_response(t)),
            ContentPart::ToolCall(c) => Some(json_function_call_back(c)),
            _ => None,
        },
    }
}

/// Adds a message to the messages, unless it has no parts.
fn push_message(role: Role, content: &Content, contents: &mut Vec<JsonValue>)
    ensures
        models(final(contents)@) == with_message(models(old(contents)@), role, content@),
{
    let mut parts: Vec<JsonValue> = Vec::new();
    let mut i: usize = 0;
    let ghost all = content@;
    proof {
        assert(models(parts@) =~= sent_parts(role, all.take(0)));
    }
    while i < content.parts.len()
        invariant
            i <= content.parts.len(),
            all == content@,
            models(parts@) == sent_parts(role, all.take(i as int)),
        decreases content.parts.len() - i,
    {
        proof {
            assert(all.take(i + 1).drop_last() =~= all.take(i as int));
            assert(all.take(i + 1).last() == content.parts@[i as int]@);
        }
        let ghost before = parts@;
        match json_part(role, &content.parts[i]) {
            Some(j) => {
                parts.push(j);
                proof {
                    lemma_models_push(before, j);
                }
            },
            None => {},
        }
        i = i + 1;
    }
    proof {
        assert(all.take(all.len() as int) =~= all);
        assert(models(parts@).len() == parts@.len());
    }
    if parts.len() > 0 {
        let name = match role {
            Role::Assistant => "model",
            _ => "user",
        };
        let ghost before = contents@;
        let m = JsonValue::object2(
            "role",
            JsonValue::text(name),
            "parts",
            JsonValue::Array(parts),
        );
        contents.push(m);
        proof {
            lemma_models_push(before, m);
        }
    }
}

impl GeminiLlm {
    /// Adds what the system said to the system instructions.
    pub fn process_system_message(content: &Content, system_parts: &mut Vec<String>)
        ensures
            texts(final(system_parts)@) == match text_lines(content@) {
                Some(t) => texts(old(system_parts)@).push(t),
                None => texts(old(system_parts)@),
            },
    {
        let ghost before = system_parts@;
        match content.joined_texts() {
            Some(t) => {
                system_parts.push(t);
                proof {
                    assert(texts(system_parts@) =~= texts(before).push(t@));
                }
            },
            None => {},
        }
    }

    /// Adds what the user said to the messages.
    pub fn process_user_message(content: Content, contents: &mut Vec<JsonValue>)
        ensures
            models(final(contents)@) == with_message(models(old(contents)@), Role::User, content@),
    {
        push_message(Role::User, &content, contents);
    }

    /// Adds what the model said to the messages.
    pub fn process_assistant_message(content: Content, contents: &mut Vec<JsonValue>)
        ensures
            models(final(contents)@) == with_message(
                models(old(contents)@),
                Role::Assistant,
                content@,
            ),
    {
        push_message(Role::Assistant, &content, contents);
    }

    /// Adds what a tool said to the messages.
    pub fn process_tool_message(content: Content, contents: &mut Vec<JsonValue>)
        ensures
            models(final(contents)@) == with_message(models(old(contents)@), Role::Tool, content@),
    {
        push_message(Role::Tool, &content, contents);
    }

    /// Adds a conversation to the messages and the system instructions.
    pub fn build_contents_from_events(
        events: Vec<Event>,
        contents: &mut Vec<JsonValue>,
        system_parts: &mut Vec<String>,
    )
        ensures
            models(final(contents)@) == sent_contents(models(old(contents)@), event_models(events@)),
            texts(final(system_parts)@) == system_texts(
                texts(old(system_parts)@),
                event_models(events@),
            ),
    {
        let ghost all = event_models(events@);
        let ghost c0 = models(contents@);
        let ghost s0 = texts(system_parts@);
        proof {
            assert(all.take(0) =~= Seq::<EventModel>::empty());
        }
        for event in it: events
            invariant
                all == event_models(it.seq()),
                models(contents@) == sent_contents(c0, all.take(it.index())),
                texts(system_parts@) == system_texts(s0, all.take(it.index())),
        {
            proof {
                let i = it.index();
                assert(all.take(i + 1).drop_last() =~= all.take(i));
                assert(all.take(i + 1).last() == event@);
                lemma_system_says_nothing(event.content@);
            }
            match event.role {
                Role::System => {
                    GeminiLlm::process_system_message(&event.content, system_parts);
                },
                Role::User => {
                    GeminiLlm::process_user_message(event.content, contents);
                },
                Role::Assistant => {
                    GeminiLlm::process_assistant_message(event.content, contents);
                },
                Role::Tool => {
                    GeminiLlm::process_tool_message(event.content, contents);
                },
            }
        }
        proof {
            assert(all.take(all.len() as int) =~= all);
        }
    }

    /// Adds the settings that are given to a request.
    pub fn add_generation_config(
        payload: &mut JsonMap,
        temperature: &Option<JsonValue>,
        max_tokens: Option<u32>,
    )
        ensures
            final(payload)@ == with_config(old(payload)@, optional_json(*temperature), max_tokens),
    {
        let mut config = JsonMap::new();
        match temperature {
            Some(t) => {
                config.insert("temperature".to_owned(), t.clone());
            },
            None => {},
        }
        match max_tokens {
            Some(n) => {
                config.insert(
                    "maxOutputTokens".to_owned(),
                    JsonValue::Number(JsonNumber::PosInt(n as u64)),
                );
            },
            None => {},
        }
        proof {
            assert(config@ == generation_config(optional_json(*temperature), max_tokens));
        }
        if !config.is_empty() {
            payload.insert("generationConfig".to_owned(), JsonValue::Object(config));
        }
    }

    /// Adds the tools that are there to a request.
    pub fn add_tools_to_payload(payload: &mut JsonMap, tools: &Vec<FunctionDeclaration>)
        ensures
            final(payload)@ == with_tools(old(payload)@, tools@),
    {
        if tools.len() == 0 {
            return ;
        }
        let mut declarations: Vec<JsonValue> = Vec::new();
        let mut i: usize = 0;
        let ghost expected = Seq::new(tools@.len(), |j: int| sent_tool(tools@[j]));
        while i < tools.len()
            invariant
                i <= tools.len(),
                expected == Seq::new(tools@.len(), |j: int| sent_tool(tools@[j])),
                models(declarations@) == expected.take(i as int),
            decreases tools.len() - i,
        {
            let d = &tools[i];
            let ghost before = declarations@;
            let j = JsonValue::object3(
                "name",
                JsonValue::text(d.name.as_str()),
                "description",
                JsonValue::text(d.description.as_str()),
                "parameters",
                d.parameters.clone(),
            );
            declarations.push(j);
            proof {
                lemma_models_push(before, j);
                assert(models(declarations@) =~= expected.take(i + 1));
            }
            i = i + 1;
        }
        proof {
            assert(expected.take(expected.len() as int) =~= expected);
        }
        payload.insert(
            "tools".to_owned(),
            JsonValue::array1(
                JsonValue::object1("function_declarations", JsonValue::Array(declarations)),
            ),
        );
    }

    /// The request for the next thing said in a conversation.
    pub fn build_request_payload(&self, thread: Thread, tools: &Vec<FunctionDeclaration>) -> (r:
        JsonValue)
        ensures
            r@ == Json::Object(
                payload(
                    optional_chars(thread.system),
                    event_models(thread.events@),
                    optional_json(self.temperature),
                    self.max_tokens,
                    tools@,
                ),
            ),
    {
        let mut contents: Vec<JsonValue> = Vec::new();
        let mut system_parts: Vec<String> = Vec::new();
        match thread.system {
            Some(s) => {
                system_parts.push(s);
                proof {
                    assert(texts(system_parts@) =~= seq![s@]);
                }
            },
            None => {
                proof {
                    assert(texts(system_parts@) =~= Seq::<Seq<char>>::empty());
                }
            },
        }
        proof {
            assert(models(contents@) =~= Seq::<Json>::empty());
        }
        GeminiLlm::build_contents_from_events(thread.events, &mut contents, &mut system_parts);
        let mut request = JsonMap::new();
        request.insert("contents".to_owned(), JsonValue::Array(contents));
        proof {
            assert(texts(system_parts@).len() == system_parts@.len());
        }
        if system_parts.len() > 0 {
            let text = joined(&system_parts, "\n");
            request.insert(
                "systemInstruction".to_owned(),
                JsonValue::object1("parts", JsonValue::array1(json_text_part(text.as_str()))),
            );
        }
        GeminiLlm::add_generation_config(&mut request, &self.temperature, self.max_tokens);
        GeminiLlm::add_tools_to_payload(&mut request, tools);
        JsonValue::Object(request)
    }
}

/// Nothing that the system said becomes a message.
proof fn lemma_system_says_nothing(p: Seq<PartModel>)
    ensures
        sent_parts(Role::System, p).len() == 0,
    decreases p.len(),
{
    if p.len() > 0 {
        lemma_system_says_nothing(p.drop_last());
    }
}

// ---------------------------------------------------------------------------
// What comes back
// ---------------------------------------------------------------------------

/// What the status of an answer means.
pub open spec fn status_verdict(
    status: u16,
    status_text: Seq<char>,
    error_body: Option<Seq<char>>,
) -> Option<ErrorView> {
    if 200 <= status < 300 {
        None
    } else if status == 401 || status == 403 {
        Some(ErrorView::LlmAuthentication { provider: "Gemini"@ })
    } else if status == 429 {
        Some(ErrorView::LlmRateLimit { provider: "Gemini"@ })
    } else {
        let body = match error_body {
            Some(b) => b,
            None => "Unknown error"@,
        };
        Some(provider_error("HTTP "@ + status_text + ": "@ + body))
    }
}

/// Checks the status of an answer. `status_text` is the status as text, `error_body` the body
/// of an answer that is no success, where it could be read.
pub fn check_status(status: u16, status_text: &str, error_body: Option<String>) -> (r: Result<
    (),
    AgentError,
>)
    ensures
        match r {
            Ok(_) => status_verdict(status, status_text@, optional_chars(error_body)) is None,
            Err(e) => status_verdict(status, status_text@, optional_chars(error_body)) == Some(e@),
        },
{
    if 200 <= status && status < 300 {
        return Ok(());
    }
    if status == 401 || status == 403 {
        return Err(AgentError::LlmAuthentication { provider: "Gemini".to_owned() });
    }
    if status == 429 {
        return Err(AgentError::LlmRateLimit { provider: "Gemini".to_owned() });
    }
    let body = match error_body {
        Some(b) => b,
        None => "Unknown error".to_owned(),
    };
    let mut message = concat3("HTTP ", status_text, ": ");
    message.append(body.as_str());
    Err(gemini_error(message))
}

/// Checks that an answer reports no error; `rendered` is the error as JSON text.
pub fn check_api_error(body: &JsonValue, rendered: &str) -> (r: Result<(), AgentError>)
    ensures
        match r {
            Ok(_) => body@.at("error"@) is None,
            Err(e) => body@.at("error"@) is Some && e@ == provider_error(
                "API error: "@ + rendered@,
            ),
        },
{
    match body.get("error") {
        Some(_) => Err(gemini_error(concat2("API error: ", rendered))),
        None => Ok(()),
    }
}

/// The content with what one part of an answer adds: its text, unless blank, then its call.
pub open spec fn read_part(before: Seq<PartModel>, part: Json) -> Result<
    Seq<PartModel>,
    ErrorView,
> {
    let said = match part.text_at("text"@) {
        Some(t) => if is_blank(t) {
            before
        } else {
            before.push(PartModel::Text(t))
        },
        None => before,
    };
    match part.at("functionCall"@) {
        None => Ok(said),
        Some(call) => match call.text_at("name"@) {
            None => Err(provider_error("Missing 'name' in functionCall"@)),
            Some(name) => Ok(
                said.push(
                    PartModel::ToolCall(
                        CallModel {
                            id: name,
                            name,
                            arguments: match call.at("args"@) {
                                Some(a) => a,
                                None => Json::Null,
                            },
                            provider_metadata: Some(part),
                        },
                    ),
                ),
            ),
        },
    }
}

/// The content that the parts of an answer make.
pub open spec fn read_parts(parts: Seq<Json>) -> Result<Seq<PartModel>, ErrorView>
    decreases parts.len(),
{
    if parts.len() == 0 {
        Ok(Seq::empty())
    } else {
        match read_parts(parts.drop_last()) {
            Err(e) => Err(e),
            Ok(before) => read_part(before, parts.last()),
        }
    }
}

/// The content of an answer: that of its first candidate.
pub open spec fn read_response(body: Json) -> Result<Seq<PartModel>, ErrorView> {
    match body.items_at("candidates"@) {
        None => Err(provider_error("Missing or invalid 'candidates' field in response"@)),
        Some(candidates) => if candidates.len() == 0 {
            Err(provider_error("Empty candidates array in response"@))
        } else {
            let parts = match candidates[0].at("content"@) {
                Some(content) => content.items_at("parts"@),
                None => None,
            };
            match parts {
                None => Err(provider_error("Missing or invalid 'content.parts' in candidate"@)),
                Some(parts) => read_parts(parts),
            }
        },
    }
}

/// An error in the first parts is the error of all the parts.
proof fn lemma_error_stays(parts: Seq<Json>, i: int)
    requires
        0 <= i <= parts.len(),
        read_parts(parts.take(i)) is Err,
    ensures
        read_parts(parts) == read_parts(parts.take(i)),
    decreases parts.len() - i,
{
    if i == parts.len() {
        assert(parts.take(i) =~= parts);
    } else {
        assert(parts.take(i + 1).drop_last() =~= parts.take(i));
        lemma_error_stays(parts, i + 1);
    }
}

/// The number, or the largest one where it is too large.
pub open spec fn saturated(n: Option<u64>) -> Option<u32> {
    match n {
        Some(n) => Some(
            if n > u32::MAX {
                u32::MAX
            } else {
                n as u32
            },
        ),
        None => None,
    }
}

/// The tokens of an answer: those of the candidates and those of the thoughts.
pub open spec fn answer_tokens(usage: Json) -> Option<int> {
    match (
        saturated(usage.unsigned_at("candidatesTokenCount"@)),
        saturated(usage.unsigned_at("thoughtsTokenCount"@)),
    ) {
        (Some(c), Some(t)) => Some(c + t),
        (Some(c), None) => Some(c as int),
        (None, Some(t)) => Some(t as int),
        (None, None) => None,
    }
}

/// The tokens of the answer can be counted.
pub open spec fn usage_fits(body: Json) -> bool {
    match body.at("usageMetadata"@) {
        Some(usage) => match answer_tokens(usage) {
            Some(n) => n <= u32::MAX,
            None => true,
        },
        None => true,
    }
}

/// The usage that an answer reports.
pub open spec fn read_usage(body: Json) -> TokenUsage {
    match body.at("usageMetadata"@) {
        None => TokenUsage { input_tokens: None, output_tokens: None, total_tokens: None },
        Some(usage) => TokenUsage {
            input_tokens: saturated(usage.unsigned_at("promptTokenCount"@)),
            output_tokens: match answer_tokens(usage) {
                Some(n) => Some(n as u32),
                None => None,
            },
            total_tokens: saturated(usage.unsigned_at("totalTokenCount"@)),
        },
    }
}

fn saturate(n: Option<u64>) -> (r: Option<u32>)
    ensures
        r == saturated(n),
{
    match n {
        Some(n) => Some(
            if n > 0xffff_ffff {
                0xffff_ffff
            } else {
                n as u32
            },
        ),
        None => None,
    }
}

impl GeminiLlm {
    /// The content of an answer: the texts and calls of its first candidate.
    pub fn parse_response(response_body: &JsonValue) -> (r: Result<Content, AgentError>)
        ensures
            match r {
                Ok(content) => read_response(response_body@) == Ok::<Seq<PartModel>, ErrorView>(
                    content@,
                ),
                Err(e) => read_response(response_body@) == Err::<Seq<PartModel>, ErrorView>(e@),
            },
    {
        let candidates = match response_body.array_at("candidates") {
            Some(c) => c,
            None => {
                return Err(
                    gemini_error(
                        "Missing or invalid 'candidates' field in response".to_owned(),
                    ),
                );
            },
        };
        proof {
            assert(models(candidates@).len() == candidates@.len());
        }
        if candidates.len() == 0 {
            return Err(gemini_error("Empty candidates array in response".to_owned()));
        }
        proof {
            assert(models(candidates@)[0] == candidates@[0]@);
        }
        let parts = match candidates[0].get("content") {
            Some(content) => content.array_at("parts"),
            None => None,
        };
        let parts = match parts {
            Some(p) => p,
            None => {
                return Err(
                    gemini_error("Missing or invalid 'content.parts' in candidate".to_owned()),
                );
            },
        };
        let mut content = Content::default();
        let mut i: usize = 0;
        let ghost all = models(parts@);
        proof {
            assert(all.take(0) =~= Seq::<Json>::empty());
        }
        while i < parts.len()
            invariant
                i <= parts.len(),
                all == models(parts@),
                read_response(response_body@) == read_parts(all),
                read_parts(all.take(i as int)) == Ok::<Seq<PartModel>, ErrorView>(content@),
            decreases parts.len() - i,
        {
            let part = &parts[i];
            proof {
                assert(all.take(i + 1).drop_last() =~= all.take(i as int));
                assert(all.take(i + 1).last() == part@);
            }
            match part.str_at("text") {
                Some(text) => {
                    if !blank(text) {
                        content.push(ContentPart::Text(text.to_owned()));
                    }
                },
                None => {},
            }
            match part.get("functionCall") {
                Some(call) => {
                    match call.str_at("name") {
                        Some(name) => {
                            let args = match call.get("args") {
                                Some(a) => a.clone(),
                                None => JsonValue::Null,
                            };
                            let tool_call = ToolCall::new(name, name, args).with_provider_metadata(
                                part.clone(),
                            );
                            content.push(ContentPart::ToolCall(tool_call));
                        },
                        None => {
                            proof {
                                lemma_error_stays(all, i + 1);
                            }
                            return Err(gemini_error("Missing 'name' in functionCall".to_owned()));
                        },
                    }
                },
                None => {},
            }
            i = i + 1;
        }
        proof {
            assert(all.take(all.len() as int) =~= all);
        }
        Ok(content)
    }

    /// Tells whether the tokens of the answer can be counted.
    pub fn usage_can_be_counted(response_body: &JsonValue) -> (r: bool)
        ensures
            r == usage_fits(response_body@),
    {
        match response_body.get("usageMetadata") {
            None => true,
            Some(usage) => match (
                saturate(usage.u64_at("candidatesTokenCount")),
                saturate(usage.u64_at("thoughtsTokenCount")),
            ) {
                (Some(c), Some(t)) => c as u64 + t as u64 <= 0xffff_ffff,
                _ => true,
            },
        }
    }

    /// The usage that an answer reports.
    pub fn parse_usage(response_body: &JsonValue) -> (r: TokenUsage)
        requires
            usage_fits(response_body@),
        ensures
            r == read_usage(response_body@),
    {
        let usage = match response_body.get("usageMetadata") {
            None => {
                return TokenUsage::empty();
            },
            Some(usage) => usage,
        };
        let prompt_tokens = saturate(usage.u64_at("promptTokenCount"));
        let candidates_tokens = saturate(usage.u64_at("candidatesTokenCount"));
        let thoughts_tokens = saturate(usage.u64_at("thoughtsTokenCount"));
        let completion_tokens = match (candidates_tokens, thoughts_tokens) {
            (Some(c), Some(t)) => Some(c + t),
            (Some(c), None) => Some(c),
            (None, Some(t)) => Some(t),
            (None, None) => None,
        };
        let total_tokens = saturate(usage.u64_at("totalTokenCount"));
        TokenUsage::partial(prompt_tokens, completion_tokens, total_tokens)
    }

    /// What an answer without an error says: its content and its usage.
    pub fn read_answer(response_body: &JsonValue) -> (r: Result<LlmResponse, AgentError>)
        requires
            usage_fits(response_body@),
        ensures
            match r {
                Ok(answer) => read_response(response_body@) == Ok::<Seq<PartModel>, ErrorView>(
                    answer.content@,
                ) && answer.usage == read_usage(response_body@),
                Err(e) => read_response(response_body@) == Err::<Seq<PartModel>, ErrorView>(e@),
            },
    {
        match GeminiLlm::parse_response(response_body) {
            Ok(content) => {
                let usage = GeminiLlm::parse_usage(response_body);
                Ok(LlmResponse { content, usage })
            },
            Err(e) => Err(e),
        }
    }
}

// ---------------------------------------------------------------------------
// Laws
// ---------------------------------------------------------------------------

/// A call that came from the provider goes back to it as it came: read from a part of an answer
/// and sent again as what the model said, it is that part.
pub proof fn calls_go_back_unchanged(part: Json, before: Seq<PartModel>)
    requires
        read_part(before, part) is Ok,
        part.at("functionCall"@) is Some,
    ensures
        ({
            let content = read_part(before, part)->Ok_0;
            assistant_part(content.last()) == Some(part)
        }),
{
}

/// What the system said is never sent as a message.
pub proof fn system_is_no_message(before: Seq<Json>, events: Seq<EventModel>, e: EventModel)
    requires
        e.role == Role::System,
    ensures
        sent_contents(before, events.push(e)) == sent_contents(before, events),
{
    lemma_system_says_nothing(e.content);
    assert(events.push(e).drop_last() =~= events);
}

} // verus!
