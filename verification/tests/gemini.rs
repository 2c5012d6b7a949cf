//! Talking to Gemini.

use radkit::errors::AgentError;
use radkit::json::{JsonMap, JsonNumber, JsonValue};
use radkit::models::providers::gemini_computer_use::{
    parse_actions, ActionOutcome, ComputerUseRun, GeminiComputerUseWorker, RunNext, RunReply,
    SafetyDecision,
};
use radkit::models::providers::gemini_llm::{
    check_api_error, check_status, generate_content_url, gemini_error, GeminiLlm,
};
use radkit::models::{
    Content, ContentPart, DataPart, DataSource, Event, Role, Thread, TokenUsage,
};
use radkit::tools::{FunctionDeclaration, ToolCall, ToolResponse, ToolResult};
use std::sync::Arc;

fn convert(value: &serde_json::Value) -> JsonValue {
    match value {
        serde_json::Value::Null => JsonValue::Null,
        serde_json::Value::Bool(b) => JsonValue::Bool(*b),
        serde_json::Value::Number(n) => {
            if let Some(u) = n.as_u64() {
                JsonValue::Number(JsonNumber::PosInt(u))
            } else if let Some(i) = n.as_i64() {
                JsonValue::Number(JsonNumber::NegInt(i))
            } else {
                let bits = n.as_f64().expect("a finite number").to_bits();
                JsonValue::Number(JsonNumber::Float { bits })
            }
        }
        serde_json::Value::String(s) => JsonValue::String(s.clone()),
        serde_json::Value::Array(v) => JsonValue::Array(v.iter().map(convert).collect()),
        serde_json::Value::Object(m) => {
            let mut map = JsonMap::new();
            for (k, v) in m {
                map.insert(k.clone(), convert(v));
            }
            JsonValue::Object(map)
        }
    }
}

fn json(text: &str) -> JsonValue {
    let value: serde_json::Value = serde_json::from_str(text).expect("valid JSON");
    convert(&value)
}

fn at<'a>(value: &'a JsonValue, path: &[&str]) -> &'a JsonValue {
    let mut v = value;
    for step in path {
        v = match step.parse::<usize>() {
            Ok(i) => &v.as_array().expect("an array")[i],
            Err(_) => v.get(step).expect("a member"),
        };
    }
    v
}

fn llm() -> GeminiLlm {
    GeminiLlm::new("gemini-2.5-flash".to_string(), "api-key".to_string())
}

fn text(t: &str) -> Content {
    Content::from_text(t.to_string())
}

fn float(x: f64) -> JsonValue {
    JsonValue::Number(JsonNumber::Float { bits: x.to_bits() })
}

fn declaration(name: &str) -> FunctionDeclaration {
    FunctionDeclaration {
        name: name.to_string(),
        description: "Test tool".to_string(),
        parameters: json(r#"{"type": "object"}"#),
    }
}

#[test]
fn build_request_payload_includes_system_instruction() {
    let llm = llm().with_temperature(float(f64::from(0.8f32))).with_max_tokens(1024);

    let thread = Thread { system: Some("You are helpful".to_string()), events: Vec::new() }
        .add_event(Event { role: Role::User, content: text("Hello") })
        .add_event(Event { role: Role::Assistant, content: text("Working") });

    let payload = llm.build_request_payload(thread, &vec![declaration("gemini_tool")]);

    assert_eq!(
        at(&payload, &["systemInstruction", "parts", "0", "text"]).as_str(),
        Some("You are helpful")
    );

    let temperature = match at(&payload, &["generationConfig", "temperature"]) {
        JsonValue::Number(JsonNumber::Float { bits }) => f64::from_bits(*bits),
        other => panic!("unexpected temperature: {other:?}"),
    };
    assert!((temperature - 0.8).abs() < 1e-6);
    assert_eq!(at(&payload, &["generationConfig", "maxOutputTokens"]).as_u64(), Some(1024));

    let tools = payload.array_at("tools").expect("tools array");
    assert_eq!(tools.len(), 1);
    assert_eq!(
        at(&payload, &["tools", "0", "function_declarations", "0", "name"]).as_str(),
        Some("gemini_tool")
    );
}

const ANSWER: &str = r#"{
    "candidates": [
        {
            "content": {
                "role": "model",
                "parts": [
                    {"text": "Hello user"},
                    {"functionCall": {"name": "lookup", "args": {"key": "value"}}}
                ]
            }
        }
    ],
    "usageMetadata": {
        "promptTokenCount": 8,
        "candidatesTokenCount": 4,
        "thoughtsTokenCount": 2,
        "totalTokenCount": 14
    }
}"#;

fn calls_of(content: &Content) -> Vec<&ToolCall> {
    content
        .parts
        .iter()
        .filter_map(|p| match p {
            ContentPart::ToolCall(c) => Some(c),
            _ => None,
        })
        .collect()
}

#[test]
fn parse_response_extracts_text_and_tool_calls() {
    let body = json(ANSWER);

    let content = GeminiLlm::parse_response(&body).expect("content");
    assert_eq!(content.first_text(), Some("Hello user"));
    let calls = calls_of(&content);
    assert_eq!(calls.len(), 1);
    assert_eq!(calls[0].name, "lookup");

    assert!(GeminiLlm::usage_can_be_counted(&body));
    let usage = GeminiLlm::parse_usage(&body);
    assert_eq!(usage.input_tokens, Some(8));
    assert_eq!(usage.output_tokens, Some(6));
    assert_eq!(usage.total_tokens, Some(14));
}

#[test]
fn parse_response_missing_candidates_errors() {
    let body = json("{}");
    let err = GeminiLlm::parse_response(&body).expect_err("expected error");
    match err {
        AgentError::LlmProvider { provider, .. } => assert_eq!(provider, "Gemini"),
        other => panic!("unexpected error: {other:?}"),
    }
}

#[test]
fn from_env_validates_presence() {
    let missing = GeminiLlm::from_env("model".to_string(), None);
    assert!(matches!(missing, Err(AgentError::MissingConfiguration { .. })));

    let empty = GeminiLlm::from_env("model".to_string(), Some(String::new()));
    assert!(matches!(empty, Err(AgentError::InvalidConfiguration { .. })));

    let present = GeminiLlm::from_env("model".to_string(), Some("key".to_string())).expect("llm");
    assert_eq!(present.api_key, "key");
    assert_eq!(present.model_name(), "model");
}

#[test]
fn parse_actions_extracts_function_calls() {
    let model_content = json(
        r#"{
            "role": "model",
            "parts": [
                {"text": "I will click the search bar."},
                {
                    "functionCall": {
                        "name": "click_at",
                        "args": {"x": 500, "y": 300}
                    }
                }
            ]
        }"#,
    );

    let actions = parse_actions(&model_content).expect("actions");
    assert_eq!(actions.len(), 1);
    assert_eq!(actions[0].name, "click_at");
    assert_eq!(actions[0].args.u64_at("x"), Some(500));
    assert!(actions[0].safety_decision.is_none());
}

#[test]
fn parse_actions_extracts_safety_decision() {
    let model_content = json(
        r#"{
            "role": "model",
            "parts": [{
                "functionCall": {
                    "name": "click_at",
                    "args": {
                        "x": 60,
                        "y": 100,
                        "safety_decision": {
                            "decision": "require_confirmation",
                            "explanation": "This clicks an I'm-not-a-robot checkbox."
                        }
                    }
                }
            }]
        }"#,
    );

    let actions = parse_actions(&model_content).expect("actions");
    assert_eq!(actions.len(), 1);
    assert!(actions[0].args.get("safety_decision").is_none());
    let sd = actions[0].safety_decision.as_ref().expect("safety_decision");
    assert!(sd.requires_confirmation());
    assert!(!sd.explanation.is_empty());
}

#[test]
fn parse_actions_empty_when_no_function_calls() {
    let model_content = json(r#"{"role": "model", "parts": [{"text": "The task is complete."}]}"#);

    let actions = parse_actions(&model_content).expect("actions");
    assert!(actions.is_empty());
}

#[test]
fn safety_decision_requires_confirmation() {
    let sd = SafetyDecision {
        decision: "require_confirmation".to_string(),
        explanation: "Clicking accept terms".to_string(),
    };
    assert!(sd.requires_confirmation());

    let sd_allowed = SafetyDecision {
        decision: "regular".to_string(),
        explanation: String::new(),
    };
    assert!(!sd_allowed.requires_confirmation());
}

struct NoopHandler;

#[test]
fn computer_use_worker_default_model() {
    let llm = Arc::new(GeminiLlm::new("gemini-2.5-flash".to_string(), "key".to_string()));
    let worker = llm.computer_use_worker(NoopHandler);
    assert_eq!(worker.model, GeminiComputerUseWorker::<NoopHandler>::DEFAULT_MODEL);
    assert_eq!(worker.max_turns, 20);
}

#[test]
fn computer_use_worker_builder_overrides() {
    let llm = Arc::new(GeminiLlm::new("gemini-2.5-flash".to_string(), "key".to_string()));
    let worker = llm
        .computer_use_worker(NoopHandler)
        .with_model("gemini-3-flash-preview".to_string())
        .with_max_turns(5);

    assert_eq!(worker.model, "gemini-3-flash-preview");
    assert_eq!(worker.max_turns, 5);
}

#[test]
fn addresses_follow_the_base_and_the_model() {
    assert_eq!(
        llm().url(),
        "https://generativelanguage.googleapis.com/v1beta/models/gemini-2.5-flash:generateContent"
    );
    let own = llm().with_base_url("http://here/".to_string());
    assert_eq!(own.url(), "http://here/models/gemini-2.5-flash:generateContent");
    assert_eq!(generate_content_url("b/", "m"), "b/models/m:generateContent");
}

#[test]
fn system_events_join_the_system_instruction() {
    let thread = Thread { system: Some("first".to_string()), events: Vec::new() }
        .add_event(Event { role: Role::System, content: text("second") })
        .add_event(Event { role: Role::User, content: text("Hello") });
    let payload = llm().build_request_payload(thread, &Vec::new());
    let instruction = at(&payload, &["systemInstruction", "parts", "0", "text"]);
    let said = instruction.as_str().expect("text");
    assert!(said.starts_with("first"));
    assert!(said.ends_with("second"));
    assert_eq!(payload.array_at("contents").expect("contents").len(), 1);
    assert!(payload.get("tools").is_none());
    assert!(payload.get("generationConfig").is_none());
}

#[test]
fn nothing_is_said_for_an_absent_system() {
    let payload = llm().build_request_payload(
        Thread { system: None, events: vec![Event::user(text("Hello"))] },
        &Vec::new(),
    );
    assert!(payload.get("systemInstruction").is_none());
    assert_eq!(at(&payload, &["contents", "0", "role"]).as_str(), Some("user"));
    assert_eq!(at(&payload, &["contents", "0", "parts", "0", "text"]).as_str(), Some("Hello"));
}

#[test]
fn roles_are_named_for_the_provider() {
    let mut contents: Vec<JsonValue> = Vec::new();
    GeminiLlm::process_user_message(text("u"), &mut contents);
    GeminiLlm::process_assistant_message(text("a"), &mut contents);
    assert_eq!(contents.len(), 2);
    assert_eq!(contents[0].str_at("role"), Some("user"));
    assert_eq!(contents[1].str_at("role"), Some("model"));
}

#[test]
fn calls_and_their_results_are_sent() {
    let mut contents: Vec<JsonValue> = Vec::new();
    let call = ToolCall::new("id-1", "lookup", json(r#"{"key": "value"}"#));
    let mut content = Content::default();
    content.push(ContentPart::ToolCall(call));
    GeminiLlm::process_assistant_message(content, &mut contents);
    assert_eq!(at(&contents[0], &["parts", "0", "functionCall", "name"]).as_str(), Some("lookup"));
    assert_eq!(
        at(&contents[0], &["parts", "0", "functionCall", "args", "key"]).as_str(),
        Some("value")
    );

    let mut answer = Content::default();
    answer.push(ContentPart::ToolResponse(ToolResponse {
        tool_call_id: "id-1".to_string(),
        result: ToolResult::success(json(r#"{"found": true}"#)),
    }));
    GeminiLlm::process_tool_message(answer, &mut contents);
    assert_eq!(contents.len(), 2);
    assert!(at(&contents[1], &["parts", "0"]).get("functionResponse").is_some());
}

#[test]
fn data_is_sent_inline_or_by_address() {
    let mut contents: Vec<JsonValue> = Vec::new();
    let mut content = Content::default();
    content.push(ContentPart::Data(DataPart {
        content_type: "image/png".to_string(),
        source: DataSource::Base64("AAAA".to_string()),
    }));
    content.push(ContentPart::Data(DataPart {
        content_type: "image/png".to_string(),
        source: DataSource::Uri("gs://bucket/file".to_string()),
    }));
    GeminiLlm::process_user_message(content, &mut contents);
    let parts = contents[0].array_at("parts").expect("parts");
    assert_eq!(parts.len(), 2);
}

#[test]
fn usage_saturates_and_may_be_missing() {
    assert!(GeminiLlm::usage_can_be_counted(&json("{}")));
    let none = GeminiLlm::parse_usage(&json("{}"));
    assert!(none == TokenUsage::empty());

    let huge = json(r#"{"usageMetadata": {"promptTokenCount": 4294967296}}"#);
    assert!(GeminiLlm::usage_can_be_counted(&huge));
    assert_eq!(GeminiLlm::parse_usage(&huge).input_tokens, Some(u32::MAX));

    let over = json(
        r#"{"usageMetadata": {"candidatesTokenCount": 4294967295, "thoughtsTokenCount": 1}}"#,
    );
    assert!(!GeminiLlm::usage_can_be_counted(&over));
}

#[test]
fn answers_are_read_whole() {
    let answer = GeminiLlm::read_answer(&json(ANSWER)).expect("answer");
    assert_eq!(answer.content.first_text(), Some("Hello user"));
    assert_eq!(answer.usage.total_tokens, Some(14));
}

#[test]
fn signatures_go_back_with_the_calls() {
    let body = json(
        r#"{"candidates": [{"content": {"parts": [
            {"functionCall": {"name": "lookup", "args": {}}, "thoughtSignature": "sig"}
        ]}}]}"#,
    );
    let content = GeminiLlm::parse_response(&body).expect("content");
    let mut contents: Vec<JsonValue> = Vec::new();
    GeminiLlm::process_assistant_message(content, &mut contents);
    assert_eq!(at(&contents[0], &["parts", "0"]).str_at("thoughtSignature"), Some("sig"));
}

#[test]
fn statuses_become_errors() {
    assert!(check_status(200, "200 OK", None).is_ok());
    assert!(matches!(
        check_status(401, "401 Unauthorized", Some("x".to_string())),
        Err(AgentError::LlmAuthentication { .. })
    ));
    assert!(matches!(
        check_status(429, "429 Too Many Requests", Some("x".to_string())),
        Err(AgentError::LlmRateLimit { .. })
    ));
    assert!(matches!(
        check_status(500, "500 Internal Server Error", Some("x".to_string())),
        Err(AgentError::LlmProvider { .. })
    ));
}

#[test]
fn errors_in_answers_are_found() {
    assert!(check_api_error(&json("{}"), "").is_ok());
    assert!(check_api_error(&json(r#"{"error": {"message": "bad"}}"#), "{}").is_err());
    assert_eq!(
        gemini_error("m".to_string()).to_string(),
        AgentError::LlmProvider { provider: "Gemini".to_string(), message: "m".to_string() }
            .to_string()
    );
}

// ---------------------------------------------------------------------------
// The loop of a worker
// ---------------------------------------------------------------------------

fn step(run: ComputerUseRun, reply: RunReply) -> (ComputerUseRun, RunNext) {
    assert!(run.is_waiting_for(&reply));
    run.step(reply)
}

fn shot() -> RunReply {
    RunReply::Screenshot(Ok(vec![0x4d, 0x61, 0x6e]))
}

fn call_answer() -> RunReply {
    RunReply::Answer(Ok(json(
        r#"{"candidates": [{"content": {"role": "model", "parts": [
            {"functionCall": {"name": "click_at", "args": {"x": 1,
                "safety_decision": {"decision": "require_confirmation", "explanation": "e"}}}}
        ]}}]}"#,
    )))
}

fn text_answer() -> RunReply {
    RunReply::Answer(Ok(json(
        r#"{"candidates": [{"content": {"role": "model", "parts": [{"text": "All done."}]}}]}"#,
    )))
}

#[test]
fn work_ends_with_the_text_of_the_model() {
    let worker = Arc::new(llm()).computer_use_worker(NoopHandler);
    let run = worker.run("find it");
    let (run, next) = step(run, shot());
    assert!(matches!(next, RunNext::CallApi));

    let (url, payload) = worker.call_api(&run.contents);
    assert!(url.ends_with("gemini-2.5-computer-use-preview-10-2025:generateContent"));
    let opening = at(&payload, &["contents", "0", "parts"]).as_array().expect("parts");
    assert!(opening.iter().any(|p| p.str_at("text") == Some("find it")));
    // Three bytes are four characters of base64.
    assert!(opening.iter().any(|p| match p.get("inlineData").or(p.get("inline_data")) {
        Some(d) => d.str_at("data") == Some("TWFu"),
        None => false,
    }));

    let (run, next) = step(run, call_answer());
    let RunNext::Execute(action) = next else { panic!("expected an action, got {next:?}") };
    assert_eq!(action.name, "click_at");
    assert!(action.safety_decision.is_some());

    let outcome = RunReply::Outcome(ActionOutcome::Success { url: "http://here".to_string() });
    let (run, next) = step(run, outcome);
    assert!(matches!(next, RunNext::TakeScreenshot));
    let (run, next) = step(run, shot());
    assert!(matches!(next, RunNext::CallApi));
    let (_, next) = step(run, text_answer());
    match next {
        RunNext::Done(Ok(said)) => assert_eq!(said, "All done."),
        other => panic!("expected the end, got {other:?}"),
    }
}

#[test]
fn denied_actions_end_the_work() {
    let run = ComputerUseRun::start("goal", 5);
    let (run, _) = step(run, shot());
    let (run, _) = step(run, call_answer());
    let denied = RunReply::Outcome(ActionOutcome::Denied { reason: "no".to_string() });
    let (_, next) = step(run, denied);
    assert!(matches!(next, RunNext::Done(Err(AgentError::SecurityViolation { .. }))));
}

#[test]
fn turns_are_limited() {
    let mut run = ComputerUseRun::start("goal", 3);
    let mut calls: usize = 0;
    let mut reply = shot();
    for _ in 0..100 {
        let (after, next) = step(run, reply);
        run = after;
        reply = match next {
            RunNext::CallApi => {
                calls += 1;
                call_answer()
            }
            RunNext::TakeScreenshot => shot(),
            RunNext::Execute(_) => {
                RunReply::Outcome(ActionOutcome::Error { message: "missed".to_string() })
            }
            RunNext::Done(result) => {
                assert!(matches!(result, Err(AgentError::ResourceExhausted { .. })));
                assert_eq!(calls, 3);
                return;
            }
        };
    }
    panic!("the work did not end");
}

#[test]
fn confirmed_actions_are_acknowledged() {
    let run = ComputerUseRun::start("goal", 5);
    let (run, _) = step(run, shot());
    let (run, _) = step(run, call_answer());
    let outcome = RunReply::Outcome(ActionOutcome::Success { url: "u".to_string() });
    let (run, _) = step(run, outcome);
    let (run, _) = step(run, shot());
    let last = run.contents.last().expect("contents");
    let response = at(last, &["parts", "0", "functionResponse", "response"]);
    assert_eq!(response.str_at("url"), Some("u"));
    assert!(response.get("safety_acknowledgement").is_some());
}

#[test]
fn failed_screenshots_and_calls_end_the_work() {
    let run = ComputerUseRun::start("goal", 5);
    let (_, next) = step(run, RunReply::Screenshot(Err("no display".to_string())));
    assert!(matches!(next, RunNext::Done(Err(_))));

    let run = ComputerUseRun::start("goal", 5);
    let (run, _) = step(run, shot());
    let (run, next) = step(run, RunReply::Answer(Err(AgentError::Network("down".to_string()))));
    assert!(matches!(next, RunNext::Done(Err(AgentError::Network(_)))));
    assert!(!run.is_waiting_for(&shot()));
}
