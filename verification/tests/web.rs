//! What clients are told over the web.

use radkit::a2a::{
    task_with_history, Artifact, Message, Task, TaskArtifactUpdate, TaskEvent, TaskState,
    TaskStatus, TaskStatusUpdate, TaskView, Timestamp,
};
use radkit::agent::builder::{Agent, AgentDefinition};
use radkit::agent::skill::{RegisteredSkill, SkillMetadata};
use radkit::errors::AgentError;
use radkit::json::JsonValue;
use radkit::models::{Content, Role};
use radkit::runtime::execution::executor::RequestExecutor;
use radkit::runtime::task_store::{
    deserialize_json, is_in_memory_url, max_connections, serialize_json,
};
use radkit::runtime::web::{
    build_agent_card, build_jsonrpc_error_response, build_jsonrpc_success_response,
    compare_status_time, fetch_context_tasks, fetch_task_events, fetch_task_transitions,
    fetch_v1_tasks, infer_base_url, initial_responses, json_rpc_method, method_name, page_offset,
    parse_json_body, parse_rpc_params, task_event_to_v1_response, task_get_route, task_post_route,
    tasks_in_context,
    task_state_matches_filter, timestamp_after_filter, truncate_history, AgentInfo, JsonRpcId,
    ListTasksQuery, RpcMethod, StreamResponse, TaskGetRoute, TaskPostRoute, UiTaskSummary,
};
use std::sync::Arc;

struct ImmediateSkill;

impl RegisteredSkill<()> for ImmediateSkill {
    fn metadata() -> Arc<SkillMetadata> {
        Arc::new(SkillMetadata::new(
            "immediate-skill",
            "Immediate Skill",
            "Completes immediately",
            &["fast"],
            &[],
            &[],
            &[],
        ))
    }

    fn into_handler(self) {}
}

fn agent() -> AgentDefinition<()> {
    Agent::builder()
        .with_version("1.0.0".to_string())
        .with_name("Test Agent".to_string())
        .with_skill(ImmediateSkill)
        .build()
}

fn message(id: &str, role: Role, text: &str) -> Message {
    Message {
        message_id: id.to_string(),
        context_id: "ctx-99".to_string(),
        task_id: "task-42".to_string(),
        role,
        content: Content::from_text(text.to_string()),
    }
}

fn status(state: TaskState, seconds: Option<i64>) -> TaskStatus {
    TaskStatus {
        state: state.to_code(),
        timestamp: seconds.map(|seconds| Timestamp { seconds, nanos: 0 }),
        message: None,
    }
}

fn view(id: &str, state: TaskState, seconds: Option<i64>) -> TaskView {
    TaskView {
        id: id.to_string(),
        context_id: "ctx-99".to_string(),
        status: Some(status(state, seconds)),
        history: vec![
            message("m-1", Role::User, "one"),
            message("m-2", Role::Assistant, "two"),
            message("m-3", Role::User, "three"),
        ],
        artifacts: vec![Artifact {
            artifact_id: "a".to_string(),
            name: "report".to_string(),
            description: String::new(),
            content: Content::default(),
            metadata: None,
        }],
    }
}

fn update(state: TaskState, seconds: Option<i64>) -> TaskEvent {
    TaskEvent::StatusUpdate(TaskStatusUpdate {
        task_id: "task-1".to_string(),
        context_id: "ctx-1".to_string(),
        status: Some(status(state, seconds)),
        is_final: false,
    })
}

fn no_query() -> ListTasksQuery {
    ListTasksQuery {
        context_id: None,
        status: None,
        page_size: None,
        page_token: None,
        history_length: None,
        status_timestamp_after: None,
        include_artifacts: None,
    }
}

#[test]
fn infers_localhost_variants() {
    assert_eq!(infer_base_url("0.0.0.0:8080"), "http://localhost:8080");
    assert_eq!(infer_base_url("127.0.0.1:3000"), "http://localhost:3000");
    assert_eq!(infer_base_url("localhost:9000"), "http://localhost:9000");
    assert_eq!(infer_base_url("8080"), "http://localhost:8080");
}

#[test]
fn keeps_host_when_present() {
    assert_eq!(infer_base_url("example.com:7000"), "http://example.com:7000");
    assert_eq!(infer_base_url("api.internal:443"), "http://api.internal:443");
}

#[test]
fn addresses_without_a_port_are_local() {
    assert_eq!(infer_base_url("example.com"), "http://localhost");
    assert_eq!(infer_base_url(""), "http://localhost");
    assert_eq!(infer_base_url("host:99999"), "http://localhost");
}

#[test]
fn agent_card_handler_returns_v1_agent_card() {
    let card = build_agent_card(Some("http://localhost:3000"), None, &agent());
    assert!(card.capabilities.streaming);
    assert_eq!(card.skills.len(), 1);
    assert_eq!(card.supported_interfaces.len(), 2);
    assert_eq!(card.supported_interfaces[0].protocol_binding, "JSONRPC");
    assert_eq!(card.supported_interfaces[0].url, "http://localhost:3000/rpc");
    assert_eq!(card.supported_interfaces[1].protocol_binding, "HTTP+JSON");
    assert_eq!(card.supported_interfaces[1].url, "http://localhost:3000");
}

#[test]
fn agent_cards_find_their_address() {
    let bound = build_agent_card(None, Some("0.0.0.0:8080"), &agent());
    assert_eq!(bound.supported_interfaces[1].url, "http://localhost:8080");
    let slashes = build_agent_card(Some("http://here//"), Some("0.0.0.0:1"), &agent());
    assert_eq!(slashes.supported_interfaces[0].url, "http://here/rpc");
    let bare = build_agent_card(None, None, &agent());
    assert_eq!(bare.supported_interfaces[1].url, "http://localhost");
    assert_eq!(bare.name, "Test Agent");
    assert_eq!(bare.version, "1.0.0");
    assert_eq!(bare.description, "");
    assert!(!bare.capabilities.push_notifications);
    assert!(bare.capabilities.extended_agent_card);
    assert_eq!(bare.skills[0].tags, vec!["fast"]);
    let info = AgentInfo::from_agent_definition(&agent());
    assert_eq!((info.name.as_str(), info.skill_count), ("Test Agent", 1));
}

#[test]
fn answers_carry_the_identifier_of_the_request() {
    let id = Some(JsonRpcId::String("req-v1".to_string()));
    let response = build_jsonrpc_success_response(&id, JsonValue::text("result"));
    assert_eq!(response.str_at("id"), Some("req-v1"));
    assert_eq!(response.str_at("jsonrpc"), Some("2.0"));
    assert_eq!(response.str_at("result"), Some("result"));
}

#[test]
fn methods_go_by_their_names() {
    for name in [
        "SendMessage",
        "SendStreamingMessage",
        "GetTask",
        "CancelTask",
        "SubscribeToTask",
        "GetExtendedAgentCard",
    ] {
        assert_eq!(method_name(json_rpc_method("2.0", name).expect("a method")), name);
    }
    match json_rpc_method("1.0", "GetTask") {
        Err(AgentError::Validation { field, reason }) => {
            assert_eq!(field, "jsonrpc");
            assert_eq!(reason, "expected `2.0`, got `1.0`");
        }
        other => panic!("unexpected result: {other:?}"),
    }
    match json_rpc_method("2.0", "Other") {
        Err(AgentError::NotImplemented { feature }) => {
            assert_eq!(feature, "JSON-RPC method `Other`");
        }
        other => panic!("unexpected result: {other:?}"),
    }
}

#[test]
fn identifiers_of_requests_come_back() {
    let of = |id: Option<JsonRpcId>| build_jsonrpc_error_response(&id, JsonValue::Null);
    assert!(matches!(of(None).get("id"), Some(JsonValue::Null)));
    assert!(matches!(of(Some(JsonRpcId::Null)).get("id"), Some(JsonValue::Null)));
    assert_eq!(of(Some(JsonRpcId::Integer(7))).u64_at("id"), Some(7));
    assert!(of(None).get("error").is_some());
}

#[test]
fn unreadable_bodies_are_told() {
    match parse_json_body::<()>(Err("EOF".to_string()), "JSON-RPC request") {
        Err(AgentError::Serialization { format, reason }) => {
            assert_eq!(format, "json");
            assert_eq!(reason, "failed to parse JSON-RPC request: EOF");
        }
        other => panic!("unexpected result: {other:?}"),
    }
    assert_eq!(parse_json_body(Ok(3), "x").expect("read"), 3);
    assert!(parse_rpc_params::<()>(Err("EOF".to_string()), "GetTask").is_err());
    assert_eq!(parse_rpc_params(Ok(3), "GetTask").expect("read"), 3);
}

#[test]
fn subscribe_task_handler_returns_not_found_for_missing_task() {
    let err = RequestExecutor::<AgentDefinition<()>>::handle_task_resubscribe(
        None,
        "task-123",
        Vec::new(),
    )
    .expect_err("missing");
    assert!(matches!(err, AgentError::TaskNotFound { .. }));
    assert!(err.to_string().contains("not found"));
}

#[test]
fn build_task_with_history_collects_event_messages() {
    let stored_task = Task {
        id: "task-42".to_string(),
        context_id: "ctx-99".to_string(),
        status: status(TaskState::Completed, None),
        artifacts: Vec::new(),
    };
    let events = vec![
        TaskEvent::Message(message("msg-1", Role::User, "Hello runtime")),
        TaskEvent::ArtifactUpdate(TaskArtifactUpdate {
            task_id: "task-42".to_string(),
            context_id: "ctx-99".to_string(),
            artifact: None,
            append: false,
            last_chunk: true,
        }),
        TaskEvent::StatusUpdate(TaskStatusUpdate {
            task_id: "task-42".to_string(),
            context_id: "ctx-99".to_string(),
            status: Some(TaskStatus {
                state: TaskState::Completed.to_code(),
                timestamp: None,
                message: Some(message("msg-2", Role::Assistant, "Finished")),
            }),
            is_final: true,
        }),
    ];

    let task = task_with_history(stored_task, events);
    assert_eq!(task.id, "task-42");
    assert_eq!(task.history.len(), 2);
    assert!(task
        .history
        .iter()
        .any(|msg| msg.role == Role::User && msg.content.parts.len() == 1));
    assert!(task
        .history
        .iter()
        .any(|msg| msg.role == Role::Assistant && msg.content.parts.len() == 1));
    assert_eq!(task.status.as_ref().unwrap().state, TaskState::Completed.to_code());
}

#[test]
fn build_v1_streaming_sse_sends_only_status_events() {
    let (sent, ended) = initial_responses(vec![update(TaskState::Completed, None)]);
    assert!(ended);
    assert_eq!(sent.len(), 1);
    match &sent[0] {
        StreamResponse::StatusUpdate(update) => {
            let state = TaskState::from_code(update.status.as_ref().expect("status").state);
            assert!(state == Some(TaskState::Completed));
        }
        other => panic!("unexpected response payload: {other:?}"),
    }
}

#[test]
fn streams_end_with_the_first_final_status() {
    let (sent, ended) = initial_responses(vec![
        update(TaskState::Working, None),
        TaskEvent::Message(message("m", Role::User, "x")),
        update(TaskState::Failed, None),
        update(TaskState::Working, None),
    ]);
    assert!(ended);
    assert_eq!(sent.len(), 3);
    let (sent, ended) = initial_responses(vec![update(TaskState::InputRequired, None)]);
    assert_eq!(sent.len(), 1);
    assert!(!ended);
    for (state, last) in [
        (TaskState::Unspecified, true),
        (TaskState::Submitted, false),
        (TaskState::Canceled, true),
        (TaskState::Rejected, true),
        (TaskState::AuthRequired, false),
    ] {
        assert_eq!(task_event_to_v1_response(update(state, None)).1, last);
    }
}

// ---------------------------------------------------------------------------
// Lists of tasks
// ---------------------------------------------------------------------------

#[test]
fn tasks_are_listed_page_by_page() {
    let tasks = || (0..5).map(|i| view(&format!("t-{i}"), TaskState::Working, None)).collect();
    let mut query = ListTasksQuery { page_size: Some(2), ..no_query() };
    let mut seen: Vec<String> = Vec::new();
    let mut pages: usize = 0;
    loop {
        assert!(page_offset(&query) <= usize::MAX - 100);
        let page = fetch_v1_tasks(tasks(), &query).expect("page");
        assert_eq!(page.total_size, 5);
        assert_eq!(page.page_size, 2);
        seen.extend(page.tasks.into_iter().map(|t| t.id));
        pages += 1;
        if page.next_page_token.is_empty() {
            break;
        }
        query.page_token = Some(page.next_page_token);
    }
    assert_eq!(seen, vec!["t-0", "t-1", "t-2", "t-3", "t-4"]);
    assert_eq!(pages, 3);
}

#[test]
fn tasks_are_listed_by_conversation() {
    let tasks = || {
        let mut other = view("t-1", TaskState::Working, None);
        other.context_id = "ctx-2".to_string();
        vec![view("t-0", TaskState::Working, None), other, view("t-2", TaskState::Working, None)]
    };
    let ids = |context_id: Option<&str>| {
        let query = ListTasksQuery { context_id: context_id.map(str::to_string), ..no_query() };
        let page = fetch_v1_tasks(tasks(), &query).expect("page");
        assert_eq!(page.total_size as usize, page.tasks.len());
        page.tasks.into_iter().map(|t| t.id).collect::<Vec<_>>()
    };
    assert_eq!(ids(None), vec!["t-0", "t-1", "t-2"]);
    assert_eq!(ids(Some("ctx-2")), vec!["t-1"]);
    assert!(ids(Some("ctx-3")).is_empty());
    let some = tasks_in_context(tasks(), &Some("ctx-2".to_string()));
    assert_eq!(some.len(), 1);
}

#[test]
fn lists_look_at_ten_thousand_tasks() {
    let tasks = (0..10_002).map(|i| view(&format!("t-{i}"), TaskState::Working, None)).collect();
    let page = fetch_v1_tasks(tasks, &no_query()).expect("page");
    assert_eq!(page.total_size, 10_000);
}

#[test]
fn page_sizes_are_kept_between_bounds() {
    let size = |page_size: Option<i32>| {
        let query = ListTasksQuery { page_size, ..no_query() };
        fetch_v1_tasks(Vec::new(), &query).expect("page").page_size
    };
    assert_eq!(size(None), 50);
    assert_eq!(size(Some(0)), 1);
    assert_eq!(size(Some(-5)), 1);
    assert_eq!(size(Some(1000)), 100);
    assert_eq!(page_offset(&ListTasksQuery { page_token: Some("x".to_string()), ..no_query() }), 0);
    assert_eq!(page_offset(&ListTasksQuery { page_token: Some("+7".to_string()), ..no_query() }), 7);
}

#[test]
fn histories_and_artifacts_are_cut() {
    let query = ListTasksQuery { history_length: Some(2), ..no_query() };
    let page = fetch_v1_tasks(vec![view("t", TaskState::Working, None)], &query).expect("page");
    let ids: Vec<&str> = page.tasks[0].history.iter().map(|m| m.message_id.as_str()).collect();
    assert_eq!(ids, vec!["m-2", "m-3"]);
    assert!(page.tasks[0].artifacts.is_empty());

    let query = ListTasksQuery { include_artifacts: Some(true), ..no_query() };
    let page = fetch_v1_tasks(vec![view("t", TaskState::Working, None)], &query).expect("page");
    assert_eq!(page.tasks[0].artifacts.len(), 1);
    assert_eq!(page.tasks[0].history.len(), 3);

    let mut task = view("t", TaskState::Working, None);
    truncate_history(&mut task, Some(-1));
    assert!(task.history.is_empty());
}

#[test]
fn tasks_are_filtered_by_state() {
    let task = view("t", TaskState::InputRequired, None);
    assert!(task_state_matches_filter(&task, " input_required ").expect("known"));
    assert!(task_state_matches_filter(&task, "TASK_STATE_INPUT_REQUIRED").expect("known"));
    assert!(!task_state_matches_filter(&task, "completed").expect("known"));
    match task_state_matches_filter(&task, "asleep") {
        Err(AgentError::Validation { field, reason }) => {
            assert_eq!(field, "status");
            assert_eq!(reason, "unsupported task state `ASLEEP`");
        }
        other => panic!("unexpected result: {other:?}"),
    }
    let unspecified = view("t", TaskState::Unspecified, None);
    assert!(task_state_matches_filter(&unspecified, "unknown").expect("known"));
    assert!(task_state_matches_filter(&task, "unspecified").is_err());
}

#[test]
fn tasks_are_filtered_by_time() {
    let task = view("t", TaskState::Working, Some(1_700_000_000));
    assert!(timestamp_after_filter(&task, "2023-11-14T22:13:20Z").expect("time"));
    assert!(!timestamp_after_filter(&task, "2023-11-14T22:13:21Z").expect("time"));
    assert!(timestamp_after_filter(&task, "2023-11-14T23:13:20+01:00").expect("time"));
    match timestamp_after_filter(&task, "yesterday") {
        Err(AgentError::Validation { field, .. }) => assert_eq!(field, "status_timestamp_after"),
        other => panic!("unexpected result: {other:?}"),
    }
    let untimed = view("t", TaskState::Working, None);
    assert!(!timestamp_after_filter(&untimed, "yesterday").expect("no time to compare"));

    assert!(compare_status_time(&task, Ok(1_700_000_000)).expect("time"));
    assert!(!compare_status_time(&task, Ok(1_700_000_001)).expect("time"));
}

#[test]
fn times_beyond_the_calendar_are_refused() {
    let with = |seconds: i64, nanos: i32| {
        let mut task = view("t", TaskState::Working, Some(seconds));
        if let Some(s) = &mut task.status {
            s.timestamp = Some(Timestamp { seconds, nanos });
        }
        timestamp_after_filter(&task, "1970-01-01T00:00:00Z")
    };
    assert!(with(0, 0).is_ok());
    assert!(with(-8_334_601_228_800, 0).is_ok());
    assert!(with(-8_334_601_228_801, 0).is_err());
    assert!(with(8_210_266_876_799, 0).is_ok());
    assert!(with(8_210_266_876_800, 0).is_err());
    assert!(with(0, 999_999_999).is_ok());
    assert!(with(0, 1_000_000_000).is_err());
    assert!(with(59, 1_999_999_999).is_ok());
    assert!(with(0, -1).is_err());
}

#[test]
fn errors_in_filters_stop_a_list() {
    let query = ListTasksQuery { status: Some("asleep".to_string()), ..no_query() };
    assert!(fetch_v1_tasks(vec![view("t", TaskState::Working, None)], &query).is_err());
    assert_eq!(fetch_v1_tasks(Vec::new(), &query).expect("page").total_size, 0);
    let query = ListTasksQuery {
        status: Some("working".to_string()),
        status_timestamp_after: Some("1970-01-01T00:01:00Z".to_string()),
        ..no_query()
    };
    let tasks = vec![
        view("old", TaskState::Working, Some(59)),
        view("new", TaskState::Working, Some(60)),
        view("done", TaskState::Completed, Some(61)),
    ];
    let page = fetch_v1_tasks(tasks, &query).expect("page");
    assert_eq!(page.tasks.len(), 1);
    assert_eq!(page.tasks[0].id, "new");
}

// ---------------------------------------------------------------------------
// Routes and the development interface
// ---------------------------------------------------------------------------

#[test]
fn paths_of_tasks_are_routed() {
    match task_get_route("t-1:subscribe") {
        TaskGetRoute::Subscribe { task_id } => assert_eq!(task_id, "t-1"),
        other => panic!("unexpected route: {other:?}"),
    }
    match task_get_route("t-1") {
        TaskGetRoute::Get { task_id } => assert_eq!(task_id, "t-1"),
        other => panic!("unexpected route: {other:?}"),
    }
    match task_post_route("t-1:cancel") {
        TaskPostRoute::Cancel { task_id } => assert_eq!(task_id, "t-1"),
        other => panic!("unexpected route: {other:?}"),
    }
    assert!(matches!(task_post_route("t-1"), TaskPostRoute::Unsupported { .. }));
}

#[test]
fn transitions_tell_what_led_to_them() {
    let events = vec![
        update(TaskState::Submitted, Some(0)),
        update(TaskState::InputRequired, Some(1)),
        TaskEvent::Message(message("m", Role::User, "x")),
        update(TaskState::Working, Some(1_700_000_000)),
        update(TaskState::Completed, None),
    ];
    let told = fetch_task_transitions(&events, "now").transitions;
    let triggers: Vec<&str> = told.iter().map(|t| t.trigger.as_str()).collect();
    assert_eq!(
        triggers,
        vec!["on_request", "status_update", "on_input_received", "status_update"]
    );
    let states: Vec<&str> = told.iter().map(|t| t.to_state.as_str()).collect();
    assert_eq!(states, vec!["Submitted", "InputRequired", "Working", "Completed"]);
    assert_eq!(told[0].from_state, None);
    assert_eq!(told[1].from_state.as_deref(), Some("Submitted"));
    assert_eq!(told[0].timestamp, "1970-01-01T00:00:00+00:00");
    assert_eq!(told[2].timestamp, "2023-11-14T22:13:20+00:00");
    assert_eq!(told[3].timestamp, "now");
}

#[test]
fn context_tasks_come_newest_first() {
    let summary = |id: &str, seconds: Option<i64>| UiTaskSummary {
        task: view(id, TaskState::Working, seconds),
        skill_id: None,
        pending_slot: None,
    };
    let sorted = fetch_context_tasks(vec![
        summary("none", None),
        summary("old", Some(1)),
        summary("new", Some(3)),
        summary("old-too", Some(1)),
    ]);
    let ids: Vec<&str> = sorted.iter().map(|s| s.task.id.as_str()).collect();
    assert_eq!(ids, vec!["new", "old", "old-too", "none"]);
}

#[test]
fn events_of_an_ended_task_end_with_it() {
    let task = || Some(view("t", TaskState::Completed, None));
    let told = fetch_task_events(vec![update(TaskState::Completed, None)], task());
    assert_eq!(told.events.len(), 2);
    assert!(matches!(told.events[1].result, StreamResponse::Task(_)));
    assert!(told.events[1].is_final);
    assert!(told.task.is_some());

    let told = fetch_task_events(vec![update(TaskState::Working, None)], task());
    assert_eq!(told.events.len(), 1);
    let told = fetch_task_events(vec![update(TaskState::Completed, None)], None);
    assert_eq!(told.events.len(), 1);
    assert!(told.task.is_none());
}

#[test]
fn stores_in_memory_have_one_connection() {
    assert!(is_in_memory_url("sqlite::memory:"));
    assert!(is_in_memory_url("sqlite://x?mode=memory"));
    assert!(!is_in_memory_url("sqlite://file.db"));
    assert_eq!(max_connections("sqlite::memory:"), 1);
    assert_eq!(max_connections("sqlite://file.db"), 4);
    assert!(serialize_json(Err("bad".to_string()), "task").is_err());
    assert_eq!(serialize_json(Ok("{}".to_string()), "task").expect("written"), "{}");
    assert!(deserialize_json::<()>(Err("bad".to_string()), "task").is_err());
    assert_eq!(deserialize_json(Ok(1), "task").expect("read"), 1);
}
