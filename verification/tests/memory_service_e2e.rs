//! Memory from end to end: the two views of it, documents and conversations, and the tools.

use radkit::errors::AgentError;
use radkit::json::{JsonMap, JsonNumber, JsonValue};
use radkit::runtime::context::AuthContext;
use radkit::runtime::memory::backends::in_memory::InMemoryMemoryService;
use radkit::runtime::memory::extensions::{
    CompletedConversation, CompletedMessage, Document, MemoryServiceConversationExt,
    MemoryServiceDocumentExt,
};
use radkit::runtime::memory::facades::{OwnedHistory, OwnedKnowledge};
use radkit::runtime::memory::service::MemoryService;
use radkit::runtime::memory::types::{
    ContentSource, MemoryContent, MemoryEntry, SearchOptions, SourceType,
};
use radkit::tools::memory::{
    render_save, resolve_auth, LoadMemoryTool, MemoryToolset, SaveMemoryTool, SearchKnowledgeTool,
    MAX_CONTENT_LENGTH,
};
use std::cell::RefCell;
use std::rc::Rc;

/// One store for several owners.
#[derive(Clone)]
struct Shared(Rc<RefCell<InMemoryMemoryService>>);

impl Shared {
    fn new() -> Shared {
        Shared(Rc::new(RefCell::new(InMemoryMemoryService::new())))
    }
}

impl MemoryService for Shared {
    fn add(&mut self, auth: &AuthContext, content: MemoryContent) -> Result<String, AgentError> {
        self.0.borrow_mut().add(auth, content)
    }

    fn add_batch(
        &mut self,
        auth: &AuthContext,
        contents: Vec<MemoryContent>,
    ) -> Result<Vec<String>, AgentError> {
        self.0.borrow_mut().add_batch(auth, contents)
    }

    fn search(
        &self,
        auth: &AuthContext,
        query: &str,
        options: SearchOptions,
    ) -> Result<Vec<MemoryEntry>, AgentError> {
        self.0.borrow().search(auth, query, options)
    }

    fn delete(&mut self, auth: &AuthContext, id: &str) -> Result<bool, AgentError> {
        self.0.borrow_mut().delete(auth, id)
    }

    fn delete_batch(&mut self, auth: &AuthContext, ids: &Vec<String>) -> Result<usize, AgentError> {
        self.0.borrow_mut().delete_batch(auth, ids)
    }
}

fn user(name: &str) -> AuthContext {
    AuthContext { app_name: "test-app".to_string(), user_name: name.to_string() }
}

fn fact(text: &str, category: Option<&str>) -> MemoryContent {
    MemoryContent {
        text: text.to_string(),
        source: ContentSource::UserFact { category: category.map(str::to_string) },
        metadata: JsonMap::new(),
    }
}

fn page(text: &str, id: &str, name: &str) -> MemoryContent {
    MemoryContent {
        text: text.to_string(),
        source: ContentSource::Document {
            document_id: id.to_string(),
            name: name.to_string(),
            chunk_index: 0,
            total_chunks: 1,
        },
        metadata: JsonMap::new(),
    }
}

fn args(entries: &[(&str, &str)]) -> JsonMap {
    let mut map = JsonMap::new();
    for (k, v) in entries {
        map.insert((*k).to_string(), JsonValue::text(v));
    }
    map
}

#[test]
fn test_history_facade_save_and_recall() {
    let auth = user("alice");
    let mut history = OwnedHistory::new(Shared::new());

    let id = history
        .save_fact(
            &auth,
            "Alice prefers dark mode for all applications".to_string(),
            Some("preferences".to_string()),
        )
        .expect("save fact");
    assert!(id.starts_with("fact:preferences:"));

    let results = history.recall(&auth, "dark mode", 5).expect("recall");
    assert_eq!(results.len(), 1);
    assert!(results[0].text.contains("dark mode"));
    assert!(results[0].score.matched > 0);
}

#[test]
fn test_history_facade_filters_to_history_sources() {
    let auth = user("bob");
    let mut memory = Shared::new();
    memory.add(&auth, fact("Bob likes Python programming", Some("skills"))).expect("add user fact");
    memory
        .add(&auth, page("Python is a programming language", "doc-1", "Python Guide"))
        .expect("add document");

    let history = OwnedHistory::new(memory.clone());
    let results = history.recall(&auth, "Python", 10).expect("recall");
    assert_eq!(results.len(), 1);
    assert!(results[0].text.contains("Bob likes"));
    for result in &results {
        if let ContentSource::Document { .. } = &result.source {
            panic!("Document should not appear in history");
        }
    }
}

#[test]
fn test_knowledge_facade_search() {
    let auth = user("charlie");
    let mut memory = Shared::new();
    memory
        .add(
            &auth,
            page("The vacation policy allows 20 days of paid time off", "hr-handbook", "HR Handbook"),
        )
        .expect("add document");

    let knowledge = OwnedKnowledge::new(memory.clone());
    let results = knowledge.search(&auth, "vacation policy", 5).expect("search");
    assert_eq!(results.len(), 1);
    assert!(results[0].text.contains("20 days"));
}

#[test]
fn test_knowledge_facade_filters_to_knowledge_sources() {
    let auth = user("diana");
    let mut memory = Shared::new();
    memory
        .add(&auth, fact("Diana is interested in machine learning", None))
        .expect("add user fact");
    memory
        .add(
            &auth,
            MemoryContent {
                text: "Machine learning is a subset of artificial intelligence".to_string(),
                source: ContentSource::External {
                    source_name: "wikipedia".to_string(),
                    source_id: Some("ml-article".to_string()),
                },
                metadata: JsonMap::new(),
            },
        )
        .expect("add external");

    let knowledge = OwnedKnowledge::new(memory.clone());
    let results = knowledge.search(&auth, "machine learning", 10).expect("search");
    assert_eq!(results.len(), 1);
    assert!(results[0].text.contains("artificial intelligence"));
    for result in &results {
        match &result.source {
            ContentSource::UserFact { .. } => panic!("User fact should not appear in knowledge"),
            ContentSource::PastConversation { .. } => {
                panic!("Conversation should not appear in knowledge")
            }
            _ => {}
        }
    }
}

#[test]
fn test_document_ingestion_and_search() {
    let auth = user("eve");
    let mut memory = Shared::new();

    let mut metadata = JsonMap::new();
    metadata.insert("version".to_string(), JsonValue::text("1.0"));
    let document = Document {
        id: "employee-handbook-v1".to_string(),
        name: "Employee Handbook".to_string(),
        content: "Welcome to our company! This handbook covers policies and procedures. \
                  Section 1: Work Hours. Employees should work 8 hours per day. \
                  Section 2: Leave Policy. You get 15 vacation days per year."
            .to_string(),
        metadata,
    };

    let ids = memory.add_document(&auth, document, Some(100)).expect("add document");
    assert!(!ids.is_empty(), "Document should be chunked");
    for id in &ids {
        assert!(
            id.starts_with("doc:employee-handbook-v1:chunk-"),
            "ID should have doc prefix: {}",
            id
        );
    }

    let results =
        memory.search(&auth, "vacation days", SearchOptions::documents_only()).expect("search");
    assert!(!results.is_empty(), "Should find vacation content");
    assert!(results[0].text.contains("vacation") || results[0].text.contains("leave"));
}

#[test]
fn test_document_deletion() {
    let auth = user("frank");
    let mut memory = Shared::new();
    let document = Document {
        id: "temp-doc".to_string(),
        name: "Temporary Document".to_string(),
        content: "This is temporary content that will be deleted.".to_string(),
        metadata: JsonMap::new(),
    };

    let ids = memory.add_document(&auth, document, Some(1000)).expect("add document");
    assert!(!ids.is_empty());

    let before =
        memory.search(&auth, "temporary", SearchOptions::documents_only()).expect("search before");
    assert!(!before.is_empty());

    let deleted_count = memory.delete_document(&auth, "temp-doc").expect("delete document");
    assert!(deleted_count > 0, "Should have deleted at least one chunk");

    let after =
        memory.search(&auth, "temporary", SearchOptions::documents_only()).expect("search after");
    assert!(after.is_empty(), "Document should be deleted");
}

#[test]
fn test_conversation_ingestion() {
    let auth = user("grace");
    let mut memory = Shared::new();
    let conversation = CompletedConversation {
        context_id: "session-123".to_string(),
        messages: vec![
            CompletedMessage {
                message_id: "msg-1".to_string(),
                role: "user".to_string(),
                text: "How do I reset my password?".to_string(),
                timestamp: None,
            },
            CompletedMessage {
                message_id: "msg-2".to_string(),
                role: "assistant".to_string(),
                text: "You can reset your password by clicking the 'Forgot Password' link on the login page."
                    .to_string(),
                timestamp: None,
            },
        ],
    };

    let ids = memory.add_conversation(&auth, conversation).expect("add conversation");
    assert_eq!(ids.len(), 2, "Should have 2 message IDs");

    let results = memory
        .search(&auth, "reset password", SearchOptions::conversations_only())
        .expect("search");
    assert!(!results.is_empty(), "Should find conversation");
    for result in &results {
        match &result.source {
            ContentSource::PastConversation { context_id, role, message_id } => {
                assert_eq!(context_id, "session-123");
                assert!(role == "user" || role == "assistant");
                assert!(message_id == "msg-1" || message_id == "msg-2");
            }
            _ => panic!("Expected PastConversation source"),
        }
    }
}

#[test]
fn test_search_options_filtering() {
    let auth = user("henry");
    let mut memory = Shared::new();
    memory.add(&auth, fact("Henry is working on project Alpha", None)).expect("add fact");
    memory
        .add(&auth, page("Project management best practices guide", "pm-guide", "PM Guide"))
        .expect("add doc");
    memory
        .add(
            &auth,
            MemoryContent {
                text: "User asked about project status".to_string(),
                source: ContentSource::PastConversation {
                    context_id: "ctx-1".to_string(),
                    message_id: "msg-1".to_string(),
                    role: "user".to_string(),
                },
                metadata: JsonMap::new(),
            },
        )
        .expect("add conversation");

    let all = memory.search(&auth, "project", SearchOptions::default()).expect("search all");
    assert_eq!(all.len(), 3, "Should find all 3 items");

    let history =
        memory.search(&auth, "project", SearchOptions::history_only()).expect("search history");
    assert_eq!(history.len(), 2, "Should find 2 history items");

    let knowledge =
        memory.search(&auth, "project", SearchOptions::knowledge_only()).expect("search knowledge");
    assert_eq!(knowledge.len(), 1, "Should find 1 knowledge item");

    let facts_only = memory
        .search(
            &auth,
            "project",
            SearchOptions::default().with_source_types(vec![SourceType::UserFact]),
        )
        .expect("search facts");
    assert_eq!(facts_only.len(), 1, "Should find 1 fact");

    let limited = memory
        .search(&auth, "project", SearchOptions::default().with_limit(1))
        .expect("search limited");
    assert_eq!(limited.len(), 1, "Should be limited to 1 result");
}

#[test]
fn test_memory_multi_tenancy() {
    let alice = AuthContext { app_name: "app-a".to_string(), user_name: "alice".to_string() };
    let bob = AuthContext { app_name: "app-b".to_string(), user_name: "bob".to_string() };
    let mut memory = Shared::new();
    memory.add(&alice, fact("Alice's secret project details", None)).expect("alice add");
    memory.add(&bob, fact("Bob's secret project details", None)).expect("bob add");

    let alice_results = memory
        .search(&alice, "secret project", SearchOptions::default())
        .expect("alice search");
    assert_eq!(alice_results.len(), 1);
    assert!(alice_results[0].text.contains("Alice"));

    let bob_results =
        memory.search(&bob, "secret project", SearchOptions::default()).expect("bob search");
    assert_eq!(bob_results.len(), 1);
    assert!(bob_results[0].text.contains("Bob"));
}

#[test]
fn test_runtime_facades_share_memory_service() {
    let auth = user("ivy");
    let memory = Shared::new();
    let mut history = OwnedHistory::new(memory.clone());
    history
        .save_fact(
            &auth,
            "Ivy prefers email notifications".to_string(),
            Some("settings".to_string()),
        )
        .expect("save via history");

    let results = memory
        .search(&auth, "email notifications", SearchOptions::default())
        .expect("search via memory");
    assert_eq!(results.len(), 1);
    assert!(results[0].text.contains("Ivy"));
}

#[test]
fn test_memory_tools_creation() {
    let toolset = MemoryToolset::new(Shared::new());
    let names =
        [toolset.load_memory.name(), toolset.save_memory.name(), toolset.search_knowledge.name()];
    assert_eq!(names.len(), 3);
    assert!(names.contains(&"load_memory"));
    assert!(names.contains(&"save_memory"));
    assert!(names.contains(&"search_knowledge"));
}

#[test]
fn test_memory_batch_operations() {
    let auth = user("jack");
    let mut memory = Shared::new();
    let contents = vec![
        fact("Jack likes coffee", Some("preferences")),
        fact("Jack works in engineering", Some("work")),
        fact("Jack prefers morning meetings", Some("schedule")),
    ];

    let ids = memory.add_batch(&auth, contents).expect("add batch");
    assert_eq!(ids.len(), 3);

    let results =
        memory.search(&auth, "Jack", SearchOptions::default().with_limit(10)).expect("search");
    assert_eq!(results.len(), 3);

    let deleted = memory.delete_batch(&auth, &ids).expect("delete batch");
    assert_eq!(deleted, 3);

    let after = memory.search(&auth, "Jack", SearchOptions::default()).expect("search after");
    assert!(after.is_empty());
}

#[test]
fn test_memory_tools_with_llm_worker() {
    let mut memory = Shared::new();
    let auth = AuthContext {
        app_name: "default-app".to_string(),
        user_name: "default-user".to_string(),
    };
    let toolset = MemoryToolset::with_auth(memory.clone(), auth.clone());
    memory
        .add(&auth, fact("User prefers dark mode in all applications", Some("preferences")))
        .expect("pre-populate data");

    let result = toolset.load_memory.run(&args(&[("query", "dark mode")]), None);
    assert!(result.success, "load_memory should work with captured auth: {:?}", result);
    let found = result.data.array_at("memories").expect("memories");
    assert_eq!(found.len(), 1);
    assert_eq!(
        found[0].str_at("text").or(found[0].str_at("content")),
        Some("User prefers dark mode in all applications")
    );
}

#[test]
fn test_save_memory_tool_with_llm_worker() {
    let memory = Shared::new();
    let auth = user("kim");
    let mut toolset = MemoryToolset::with_auth(memory.clone(), auth.clone());

    let result = toolset.save_memory.run(
        &args(&[("content", "User mentioned they love hiking"), ("category", "hobbies")]),
        None,
    );
    assert!(result.success, "save_memory should work with captured auth: {:?}", result);

    let history = OwnedHistory::new(memory.clone());
    let results = history.recall(&auth, "hiking", 5).expect("recall");
    assert!(!results.is_empty(), "Fact should be saved to memory");
    assert!(results[0].text.contains("hiking"));
}

#[test]
fn test_search_knowledge_tool_with_llm_worker() {
    let mut memory = Shared::new();
    let auth = user("lee");
    let toolset = MemoryToolset::with_auth(memory.clone(), auth.clone());
    memory
        .add(
            &auth,
            page("The company vacation policy provides 20 days PTO", "hr-handbook", "HR Handbook"),
        )
        .expect("add document");

    let result = toolset.search_knowledge.run(&args(&[("query", "vacation policy")]), None);
    assert!(result.success, "search_knowledge should work with captured auth: {:?}", result);
}

#[test]
fn test_memory_service_add_and_search() {
    let auth = AuthContext {
        app_name: "default-app".to_string(),
        user_name: "default-user".to_string(),
    };
    let mut memory = InMemoryMemoryService::new();
    let id = memory
        .add(&auth, fact("User Alice prefers dark mode theme", Some("preferences")))
        .expect("add memory");
    assert!(id.starts_with("fact:preferences:"));

    let results =
        memory.search(&auth, "dark mode", SearchOptions::history_only()).expect("search memory");
    assert_eq!(results.len(), 1);
    assert!(results[0].text.contains("dark mode"));
}

#[test]
fn test_memory_service_auth_scoping() {
    let first = AuthContext { app_name: "app1".to_string(), user_name: "user1".to_string() };
    let second = AuthContext { app_name: "app2".to_string(), user_name: "user2".to_string() };
    let mut memory = InMemoryMemoryService::new();
    memory.add(&first, fact("User1 secret information", None)).expect("add for auth1");
    memory.add(&second, fact("User2 secret information", None)).expect("add for auth2");

    let results1 = memory.search(&first, "secret", SearchOptions::default()).expect("search auth1");
    assert_eq!(results1.len(), 1);
    assert!(results1[0].text.contains("User1"));

    let results2 =
        memory.search(&second, "secret", SearchOptions::default()).expect("search auth2");
    assert_eq!(results2.len(), 1);
    assert!(results2[0].text.contains("User2"));
}

// ---------------------------------------------------------------------------
// The tools
// ---------------------------------------------------------------------------

#[test]
fn tools_need_a_user() {
    let tool = LoadMemoryTool::new(Shared::new());
    let nobody = tool.run(&args(&[("query", "x")]), None);
    assert!(!nobody.success);
    let unreadable = tool.run(&args(&[("query", "x")]), Some(Err("broken".to_string())));
    assert!(!unreadable.success);
    let known = tool.run(&args(&[("query", "x")]), Some(Ok(user("mia"))));
    assert!(known.success);
}

#[test]
fn captured_users_come_first() {
    let found = resolve_auth(&Some(user("captured")), Some(Ok(user("given")))).expect("user");
    assert_eq!(found.user_name, "captured");
    let given = resolve_auth(&None, Some(Ok(user("given")))).expect("user");
    assert_eq!(given.user_name, "given");
    assert!(resolve_auth(&None, None).is_err());
}

#[test]
fn searches_need_a_query() {
    let auth = user("nina");
    let load = LoadMemoryTool::with_auth(Shared::new(), auth.clone());
    assert!(!load.run(&JsonMap::new(), None).success);
    let knowledge = SearchKnowledgeTool::with_auth(Shared::new(), auth);
    assert!(!knowledge.run(&JsonMap::new(), None).success);
    assert!(knowledge.run(&args(&[("query", "x")]), None).success);
}

#[test]
fn limits_are_kept_between_bounds() {
    let auth = user("olga");
    let mut memory = Shared::new();
    for i in 0..30 {
        memory.add(&auth, fact(&format!("note {i}"), None)).expect("add");
    }
    let load = LoadMemoryTool::with_auth(memory.clone(), auth);
    let count = |limit: Option<u64>| {
        let mut a = args(&[("query", "note")]);
        if let Some(n) = limit {
            a.insert("limit".to_string(), JsonValue::Number(JsonNumber::PosInt(n)));
        }
        let result = load.run(&a, None);
        assert!(result.success);
        result.data.array_at("memories").map(Vec::len).unwrap_or(0)
    };
    assert_eq!(count(None), 5);
    assert_eq!(count(Some(3)), 3);
    assert_eq!(count(Some(1000)), 10);
    assert_eq!(count(Some(0)), 0);
}

#[test]
fn too_long_contents_are_refused() {
    let auth = user("pia");
    let mut save = SaveMemoryTool::with_auth(Shared::new(), auth);
    let longest = "x".repeat(MAX_CONTENT_LENGTH);
    let longer = "x".repeat(MAX_CONTENT_LENGTH + 1);
    assert!(save.run(&args(&[("content", &longest)]), None).success);
    assert!(!save.run(&args(&[("content", &longer)]), None).success);
    assert!(save.run(&args(&[("content", "")]), None).success);
    assert!(!save.run(&JsonMap::new(), None).success);
}

#[test]
fn failures_of_the_store_are_told() {
    let failed = render_save(&Err(AgentError::Network("down".to_string())), &None);
    assert!(!failed.success);
    assert!(failed.error_message.expect("message").contains("down"));
}

#[test]
fn declarations_name_their_parameters() {
    let toolset = MemoryToolset::new(Shared::new());
    let save = toolset.save_memory.declaration();
    assert_eq!(save.name, "save_memory");
    let properties = save.parameters.get("properties").expect("properties");
    assert!(properties.get("content").is_some());
    assert!(properties.get("category").is_some());
    let load = toolset.load_memory.declaration();
    assert!(load.parameters.get("properties").expect("properties").get("query").is_some());
    let required = load.parameters.array_at("required").expect("required");
    assert_eq!(required.len(), 1);
    assert_eq!(required[0].as_str(), Some("query"));
}
