//! Long-term memory.

use radkit::errors::AgentError;
use radkit::json::{JsonMap, JsonNumber, JsonValue};
use radkit::runtime::context::AuthContext;
use radkit::runtime::memory::backends::in_memory::InMemoryMemoryService;
use radkit::runtime::memory::backends::ranking::{extract_words, keyword_score};
use radkit::runtime::memory::chunks::chunk_text;
use radkit::runtime::memory::extensions::{
    ChunkSweep, CompletedConversation, CompletedMessage, Document, MemoryServiceConversationExt,
    MemoryServiceDocumentExt,
};
use radkit::runtime::memory::service::MemoryService;
use radkit::runtime::memory::types::{
    ContentSource, MemoryContent, MemoryEntry, Score, SearchOptions, SourceCategory, SourceType,
};

fn auth(app: &str, user: &str) -> AuthContext {
    AuthContext { app_name: app.to_string(), user_name: user.to_string() }
}

fn alice() -> AuthContext {
    auth("test-app", "alice")
}

fn bob() -> AuthContext {
    auth("test-app", "bob")
}

fn fact(text: &str) -> MemoryContent {
    MemoryContent {
        text: text.to_string(),
        source: ContentSource::UserFact { category: None },
        metadata: JsonMap::new(),
    }
}

fn external(text: &str, id: &str) -> MemoryContent {
    MemoryContent {
        text: text.to_string(),
        source: ContentSource::External {
            source_name: "api".to_string(),
            source_id: Some(id.to_string()),
        },
        metadata: JsonMap::new(),
    }
}

// ---------------------------------------------------------------------------
// Sources and options
// ---------------------------------------------------------------------------

#[test]
fn content_source_generates_conversation_id() {
    let source = ContentSource::PastConversation {
        context_id: "ctx-123".to_string(),
        message_id: "msg-456".to_string(),
        role: "user".to_string(),
    };
    let id = source.generate_id();
    assert_eq!(id, "conv:ctx-123:msg-456");
    assert!(source.source_type() == SourceType::PastConversation);
    assert!(source.category() == SourceCategory::History);
}

#[test]
fn content_source_generates_user_fact_id() {
    let source = ContentSource::UserFact { category: Some("preferences".to_string()) };
    let id = source.generate_id();
    assert!(id.starts_with("fact:preferences:"));
    assert!(source.source_type() == SourceType::UserFact);
    assert!(source.category() == SourceCategory::History);
}

#[test]
fn content_source_generates_document_id() {
    let source = ContentSource::Document {
        document_id: "handbook".to_string(),
        name: "Employee Handbook".to_string(),
        chunk_index: 5,
        total_chunks: 10,
    };
    let id = source.generate_id();
    assert_eq!(id, "doc:handbook:chunk-5");
    assert!(source.source_type() == SourceType::Document);
    assert!(source.category() == SourceCategory::Knowledge);
}

#[test]
fn content_source_generates_external_id() {
    let source = ContentSource::External {
        source_name: "api".to_string(),
        source_id: Some("xyz".to_string()),
    };
    let id = source.generate_id();
    assert_eq!(id, "ext:api:xyz");
    assert!(source.source_type() == SourceType::External);
    assert!(source.category() == SourceCategory::Knowledge);
}

#[test]
fn fresh_identifiers_are_uuids_and_differ() {
    let source = ContentSource::UserFact { category: None };
    let a = source.generate_id();
    let b = source.generate_id();
    assert_ne!(a, b);
    let uuid = a.rsplit(':').next().expect("last part");
    assert_eq!(uuid.len(), 36);
    let hyphens: Vec<usize> =
        uuid.char_indices().filter(|(_, c)| *c == '-').map(|(i, _)| i).collect();
    assert_eq!(hyphens, vec![8, 13, 18, 23]);
    let parsed = uuid::Uuid::parse_str(uuid).expect("a UUID");
    assert_eq!(parsed.get_version_num(), 4);

    let unnamed = ContentSource::External { source_name: "api".to_string(), source_id: None };
    assert_ne!(unnamed.generate_id(), unnamed.generate_id());
    assert!(unnamed.generate_id().starts_with("ext:api:"));
}

#[test]
fn identifiers_belong_to_one_content() {
    let conv = |context_id: &str, message_id: &str| {
        ContentSource::PastConversation {
            context_id: context_id.to_string(),
            message_id: message_id.to_string(),
            role: "user".to_string(),
        }
        .generate_id()
    };
    assert_ne!(conv("a:b", "c"), conv("a", "b:c"));
    assert_ne!(conv("a:b", "c"), conv("a%3Ab", "c"));
    assert_eq!(conv("a", "b:c"), "conv:a:b:c");
    assert_eq!(conv("a:b%", "c"), "conv:a%3Ab%25:c");
    let ext = |source_name: &str, id: &str| {
        ContentSource::External {
            source_name: source_name.to_string(),
            source_id: Some(id.to_string()),
        }
        .generate_id()
    };
    assert_ne!(ext("a:b", "c"), ext("a", "b:c"));
}

#[test]
fn natural_identifiers_stay() {
    let source = external("x", "xyz").source;
    assert_eq!(source.generate_id(), source.generate_id());
}

#[test]
fn search_options_history_only() {
    let opts = SearchOptions::history_only();
    let types = opts.source_types.unwrap();
    assert!(types.contains(&SourceType::PastConversation));
    assert!(types.contains(&SourceType::UserFact));
    assert!(!types.contains(&SourceType::Document));
}

#[test]
fn search_options_knowledge_only() {
    let opts = SearchOptions::knowledge_only();
    let types = opts.source_types.unwrap();
    assert!(types.contains(&SourceType::Document));
    assert!(types.contains(&SourceType::External));
    assert!(!types.contains(&SourceType::PastConversation));
}

// ---------------------------------------------------------------------------
// Chunks
// ---------------------------------------------------------------------------

#[test]
fn chunk_text_splits_by_sentences() {
    let text = "First sentence. Second sentence. Third sentence.";
    let chunks = chunk_text(text, 30);
    assert_eq!(chunks.len(), 3);
    assert!(chunks[0].ends_with('.'));
    assert!(chunks[1].ends_with('.'));
    assert!(chunks[2].ends_with('.'));
}

#[test]
fn chunk_text_handles_no_sentences() {
    let text = "No sentence delimiters here";
    let chunks = chunk_text(text, 10);
    assert_eq!(chunks.len(), 1);
    assert_eq!(chunks[0], text);
}

#[test]
fn chunk_text_handles_empty() {
    let chunks = chunk_text("", 100);
    assert!(chunks.is_empty());
}

#[test]
fn chunks_hold_all_that_is_no_white_space() {
    for text in ["A. B! C? D", "one", "  . . x.y.  ", "\u{e9}. \u{1F600}! end."] {
        for size in [1, 3, 10, 1000] {
            let all: String = chunk_text(text, size).concat();
            let kept: String = all.chars().filter(|c| !c.is_whitespace()).collect();
            let given: String = text.chars().filter(|c| !c.is_whitespace()).collect();
            assert_eq!(kept, given);
        }
    }
}

#[test]
fn document_into_memory_contents() {
    let doc = Document::new("test-doc", "Test Document", "First. Second. Third.");
    let contents = doc.into_memory_contents(10);

    assert!(!contents.is_empty());
    for content in &contents {
        if let ContentSource::Document { document_id, name, .. } = &content.source {
            assert_eq!(document_id, "test-doc");
            assert_eq!(name, "Test Document");
        } else {
            panic!("Expected Document source");
        }
    }
}

#[test]
fn completed_conversation_into_memory_contents() {
    let conv = CompletedConversation {
        context_id: "ctx-123".to_string(),
        messages: vec![
            CompletedMessage {
                message_id: "msg-1".to_string(),
                role: "user".to_string(),
                text: "Hello".to_string(),
                timestamp: Some("2024-01-01T00:00:00Z".to_string()),
            },
            CompletedMessage {
                message_id: "msg-2".to_string(),
                role: "agent".to_string(),
                text: "Hi there!".to_string(),
                timestamp: None,
            },
        ],
    };

    let contents = conv.into_memory_contents();
    assert_eq!(contents.len(), 2);

    if let ContentSource::PastConversation { context_id, message_id, role } = &contents[0].source {
        assert_eq!(context_id, "ctx-123");
        assert_eq!(message_id, "msg-1");
        assert_eq!(role, "user");
    } else {
        panic!("Expected PastConversation source");
    }
    assert_eq!(
        contents[0].metadata.get("timestamp").and_then(JsonValue::as_str),
        Some("2024-01-01T00:00:00Z")
    );
    assert!(contents[1].metadata.get("timestamp").is_none());
}

// ---------------------------------------------------------------------------
// The store in this process
// ---------------------------------------------------------------------------

#[test]
fn add_and_search_returns_results() {
    let mut service = InMemoryMemoryService::new();
    let auth = alice();

    let content = MemoryContent {
        text: "User prefers dark mode theme".to_string(),
        source: ContentSource::UserFact { category: Some("preferences".to_string()) },
        metadata: JsonMap::new(),
    };

    let id = service.add(&auth, content).expect("add failed");
    assert!(id.starts_with("fact:preferences:"));

    let results =
        service.search(&auth, "dark mode", SearchOptions::default()).expect("search failed");

    assert_eq!(results.len(), 1);
    assert!(results[0].text.contains("dark mode"));
    assert!(results[0].score.matched > 0);
}

#[test]
fn search_filters_by_source_type() {
    let mut service = InMemoryMemoryService::new();
    let auth = alice();

    service.add(&auth, fact("User likes cats")).expect("add fact");
    service
        .add(
            &auth,
            MemoryContent {
                text: "Cats are mammals".to_string(),
                source: ContentSource::Document {
                    document_id: "doc1".to_string(),
                    name: "Animals".to_string(),
                    chunk_index: 0,
                    total_chunks: 1,
                },
                metadata: JsonMap::new(),
            },
        )
        .expect("add doc");

    let results = service.search(&auth, "cats", SearchOptions::history_only()).expect("search");
    assert_eq!(results.len(), 1);
    assert!(results[0].text.contains("likes cats"));

    let results = service.search(&auth, "cats", SearchOptions::knowledge_only()).expect("search");
    assert_eq!(results.len(), 1);
    assert!(results[0].text.contains("mammals"));
}

#[test]
fn empty_query_returns_all_entries() {
    let mut service = InMemoryMemoryService::new();
    let auth = alice();

    service.add(&auth, fact("First entry")).expect("add 1");
    service.add(&auth, fact("Second entry")).expect("add 2");

    let results = service.search(&auth, "", SearchOptions::default()).expect("search");

    assert_eq!(results.len(), 2);
    assert!(results.iter().all(|r| r.score.matched == r.score.total));
}

#[test]
fn multi_tenant_isolation() {
    let mut service = InMemoryMemoryService::new();
    let alice = alice();
    let bob = bob();

    service.add(&alice, fact("Alice secret")).expect("alice add");
    service.add(&bob, fact("Bob secret")).expect("bob add");

    let alice_results =
        service.search(&alice, "secret", SearchOptions::default()).expect("alice search");
    assert_eq!(alice_results.len(), 1);
    assert!(alice_results[0].text.contains("Alice"));

    let bob_results = service.search(&bob, "secret", SearchOptions::default()).expect("bob search");
    assert_eq!(bob_results.len(), 1);
    assert!(bob_results[0].text.contains("Bob"));
}

#[test]
fn names_with_slashes_do_not_meet() {
    let mut service = InMemoryMemoryService::new();
    service.add(&auth("a/b", "c"), fact("left secret")).expect("add");
    service.add(&auth("a", "b/c"), fact("right secret")).expect("add");
    let found =
        service.search(&auth("a", "b/c"), "secret", SearchOptions::default()).expect("search");
    assert_eq!(found.len(), 1);
    assert_eq!(found[0].text, "right secret");
}

#[test]
fn delete_removes_entry() {
    let mut service = InMemoryMemoryService::new();
    let auth = alice();

    let id = service.add(&auth, fact("To be deleted")).expect("add");

    let results = service.search(&auth, "deleted", SearchOptions::default()).expect("search");
    assert_eq!(results.len(), 1);

    let deleted = service.delete(&auth, &id).expect("delete");
    assert!(deleted);

    let results =
        service.search(&auth, "deleted", SearchOptions::default()).expect("search after delete");
    assert_eq!(results.len(), 0);

    let deleted_again = service.delete(&auth, &id).expect("delete again");
    assert!(!deleted_again);
}

#[test]
fn deleting_for_one_user_leaves_the_other() {
    let mut service = InMemoryMemoryService::default();
    let id = service.add(&alice(), external("shared words", "1")).expect("add");
    service.add(&bob(), external("shared words", "1")).expect("add");
    assert!(service.delete(&alice(), &id).expect("delete"));
    assert_eq!(service.search(&bob(), "", SearchOptions::default()).expect("search").len(), 1);
    assert!(!service.delete(&auth("nobody", "here"), &id).expect("delete"));
}

#[test]
fn add_batch_adds_multiple() {
    let mut service = InMemoryMemoryService::new();
    let auth = alice();

    let contents =
        vec![fact("First batch item"), fact("Second batch item"), fact("Third batch item")];

    let ids = service.add_batch(&auth, contents).expect("add batch");
    assert_eq!(ids.len(), 3);

    let results = service.search(&auth, "batch item", SearchOptions::default()).expect("search");
    assert_eq!(results.len(), 3);
}

#[test]
fn adding_under_one_identifier_replaces() {
    let mut service = InMemoryMemoryService::new();
    let ids = service
        .add_batch(&alice(), vec![external("old words", "7"), external("new words", "7")])
        .expect("add");
    assert_eq!(ids, vec!["ext:api:7", "ext:api:7"]);
    let found = service.search(&alice(), "words", SearchOptions::default()).expect("search");
    assert_eq!(found.len(), 1);
    assert_eq!(found[0].text, "new words");
}

#[test]
fn identifiers_deleted_twice_count_once() {
    let mut service = InMemoryMemoryService::new();
    let id = service.add(&alice(), fact("x")).expect("add");
    let ids = vec![id.clone(), id, "none".to_string()];
    assert_eq!(service.delete_batch(&alice(), &ids).expect("delete"), 1);
}

#[test]
fn scores_are_shares_of_the_words_asked_for() {
    let words = extract_words("Dark MODE, dark theme!");
    assert_eq!(words, vec!["dark", "mode", "theme"]);
    let score = keyword_score(&words, "the dark\u{2014}Mode of things");
    assert_eq!((score.matched, score.total), (2, 3));
    let none = keyword_score(&words, "\u{2014}");
    assert_eq!(none.matched, 0);
    assert_eq!(extract_words("\u{c9}T\u{c9}_1"), vec!["\u{e9}t\u{e9}", "1"]);
    assert!(extract_words("  ,;").is_empty());
}

#[test]
fn results_come_by_falling_relevance() {
    let mut service = InMemoryMemoryService::new();
    service.add(&alice(), fact("red green blue")).expect("add");
    service.add(&alice(), fact("red")).expect("add");
    service.add(&alice(), fact("red green")).expect("add");
    service.add(&alice(), fact("none")).expect("add");
    let found =
        service.search(&alice(), "red green blue", SearchOptions::default()).expect("search");
    let texts: Vec<&str> = found.iter().map(|e| e.text.as_str()).collect();
    assert_eq!(texts, vec!["red green blue", "red green", "red", "none"]);
    let shares: Vec<(usize, usize)> =
        found.iter().map(|e| (e.score.matched, e.score.total)).collect();
    assert_eq!(shares, vec![(3, 3), (2, 3), (1, 3), (0, 3)]);

    let half = SearchOptions::default().with_min_score(Score { matched: 1, total: 2 });
    assert_eq!(service.search(&alice(), "red green blue", half).expect("search").len(), 2);
    let two = SearchOptions::default().with_limit(2);
    let best = service.search(&alice(), "red green blue", two).expect("search");
    assert_eq!(best.len(), 2);
    assert_eq!(best[1].text, "red green");
}

#[test]
fn ten_results_come_where_no_limit_is_given() {
    let mut service = InMemoryMemoryService::new();
    for _ in 0..12 {
        service.add(&alice(), fact("same")).expect("add");
    }
    assert_eq!(service.search(&alice(), "same", SearchOptions::default()).expect("s").len(), 10);
    let more = SearchOptions::default().with_limit(20);
    assert_eq!(service.search(&alice(), "", more).expect("s").len(), 12);
}

#[test]
fn metadata_filters_ask_for_every_member() {
    let mut service = InMemoryMemoryService::new();
    let mut content = fact("tagged");
    content.metadata.insert("lang".to_string(), JsonValue::text("de"));
    content.metadata.insert("n".to_string(), JsonValue::Number(JsonNumber::PosInt(1)));
    service.add(&alice(), content).expect("add");
    let mut filter = JsonMap::new();
    filter.insert("lang".to_string(), JsonValue::text("de"));
    let with = |filter: JsonMap| SearchOptions {
        metadata_filter: Some(filter),
        ..SearchOptions::default()
    };
    assert_eq!(service.search(&alice(), "", with(filter.clone())).expect("search").len(), 1);
    filter.insert("n".to_string(), JsonValue::Number(JsonNumber::PosInt(2)));
    assert!(service.search(&alice(), "", with(filter)).expect("search").is_empty());
    assert_eq!(service.search(&alice(), "", with(JsonMap::new())).expect("search").len(), 1);
}

// ---------------------------------------------------------------------------
// Documents and conversations
// ---------------------------------------------------------------------------

fn documents() -> SearchOptions {
    SearchOptions::documents_only().with_min_score(Score { matched: 1, total: 10 })
}

#[test]
fn add_document_removes_stale_chunks_on_reingest() {
    let mut memory = InMemoryMemoryService::new();
    let auth = auth("test-app", "test-user");

    let doc_v1 = Document::new(
        "shrinking-doc",
        "Shrinking Document",
        "First sentence is here. Second sentence is here. Third sentence is here. Fourth sentence is here.",
    );
    let ids_v1 = memory.add_document(&auth, doc_v1, Some(30)).unwrap();
    assert!(
        ids_v1.len() >= 3,
        "Should have at least 3 chunks, got {} with IDs: {:?}",
        ids_v1.len(),
        ids_v1
    );
    let original_chunk_count = ids_v1.len();

    let results_v1 = memory.search(&auth, "sentence", documents()).unwrap();
    assert_eq!(results_v1.len(), original_chunk_count, "All chunks should contain 'sentence'");

    let doc_v2 = Document::new("shrinking-doc", "Shrinking Document", "Only one chunk now.");
    let ids_v2 = memory.add_document(&auth, doc_v2, Some(1000)).unwrap();
    assert_eq!(ids_v2.len(), 1, "Should have only 1 chunk now");

    let results_v2 = memory.search(&auth, "sentence", documents()).unwrap();
    assert!(
        results_v2.is_empty(),
        "Old content should be gone after re-ingest, but found {} results",
        results_v2.len()
    );

    let results_new = memory.search(&auth, "Only one chunk", documents()).unwrap();
    assert_eq!(results_new.len(), 1, "New content should be searchable");
}

#[test]
fn delete_document_stops_early_for_missing_doc() {
    let mut memory = InMemoryMemoryService::new();
    let deleted = memory.delete_document(&alice(), "nonexistent-document").unwrap();
    assert_eq!(deleted, 0, "Should not delete anything");
}

#[test]
fn delete_document_handles_normal_case() {
    let mut memory = InMemoryMemoryService::new();
    let auth = auth("test-app", "test-user");

    let doc = Document::new(
        "to-delete",
        "Document to Delete",
        "First part. Second part. Third part.",
    );
    let ids = memory.add_document(&auth, doc, Some(15)).unwrap();
    let chunk_count = ids.len();
    assert!(chunk_count >= 2, "Should have multiple chunks");

    let before = memory.search(&auth, "part", SearchOptions::documents_only()).unwrap();
    assert_eq!(before.len(), chunk_count);

    let deleted = memory.delete_document(&auth, "to-delete").unwrap();
    assert_eq!(deleted, chunk_count, "Should delete all chunks");

    let after = memory.search(&auth, "part", SearchOptions::documents_only()).unwrap();
    assert!(after.is_empty(), "All chunks should be deleted");
}

#[test]
fn sweeps_stop_after_ten_misses_in_a_row() {
    let mut sweep = ChunkSweep::new("doc", 3);
    assert_eq!(sweep.next_id(), Some("doc:doc:chunk-3".to_string()));
    for _ in 0..9 {
        sweep = sweep.record(false);
    }
    sweep = sweep.record(true);
    assert_eq!(sweep.deleted(), 1);
    for _ in 0..9 {
        sweep = sweep.record(false);
        assert!(sweep.next_id().is_some());
    }
    sweep = sweep.record(false);
    assert!(sweep.next_id().is_none());

    let end = ChunkSweep::new("doc", usize::MAX - 1).record(true);
    assert!(end.next_id().is_none());
    assert_eq!(end.deleted(), 1);
}

#[test]
fn long_documents_go_as_a_whole() {
    let mut memory = InMemoryMemoryService::new();
    let long = || Document::new("long", "Long", &"a. ".repeat(10_050));
    let chunks = memory.add_document(&alice(), long(), Some(1)).unwrap().len();
    assert!(chunks > 10_000);
    assert_eq!(memory.delete_document(&alice(), "long").unwrap(), chunks);
    assert_eq!(memory.delete_document(&alice(), "long").unwrap(), 0);

    memory.add_document(&alice(), long(), Some(1)).unwrap();
    let short = Document::new("long", "Long", "b.");
    assert_eq!(memory.add_document(&alice(), short, Some(1)).unwrap(), vec!["doc:long:chunk-0"]);
    assert_eq!(memory.search(&alice(), "a b", documents()).unwrap().len(), 1);
    assert_eq!(memory.delete_document(&alice(), "long").unwrap(), 1);
}

#[test]
fn documents_keep_apart() {
    let mut memory = InMemoryMemoryService::new();
    let one = Document::new("one", "One", "Shared words here.");
    let two = Document::new("two", "Two", "Shared words here.")
        .with_metadata("lang", JsonValue::text("en"));
    memory.add_document(&alice(), one, None).unwrap();
    memory.add_document(&alice(), two, None).unwrap();
    assert_eq!(memory.delete_document(&alice(), "one").unwrap(), 1);
    let left = memory.search(&alice(), "words", documents()).unwrap();
    assert_eq!(left.len(), 1);
    assert_eq!(left[0].id, "doc:two:chunk-0");
    assert_eq!(left[0].metadata.get("lang").and_then(JsonValue::as_str), Some("en"));
}

#[test]
fn conversations_are_kept_message_by_message() {
    let mut memory = InMemoryMemoryService::new();
    let conversation = CompletedConversation {
        context_id: "c".to_string(),
        messages: vec![CompletedMessage {
            message_id: "m".to_string(),
            role: "user".to_string(),
            text: "Hello".to_string(),
            timestamp: None,
        }],
    };
    let ids = memory.add_conversation(&alice(), conversation).unwrap();
    assert_eq!(ids, vec!["conv:c:m"]);
}

/// A store that fails to delete after some deletions.
struct Failing {
    inner: InMemoryMemoryService,
    deletions: usize,
}

impl MemoryService for Failing {
    fn add(&mut self, auth: &AuthContext, content: MemoryContent) -> Result<String, AgentError> {
        self.inner.add(auth, content)
    }

    fn add_batch(
        &mut self,
        auth: &AuthContext,
        contents: Vec<MemoryContent>,
    ) -> Result<Vec<String>, AgentError> {
        self.inner.add_batch(auth, contents)
    }

    fn search(
        &self,
        auth: &AuthContext,
        query: &str,
        options: SearchOptions,
    ) -> Result<Vec<MemoryEntry>, AgentError> {
        self.inner.search(auth, query, options)
    }

    fn delete(&mut self, auth: &AuthContext, id: &str) -> Result<bool, AgentError> {
        if self.deletions == 0 {
            return Err(AgentError::InvalidInput("the store is down".to_string()));
        }
        self.deletions -= 1;
        self.inner.delete(auth, id)
    }

    fn delete_batch(&mut self, auth: &AuthContext, ids: &Vec<String>) -> Result<usize, AgentError> {
        self.inner.delete_batch(auth, ids)
    }
}

#[test]
fn failures_leave_other_users_alone() {
    let mut store = Failing { inner: InMemoryMemoryService::new(), deletions: 30 };
    let document = || Document::new("d", "D", "One. Two. Three.");
    let chunks = store.add_document(&bob(), document(), Some(1)).unwrap().len();
    store.add_document(&alice(), document(), Some(1)).unwrap();

    store.deletions = 1;
    match store.delete_document(&alice(), "d") {
        Err(AgentError::InvalidInput(reason)) => assert_eq!(reason, "the store is down"),
        other => panic!("unexpected result: {other:?}"),
    }
    let left = |who: &AuthContext| store.search(who, "", documents()).unwrap().len();
    assert_eq!(left(&alice()), chunks - 1);
    assert_eq!(left(&bob()), chunks);
}
