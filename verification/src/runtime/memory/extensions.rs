//! Taking whole conversations and documents into memory.

use crate::errors::AgentError;
use crate::json::{Json, JsonMap, JsonValue};
use crate::runtime::context::AuthContext;
use crate::runtime::memory::chunks::{chunk_text, chunks};
use crate::runtime::memory::service::{
    adds_batch, after_adding, content_models, deletes, lemma_adding_keeps_others, memory_of,
    others_kept, place, Memory, MemoryService,
};
use crate::runtime::memory::types::{
    chunk_id, chunk_ids_differ, document_chunk_id, optional_text, ContentModel, ContentSource, MemoryContent,
    SourceModel,
};
use crate::text::texts;
use vstd::prelude::*;

verus! {

/// After how many chunks in a row that are not there the search for more ends.
pub const CONSECUTIVE_MISS_THRESHOLD: usize = 10;

/// The size of a chunk in bytes where none is given.
pub const DEFAULT_CHUNK_SIZE: usize = 1000;

// ---------------------------------------------------------------------------
// Conversations
// ---------------------------------------------------------------------------

/// A finished conversation to be kept.
#[derive(Debug)]
pub struct CompletedConversation {
    pub context_id: String,
    pub messages: Vec<CompletedMessage>,
}

/// A message of a finished conversation. The role is `user` or `agent`; the time, where there
/// is one, is in the format of RFC 3339.
#[derive(Debug)]
pub struct CompletedMessage {
    pub message_id: String,
    pub role: String,
    pub text: String,
    pub timestamp: Option<String>,
}

/// The metadata of a message: its time, where it has one.
pub open spec fn message_metadata(timestamp: Option<Seq<char>>) -> Map<Seq<char>, Json> {
    match timestamp {
        Some(t) => Map::<Seq<char>, Json>::empty().insert("timestamp"@, Json::Text(t)),
        None => Map::empty(),
    }
}

impl CompletedMessage {
    /// What is kept of the message.
    pub open spec fn content(self, context_id: Seq<char>) -> ContentModel {
        ContentModel {
            text: self.text@,
            source: SourceModel::PastConversation {
                context_id,
                message_id: self.message_id@,
                role: self.role@,
            },
            metadata: message_metadata(optional_text(self.timestamp)),
        }
    }
}

impl CompletedConversation {
    /// What is kept of the conversation.
    pub open spec fn contents(self) -> Seq<ContentModel> {
        Seq::new(self.messages@.len(), |i: int| self.messages@[i].content(self.context_id@))
    }

    /// The contents to keep of the conversation, one for each message.
    #[must_use]
    pub fn into_memory_contents(self) -> (r: Vec<MemoryContent>)
        ensures
            content_models(r@) == self.contents(),
    {
        let mut out: Vec<MemoryContent> = Vec::new();
        let mut i: usize = 0;
        while i < self.messages.len()
            invariant
                i <= self.messages.len(),
                out.len() == i,
                forall|j: int|
                    0 <= j < i ==> (#[trigger] out@[j])@ == self.messages@[j].content(
                        self.context_id@,
                    ),
            decreases self.messages.len() - i,
        {
            let msg = &self.messages[i];
            let mut metadata = JsonMap::new();
            match &msg.timestamp {
                Some(t) => {
                    metadata.insert("timestamp".to_owned(), JsonValue::text(t.as_str()));
                },
                None => {},
            }
            out.push(
                MemoryContent {
                    text: msg.text.clone(),
                    source: ContentSource::PastConversation {
                        context_id: self.context_id.clone(),
                        message_id: msg.message_id.clone(),
                        role: msg.role.clone(),
                    },
                    metadata,
                },
            );
            i = i + 1;
        }
        proof {
            assert(content_models(out@) =~= self.contents());
        }
        out
    }
}

// ---------------------------------------------------------------------------
// Documents
// ---------------------------------------------------------------------------

/// A document to be kept.
#[derive(Debug)]
pub struct Document {
    pub id: String,
    pub name: String,
    pub content: String,
    pub metadata: JsonMap,
}

impl Document {
    /// A document without metadata.
    pub fn new(id: &str, name: &str, content: &str) -> (r: Document)
        ensures
            r.id@ == id@,
            r.name@ == name@,
            r.content@ == content@,
            r.metadata@ == Map::<Seq<char>, Json>::empty(),
    {
        Document {
            id: id.to_owned(),
            name: name.to_owned(),
            content: content.to_owned(),
            metadata: JsonMap::new(),
        }
    }

    /// Adds metadata to the document.
    #[must_use]
    pub fn with_metadata(self, key: &str, value: JsonValue) -> (r: Document)
        ensures
            r.id == self.id,
            r.name == self.name,
            r.content == self.content,
            r.metadata@ == self.metadata@.insert(key@, value@),
    {
        let mut metadata = self.metadata;
        metadata.insert(key.to_owned(), value);
        Document { id: self.id, name: self.name, content: self.content, metadata }
    }

    /// What is kept of the document: its chunks, each with its index and their number.
    pub open spec fn contents(self, chunk_size: nat) -> Seq<ContentModel> {
        let parts = chunks(self.content@, chunk_size);
        Seq::new(
            parts.len(),
            |i: int|
                ContentModel {
                    text: parts[i],
                    source: SourceModel::Document {
                        document_id: self.id@,
                        name: self.name@,
                        chunk_index: i as nat,
                        total_chunks: parts.len(),
                    },
                    metadata: self.metadata@,
                },
        )
    }

    /// The contents to keep of the document.
    #[must_use]
    pub fn into_memory_contents(self, chunk_size: usize) -> (r: Vec<MemoryContent>)
        ensures
            content_models(r@) == self.contents(chunk_size as nat),
    {
        let parts = chunk_text(self.content.as_str(), chunk_size);
        let total_chunks: usize = parts.len();
        let mut out: Vec<MemoryContent> = Vec::new();
        let mut i: usize = 0;
        let ghost expected = self.contents(chunk_size as nat);
        while i < parts.len()
            invariant
                i <= parts.len() == total_chunks,
                out.len() == i,
                texts(parts@) == chunks(self.content@, chunk_size as nat),
                expected == self.contents(chunk_size as nat),
                forall|j: int| 0 <= j < i ==> (#[trigger] out@[j])@ == expected[j],
            decreases parts.len() - i,
        {
            let c = MemoryContent {
                text: parts[i].clone(),
                source: ContentSource::Document {
                    document_id: self.id.clone(),
                    name: self.name.clone(),
                    chunk_index: i,
                    total_chunks,
                },
                metadata: self.metadata.clone(),
            };
            proof {
                assert(texts(parts@)[i as int] == c.text@);
                assert(c@ == expected[i as int]);
            }
            out.push(c);
            i = i + 1;
        }
        proof {
            assert(texts(parts@).len() == parts@.len());
            assert(content_models(out@) =~= expected);
        }
        out
    }
}

// ---------------------------------------------------------------------------
// Looking for the chunks of a document
// ---------------------------------------------------------------------------

/// A chunk of the document is in memory.
pub open spec fn has_chunk(m: Memory, auth: (Seq<char>, Seq<char>), doc: Seq<char>, i: nat) -> bool {
    m.contains_key(place(auth, chunk_id(doc, i)))
}

/// Where a sweep over the chunks of a document from `i` on ends: behind the tenth chunk in a row
/// that is not there, `misses` of which were seen just before `i`, or where the numbers of
/// chunks end.
pub open spec fn sweep_stop(
    m: Memory,
    auth: (Seq<char>, Seq<char>),
    doc: Seq<char>,
    i: nat,
    misses: nat,
) -> nat
    decreases usize::MAX - i,
{
    if i >= usize::MAX || misses >= CONSECUTIVE_MISS_THRESHOLD {
        i
    } else if has_chunk(m, auth, doc, i) {
        sweep_stop(m, auth, doc, i + 1, 0)
    } else {
        sweep_stop(m, auth, doc, i + 1, misses + 1)
    }
}

/// Memory without the chunks of a document from `from` up to `to`.
pub open spec fn without_chunks(
    m: Memory,
    auth: (Seq<char>, Seq<char>),
    doc: Seq<char>,
    from: nat,
    to: nat,
) -> Memory
    decreases to,
{
    if to <= from {
        m
    } else {
        without_chunks(m, auth, doc, from, (to - 1) as nat).remove(
            place(auth, chunk_id(doc, (to - 1) as nat)),
        )
    }
}

/// How many chunks of a document from `from` up to `to` are in memory.
pub open spec fn chunk_count(
    m: Memory,
    auth: (Seq<char>, Seq<char>),
    doc: Seq<char>,
    from: nat,
    to: nat,
) -> nat
    decreases to,
{
    if to <= from {
        0
    } else {
        chunk_count(m, auth, doc, from, (to - 1) as nat) + if has_chunk(
            m,
            auth,
            doc,
            (to - 1) as nat,
        ) {
            1nat
        } else {
            0
        }
    }
}

/// A sweep over the chunks of a document: which one to delete next, and when to end.
#[derive(Debug)]
pub struct ChunkSweep {
    document_id: String,
    next: usize,
    deleted: usize,
    misses: usize,
}

impl ChunkSweep {
    /// The document.
    pub closed spec fn doc(self) -> Seq<char> {
        self.document_id@
    }

    /// The next chunk to look for.
    pub closed spec fn position(self) -> nat {
        self.next as nat
    }

    /// How many chunks were there.
    pub closed spec fn found(self) -> nat {
        self.deleted as nat
    }

    /// How many chunks in a row were not there.
    pub closed spec fn missed(self) -> nat {
        self.misses as nat
    }

    /// The sweep goes on.
    pub open spec fn active(self) -> bool {
        self.position() < usize::MAX && self.missed() < CONSECUTIVE_MISS_THRESHOLD
    }

    #[verifier::type_invariant]
    spec fn counts_fit(self) -> bool {
        &&& self.deleted <= self.next
        &&& self.misses <= CONSECUTIVE_MISS_THRESHOLD
    }

    /// A sweep over the chunks from `start` on.
    pub fn new(document_id: &str, start: usize) -> (r: ChunkSweep)
        ensures
            r.doc() == document_id@,
            r.position() == start,
            r.found() == 0,
            r.missed() == 0,
    {
        ChunkSweep {
            document_id: document_id.to_owned(),
            next: start,
            deleted: 0,
            misses: 0,
        }
    }

    /// The identifier of the chunk to delete next, until the sweep has ended.
    pub fn next_id(&self) -> (r: Option<String>)
        ensures
            match r {
                Some(id) => self.active() && id@ == chunk_id(self.doc(), self.position()),
                None => !self.active(),
            },
    {
        if self.next < usize::MAX && self.misses < CONSECUTIVE_MISS_THRESHOLD {
            Some(document_chunk_id(self.document_id.as_str(), self.next))
        } else {
            None
        }
    }

    /// The sweep after the chunk was deleted; `existed` tells whether it was there.
    pub fn record(self, existed: bool) -> (r: ChunkSweep)
        requires
            self.active(),
        ensures
            r.doc() == self.doc(),
            r.position() == self.position() + 1,
            existed ==> r.found() == self.found() + 1 && r.missed() == 0,
            !existed ==> r.found() == self.found() && r.missed() == self.missed() + 1,
    {
        proof {
            use_type_invariant(&self);
        }
        ChunkSweep {
            document_id: self.document_id,
            next: self.next + 1,
            deleted: if existed {
                self.deleted + 1
            } else {
                self.deleted
            },
            misses: if existed {
                0
            } else {
                self.misses + 1
            },
        }
    }

    /// How many chunks were deleted.
    pub fn deleted(&self) -> (r: usize)
        ensures
            r == self.found(),
    {
        self.deleted
    }
}

/// Memory without some chunks of a document holds none of these chunks and all the others.
pub proof fn lemma_without_chunks(
    m: Memory,
    auth: (Seq<char>, Seq<char>),
    doc: Seq<char>,
    from: nat,
    to: nat,
)
    ensures
        forall|k: nat|
            #![trigger has_chunk(without_chunks(m, auth, doc, from, to), auth, doc, k)]
            has_chunk(without_chunks(m, auth, doc, from, to), auth, doc, k) == (!(from <= k < to)
                && has_chunk(m, auth, doc, k)),
    decreases to,
{
    if to > from {
        let last = (to - 1) as nat;
        lemma_without_chunks(m, auth, doc, from, last);
        let w = without_chunks(m, auth, doc, from, last);
        let r = without_chunks(m, auth, doc, from, to);
        assert forall|k: nat| #[trigger] has_chunk(r, auth, doc, k) == (!(from <= k < to)
            && has_chunk(m, auth, doc, k)) by {
            if chunk_id(doc, k) == chunk_id(doc, last) {
                chunk_ids_differ(doc, k, doc, last);
            }
            assert(has_chunk(w, auth, doc, k) == (!(from <= k < last) && has_chunk(
                m,
                auth,
                doc,
                k,
            )));
        }
    }
}

/// Deleting chunks of a document leaves everything else in memory as it was.
pub proof fn deleting_chunks_keeps_the_rest(
    m: Memory,
    auth: (Seq<char>, Seq<char>),
    doc: Seq<char>,
    from: nat,
    to: nat,
    key: (Seq<char>, Seq<char>, Seq<char>),
)
    requires
        forall|k: nat| from <= k < to ==> key != place(auth, #[trigger] chunk_id(doc, k)),
    ensures
        without_chunks(m, auth, doc, from, to).contains_key(key) == m.contains_key(key),
        m.contains_key(key) ==> without_chunks(m, auth, doc, from, to)[key] == m[key],
    decreases to,
{
    if to > from {
        let last = (to - 1) as nat;
        deleting_chunks_keeps_the_rest(m, auth, doc, from, last, key);
        assert(key != place(auth, chunk_id(doc, last)));
    }
}

/// Deleting chunks of one document leaves the chunks of every other document as they were.
pub proof fn deleting_keeps_documents_apart(
    m: Memory,
    auth: (Seq<char>, Seq<char>),
    doc: Seq<char>,
    from: nat,
    to: nat,
    other: Seq<char>,
    i: nat,
)
    requires
        other != doc,
    ensures
        has_chunk(without_chunks(m, auth, doc, from, to), auth, other, i) == has_chunk(
            m,
            auth,
            other,
            i,
        ),
        has_chunk(m, auth, other, i) ==> without_chunks(m, auth, doc, from, to)[place(
            auth,
            chunk_id(other, i),
        )] == m[place(auth, chunk_id(other, i))],
{
    let key = place(auth, chunk_id(other, i));
    assert forall|k: nat| from <= k < to implies key != place(auth, #[trigger] chunk_id(doc, k)) by {
        if chunk_id(other, i) == chunk_id(doc, k) {
            chunk_ids_differ(other, i, doc, k);
        }
    }
    deleting_chunks_keeps_the_rest(m, auth, doc, from, to, key);
}

/// Deleting chunks of one user's document leaves the memory of every other user as it was.
pub proof fn deleting_chunks_keeps_users_apart(
    m: Memory,
    auth: (Seq<char>, Seq<char>),
    doc: Seq<char>,
    from: nat,
    to: nat,
    other: (Seq<char>, Seq<char>),
)
    requires
        other != auth,
    ensures
        memory_of(without_chunks(m, auth, doc, from, to), other) == memory_of(m, other),
{
    let w = without_chunks(m, auth, doc, from, to);
    assert forall|id: Seq<char>| w.contains_key(#[trigger] place(other, id)) == m.contains_key(
        place(other, id),
    ) && (m.contains_key(place(other, id)) ==> w[place(other, id)] == m[place(other, id)]) by {
        deleting_chunks_keeps_the_rest(m, auth, doc, from, to, place(other, id));
    }
    assert(memory_of(w, other) =~= memory_of(m, other));
}

proof fn lemma_deleting_keeps_others(
    m: Memory,
    auth: (Seq<char>, Seq<char>),
    doc: Seq<char>,
    from: nat,
    to: nat,
)
    ensures
        others_kept(m, without_chunks(m, auth, doc, from, to), auth),
{
    let w = without_chunks(m, auth, doc, from, to);
    assert forall|o: (Seq<char>, Seq<char>)| o != auth implies #[trigger] memory_of(w, o)
        == memory_of(m, o) by {
        deleting_chunks_keeps_users_apart(m, auth, doc, from, to, o);
    }
}

/// A sweep runs over all the chunks of a document that follow each other.
proof fn lemma_sweep_runs_over(
    m: Memory,
    auth: (Seq<char>, Seq<char>),
    doc: Seq<char>,
    i: nat,
    n: nat,
)
    requires
        i <= n <= usize::MAX,
        forall|k: nat| i <= k < n ==> #[trigger] has_chunk(m, auth, doc, k),
    ensures
        sweep_stop(m, auth, doc, i, 0) >= n,
    decreases n - i,
{
    if i < n {
        assert(has_chunk(m, auth, doc, i));
        lemma_sweep_runs_over(m, auth, doc, i + 1, n);
    } else {
        lemma_sweep_goes_on(m, auth, doc, i, 0);
    }
}

proof fn lemma_sweep_goes_on(
    m: Memory,
    auth: (Seq<char>, Seq<char>),
    doc: Seq<char>,
    i: nat,
    misses: nat,
)
    requires
        i <= usize::MAX,
    ensures
        i <= sweep_stop(m, auth, doc, i, misses) <= usize::MAX,
    decreases usize::MAX - i,
{
    if i < usize::MAX && misses < CONSECUTIVE_MISS_THRESHOLD {
        if has_chunk(m, auth, doc, i) {
            lemma_sweep_goes_on(m, auth, doc, i + 1, 0);
        } else {
            lemma_sweep_goes_on(m, auth, doc, i + 1, misses + 1);
        }
    }
}

/// The chunks of a document that are in memory are the first `n`.
pub open spec fn has_first_chunks(
    m: Memory,
    auth: (Seq<char>, Seq<char>),
    doc: Seq<char>,
    n: nat,
) -> bool {
    forall|k: nat| #[trigger] has_chunk(m, auth, doc, k) == (k < n)
}

proof fn lemma_count_first(
    m: Memory,
    auth: (Seq<char>, Seq<char>),
    doc: Seq<char>,
    n: nat,
    to: nat,
)
    requires
        has_first_chunks(m, auth, doc, n),
    ensures
        chunk_count(m, auth, doc, 0, to) == if to < n {
            to
        } else {
            n
        },
    decreases to,
{
    if to > 0 {
        lemma_count_first(m, auth, doc, n, (to - 1) as nat);
        assert(has_chunk(m, auth, doc, (to - 1) as nat) == (to - 1 < n));
    }
}

/// Deleting a document that is in memory with its first `n` chunks deletes `n` chunks and
/// leaves none; deleting it again deletes nothing.
pub proof fn deleted_document_is_gone(
    m: Memory,
    auth: (Seq<char>, Seq<char>),
    doc: Seq<char>,
    n: usize,
)
    requires
        has_first_chunks(m, auth, doc, n as nat),
    ensures
        ({
            let stop = sweep_stop(m, auth, doc, 0, 0);
            let w = without_chunks(m, auth, doc, 0, stop);
            &&& chunk_count(m, auth, doc, 0, stop) == n
            &&& has_first_chunks(w, auth, doc, 0)
            &&& chunk_count(w, auth, doc, 0, sweep_stop(w, auth, doc, 0, 0)) == 0
        }),
{
    let stop = sweep_stop(m, auth, doc, 0, 0);
    assert forall|k: nat| 0 <= k < n implies #[trigger] has_chunk(m, auth, doc, k) by {}
    lemma_sweep_runs_over(m, auth, doc, 0, n as nat);
    lemma_count_first(m, auth, doc, n as nat, stop);
    lemma_without_chunks(m, auth, doc, 0, stop);
    let w = without_chunks(m, auth, doc, 0, stop);
    assert forall|k: nat| #[trigger] has_chunk(w, auth, doc, k) == (k < 0) by {
        assert(has_chunk(m, auth, doc, k) == (k < n));
    }
    lemma_count_first(w, auth, doc, 0, sweep_stop(w, auth, doc, 0, 0));
}

/// A document that is not in memory: the sweep ends after as many looks as it may miss.
pub proof fn missing_document_ends_the_sweep(m: Memory, auth: (Seq<char>, Seq<char>), doc: Seq<char>)
    requires
        has_first_chunks(m, auth, doc, 0),
    ensures
        sweep_stop(m, auth, doc, 0, 0) == CONSECUTIVE_MISS_THRESHOLD,
{
    lemma_only_misses(m, auth, doc, 0);
}

proof fn lemma_only_misses(m: Memory, auth: (Seq<char>, Seq<char>), doc: Seq<char>, i: nat)
    requires
        has_first_chunks(m, auth, doc, 0),
        i <= CONSECUTIVE_MISS_THRESHOLD,
    ensures
        sweep_stop(m, auth, doc, i, i) == CONSECUTIVE_MISS_THRESHOLD,
    decreases CONSECUTIVE_MISS_THRESHOLD - i,
{
    if i < CONSECUTIVE_MISS_THRESHOLD {
        assert(!has_chunk(m, auth, doc, i));
        lemma_only_misses(m, auth, doc, i + 1);
    }
}

proof fn lemma_added_chunks(
    m: Memory,
    auth: (Seq<char>, Seq<char>),
    doc: Seq<char>,
    contents: Seq<ContentModel>,
)
    ensures
        forall|k: nat|
            #![trigger has_chunk(after_adding(m, auth, chunk_ids(doc, contents.len()), contents), auth, doc, k)]
            has_chunk(
                after_adding(m, auth, chunk_ids(doc, contents.len()), contents),
                auth,
                doc,
                k,
            ) == (k < contents.len() || has_chunk(m, auth, doc, k)),
    decreases contents.len(),
{
    let n = contents.len();
    let a = after_adding(m, auth, chunk_ids(doc, n), contents);
    if n > 0 {
        let l = (n - 1) as nat;
        lemma_added_chunks(m, auth, doc, contents.drop_last());
        assert(chunk_ids(doc, n).drop_last() =~= chunk_ids(doc, l));
        let b = after_adding(m, auth, chunk_ids(doc, l), contents.drop_last());
        assert forall|k: nat| #[trigger] has_chunk(a, auth, doc, k) == (k < n || has_chunk(
            m,
            auth,
            doc,
            k,
        )) by {
            assert(has_chunk(b, auth, doc, k) == (k < l || has_chunk(m, auth, doc, k)));
            if chunk_id(doc, k) == chunk_id(doc, l) {
                chunk_ids_differ(doc, k, doc, l);
            }
        }
    }
}

/// Taking a document in again replaces its chunks: where the earlier version had its first
/// `n` chunks in memory, exactly the chunks of the new version are left.
pub proof fn document_again_replaces(
    m: Memory,
    auth: (Seq<char>, Seq<char>),
    doc: Seq<char>,
    contents: Seq<ContentModel>,
    n: usize,
)
    requires
        has_first_chunks(m, auth, doc, n as nat),
    ensures
        has_first_chunks(
            after_document(m, auth, doc, chunk_ids(doc, contents.len()), contents),
            auth,
            doc,
            contents.len(),
        ),
{
    let c = contents.len();
    let a = after_adding(m, auth, chunk_ids(doc, c), contents);
    lemma_added_chunks(m, auth, doc, contents);
    let stop = sweep_stop(a, auth, doc, c, 0);
    if c < n {
        assert forall|k: nat| c <= k < n implies #[trigger] has_chunk(a, auth, doc, k) by {
            assert(has_chunk(m, auth, doc, k));
        }
        lemma_sweep_runs_over(a, auth, doc, c, n as nat);
    }
    lemma_without_chunks(a, auth, doc, c, stop);
    let w = without_chunks(a, auth, doc, c, stop);
    assert forall|k: nat| #[trigger] has_chunk(w, auth, doc, k) == (k < c) by {
        assert(has_chunk(a, auth, doc, k) == (k < c || has_chunk(m, auth, doc, k)));
        assert(has_chunk(m, auth, doc, k) == (k < n));
    }
}

/// Taking a document in leaves everything in memory that is no chunk of it as it was.
pub proof fn documents_leave_the_rest(
    m: Memory,
    auth: (Seq<char>, Seq<char>),
    doc: Seq<char>,
    contents: Seq<ContentModel>,
    key: (Seq<char>, Seq<char>, Seq<char>),
)
    requires
        forall|k: nat| key != place(auth, #[trigger] chunk_id(doc, k)),
    ensures
        ({
            let after = after_document(m, auth, doc, chunk_ids(doc, contents.len()), contents);
            &&& after.contains_key(key) == m.contains_key(key)
            &&& m.contains_key(key) ==> after[key] == m[key]
        }),
{
    let c = contents.len();
    let a = after_adding(m, auth, chunk_ids(doc, c), contents);
    lemma_adding_leaves_the_rest(m, auth, doc, contents, key);
    deleting_chunks_keeps_the_rest(a, auth, doc, c, sweep_stop(a, auth, doc, c, 0), key);
}

proof fn lemma_adding_leaves_the_rest(
    m: Memory,
    auth: (Seq<char>, Seq<char>),
    doc: Seq<char>,
    contents: Seq<ContentModel>,
    key: (Seq<char>, Seq<char>, Seq<char>),
)
    requires
        forall|k: nat| key != place(auth, #[trigger] chunk_id(doc, k)),
    ensures
        ({
            let a = after_adding(m, auth, chunk_ids(doc, contents.len()), contents);
            &&& a.contains_key(key) == m.contains_key(key)
            &&& m.contains_key(key) ==> a[key] == m[key]
        }),
    decreases contents.len(),
{
    if contents.len() > 0 {
        let l = (contents.len() - 1) as nat;
        lemma_adding_leaves_the_rest(m, auth, doc, contents.drop_last(), key);
        assert(chunk_ids(doc, contents.len()).drop_last() =~= chunk_ids(doc, l));
        assert(key != place(auth, chunk_id(doc, l)));
    }
}

proof fn lemma_added_content(
    m: Memory,
    auth: (Seq<char>, Seq<char>),
    doc: Seq<char>,
    contents: Seq<ContentModel>,
    k: nat,
)
    requires
        k < contents.len(),
    ensures
        after_adding(m, auth, chunk_ids(doc, contents.len()), contents)[place(
            auth,
            chunk_id(doc, k),
        )] == contents[k as int],
    decreases contents.len(),
{
    let l = (contents.len() - 1) as nat;
    assert(chunk_ids(doc, contents.len()).drop_last() =~= chunk_ids(doc, l));
    if k < l {
        lemma_added_content(m, auth, doc, contents.drop_last(), k);
        if chunk_id(doc, k) == chunk_id(doc, l) {
            chunk_ids_differ(doc, k, doc, l);
        }
    }
}

/// A document that was taken in reads back: under the identifier of each chunk stands that
/// chunk.
pub proof fn kept_document_reads_back(
    m: Memory,
    auth: (Seq<char>, Seq<char>),
    doc: Seq<char>,
    contents: Seq<ContentModel>,
    k: nat,
)
    requires
        k < contents.len(),
    ensures
        ({
            let after = after_document(m, auth, doc, chunk_ids(doc, contents.len()), contents);
            &&& has_chunk(after, auth, doc, k)
            &&& after[place(auth, chunk_id(doc, k))] == contents[k as int]
        }),
{
    let c = contents.len();
    let a = after_adding(m, auth, chunk_ids(doc, c), contents);
    let stop = sweep_stop(a, auth, doc, c, 0);
    lemma_added_chunks(m, auth, doc, contents);
    assert(has_chunk(a, auth, doc, k));
    lemma_added_content(m, auth, doc, contents, k);
    let key = place(auth, chunk_id(doc, k));
    assert forall|j: nat| c <= j < stop implies key != place(auth, #[trigger] chunk_id(doc, j)) by {
        if chunk_id(doc, k) == chunk_id(doc, j) {
            chunk_ids_differ(doc, k, doc, j);
        }
    }
    deleting_chunks_keeps_the_rest(a, auth, doc, c, stop, key);
}

/// Taking conversations into memory.
pub trait MemoryServiceConversationExt: MemoryService {
    /// Keeps a finished conversation, and returns the identifiers of what is kept: the store adds
    /// its messages in one go, and what comes back is what the store returned.
    fn add_conversation(
        &mut self,
        auth_ctx: &AuthContext,
        conversation: CompletedConversation,
    ) -> (r: Result<Vec<String>, AgentError>)
        ensures
            exists|s: &mut Self|
                &*s == &*old(self) && &*final(s) == &*final(self) && #[trigger] adds_batch(
                    s,
                    auth_ctx@,
                    conversation.contents(),
                    r,
                ),
            others_kept(old(self).memory(), final(self).memory(), auth_ctx@),
            r matches Ok(ids) ==> {
                &&& ids@.len() == conversation.contents().len()
                &&& forall|i: int|
                    0 <= i < ids@.len() ==> conversation.contents()[i].source.names(
                        #[trigger] ids@[i]@,
                    )
                &&& final(self).memory() == after_adding(
                    old(self).memory(),
                    auth_ctx@,
                    texts(ids@),
                    conversation.contents(),
                )
            },
    {
        let contents = conversation.into_memory_contents();
        let ghost models = content_models(contents@);
        let r = self.add_batch(auth_ctx, contents);
        proof {
            assert(forall|i: int| 0 <= i < contents@.len() ==> models[i] == (#[trigger] contents@[i])@);
            let s = choose|s: &mut Self|
                &*s == &*old(self) && &*final(s) == &*self && #[trigger] call_ensures(
                    Self::add_batch,
                    (s, auth_ctx, contents),
                    r,
                );
            assert(adds_batch(s, auth_ctx@, models, r));
            if r is Ok {
                lemma_adding_keeps_others(old(self).memory(), auth_ctx@, texts(r->Ok_0@), models);
            }
        }
        r
    }
}

impl<T: MemoryService> MemoryServiceConversationExt for T {

}

/// Memory after a document was kept: its chunks added, and the chunks of an earlier version
/// beyond them swept away.
pub open spec fn after_document(
    m: Memory,
    auth: (Seq<char>, Seq<char>),
    doc: Seq<char>,
    ids: Seq<Seq<char>>,
    contents: Seq<ContentModel>,
) -> Memory {
    let added = after_adding(m, auth, ids, contents);
    let n = contents.len();
    without_chunks(
        added,
        auth,
        doc,
        n,
        sweep_stop(added, auth, doc, n, 0),
    )
}

/// The size of the chunks of a document, where one is asked for or not.
pub open spec fn size_or_default(chunk_size: Option<usize>) -> nat {
    match chunk_size {
        Some(n) => n as nat,
        None => DEFAULT_CHUNK_SIZE as nat,
    }
}

/// The identifiers of the first `n` chunks of a document.
pub open spec fn chunk_ids(doc: Seq<char>, n: nat) -> Seq<Seq<char>> {
    Seq::new(n, |i: int| chunk_id(doc, i as nat))
}

/// A sweep over the chunks of a document from `start` on failed at chunk `k`: the sweep comes to
/// that chunk, those before it are gone from what was in memory, and the store `service`
/// returned the error `e` when it was to delete it.
pub open spec fn sweep_fails<S: MemoryService + ?Sized>(
    service: &mut S,
    m: Memory,
    auth: (Seq<char>, Seq<char>),
    doc: Seq<char>,
    start: nat,
    k: nat,
    e: AgentError,
) -> bool {
    &&& start <= k < sweep_stop(m, auth, doc, start, 0)
    &&& service.memory() == without_chunks(m, auth, doc, start, k)
    &&& deletes(service, auth, chunk_id(doc, k), Err(e))
}

/// Taking documents into memory.
pub trait MemoryServiceDocumentExt: MemoryService {
    /// Deletes the chunks of a document that a sweep from `start` on finds, and returns their
    /// number. Where the store fails to delete one, its error ends
    /// the sweep.
    fn delete_chunks(
        &mut self,
        auth_ctx: &AuthContext,
        document_id: &str,
        start: usize,
    ) -> (r: Result<usize, AgentError>)
        ensures
            others_kept(old(self).memory(), final(self).memory(), auth_ctx@),
            r matches Ok(n) ==> {
                let m = old(self).memory();
                let stop = sweep_stop(m, auth_ctx@, document_id@, start as nat, 0);
                &&& n == chunk_count(m, auth_ctx@, document_id@, start as nat, stop)
                &&& final(self).memory() == without_chunks(
                    m,
                    auth_ctx@,
                    document_id@,
                    start as nat,
                    stop,
                )
            },
            r matches Err(e) ==> exists|s: &mut Self, k: nat|
                &*final(s) == &*final(self) && #[trigger] sweep_fails(
                    s,
                    old(self).memory(),
                    auth_ctx@,
                    document_id@,
                    start as nat,
                    k,
                    e,
                ),
    {
        let ghost m = self.memory();
        let ghost auth = auth_ctx@;
        let ghost doc = document_id@;
        let mut sweep = ChunkSweep::new(document_id, start);
        loop
            invariant
                m == old(self).memory(),
                auth == auth_ctx@,
                doc == document_id@,
                sweep.doc() == doc,
                start <= sweep.position() <= usize::MAX,
                sweep_stop(m, auth, doc, start as nat, 0) == sweep_stop(
                    m,
                    auth,
                    doc,
                    sweep.position(),
                    sweep.missed(),
                ),
                sweep.found() == chunk_count(m, auth, doc, start as nat, sweep.position()),
                self.memory() == without_chunks(m, auth, doc, start as nat, sweep.position()),
            ensures
                !sweep.active(),
            decreases usize::MAX - sweep.position(),
        {
            match sweep.next_id() {
                None => {
                    break;
                },
                Some(id) => {
                    proof {
                        lemma_without_chunks(m, auth, doc, start as nat, sweep.position());
                        assert(has_chunk(self.memory(), auth, doc, sweep.position()) == has_chunk(
                            m,
                            auth,
                            doc,
                            sweep.position(),
                        ));
                    }
                    let ghost before = &*self;
                    let id_text = id.as_str();
                    match self.delete(auth_ctx, id_text) {
                        Ok(existed) => {
                            sweep = sweep.record(existed);
                        },
                        Err(e) => {
                            proof {
                                let k = sweep.position();
                                let failed = Err::<bool, AgentError>(e);
                                let s = choose|s: &mut Self|
                                    &*s == before && &*final(s) == &*self
                                        && #[trigger] call_ensures(
                                        Self::delete,
                                        (s, auth_ctx, id_text),
                                        failed,
                                    );
                                assert(deletes(s, auth, chunk_id(doc, k), failed));
                                lemma_deleting_keeps_others(m, auth, doc, start as nat, k);
                                lemma_sweep_goes_on(m, auth, doc, k + 1, 0);
                                lemma_sweep_goes_on(m, auth, doc, k + 1, sweep.missed() + 1);
                                assert(&*final(s) == &*final(self));
                                assert(sweep_fails(
                                    s,
                                    old(self).memory(),
                                    auth_ctx@,
                                    document_id@,
                                    start as nat,
                                    k,
                                    e,
                                ));
                            }
                            return Err(e);
                        },
                    }
                },
            }
        }
        proof {
            lemma_deleting_keeps_others(m, auth, doc, start as nat, sweep.position());
        }
        Ok(sweep.deleted())
    }

    /// Deletes the chunks of a document from `start_index` on that are left from an earlier
    /// version, and returns their number.
    fn delete_stale_chunks(
        &mut self,
        auth_ctx: &AuthContext,
        document_id: &str,
        start_index: usize,
    ) -> (r: Result<usize, AgentError>)
        ensures
            others_kept(old(self).memory(), final(self).memory(), auth_ctx@),
            r matches Ok(n) ==> {
                let m = old(self).memory();
                let stop = sweep_stop(m, auth_ctx@, document_id@, start_index as nat, 0);
                &&& n == chunk_count(m, auth_ctx@, document_id@, start_index as nat, stop)
                &&& final(self).memory() == without_chunks(
                    m,
                    auth_ctx@,
                    document_id@,
                    start_index as nat,
                    stop,
                )
            },
            r matches Err(e) ==> exists|s: &mut Self, k: nat|
                &*final(s) == &*final(self) && #[trigger] sweep_fails(
                    s,
                    old(self).memory(),
                    auth_ctx@,
                    document_id@,
                    start_index as nat,
                    k,
                    e,
                ),
    {
        self.delete_chunks(auth_ctx, document_id, start_index)
    }

    /// Deletes the chunks of a document, and returns their number.
    fn delete_document(&mut self, auth_ctx: &AuthContext, document_id: &str) -> (r: Result<
        usize,
        AgentError,
    >)
        ensures
            others_kept(old(self).memory(), final(self).memory(), auth_ctx@),
            r matches Ok(n) ==> {
                let m = old(self).memory();
                let stop = sweep_stop(m, auth_ctx@, document_id@, 0, 0);
                &&& n == chunk_count(m, auth_ctx@, document_id@, 0, stop)
                &&& final(self).memory() == without_chunks(m, auth_ctx@, document_id@, 0, stop)
            },
            r matches Err(e) ==> exists|s: &mut Self, k: nat|
                &*final(s) == &*final(self) && #[trigger] sweep_fails(
                    s,
                    old(self).memory(),
                    auth_ctx@,
                    document_id@,
                    0,
                    k,
                    e,
                ),
    {
        self.delete_chunks(auth_ctx, document_id, 0)
    }

    /// Keeps a document in chunks, in place of an earlier version, and returns the identifiers
    /// of the chunks. An error is that of the store: it failed to add the chunks, or, with the
    /// chunks added, to delete one that was left.
    fn add_document(
        &mut self,
        auth_ctx: &AuthContext,
        document: Document,
        chunk_size: Option<usize>,
    ) -> (r: Result<Vec<String>, AgentError>)
        ensures
            others_kept(old(self).memory(), final(self).memory(), auth_ctx@),
            r matches Ok(ids) ==> {
                let contents = document.contents(size_or_default(chunk_size));
                &&& texts(ids@) == chunk_ids(document.id@, contents.len())
                &&& final(self).memory() == after_document(
                    old(self).memory(),
                    auth_ctx@,
                    document.id@,
                    texts(ids@),
                    contents,
                )
            },
            r matches Err(e) ==> {
                let contents = document.contents(size_or_default(chunk_size));
                let n = contents.len();
                let added = after_adding(
                    old(self).memory(),
                    auth_ctx@,
                    chunk_ids(document.id@, n),
                    contents,
                );
                ||| exists|s: &mut Self|
                    &*s == &*old(self) && &*final(s) == &*final(self) && #[trigger] adds_batch(
                        s,
                        auth_ctx@,
                        contents,
                        Err(e),
                    )
                ||| exists|s: &mut Self, k: nat|
                    &*final(s) == &*final(self) && #[trigger] sweep_fails(
                        s,
                        added,
                        auth_ctx@,
                        document.id@,
                        n,
                        k,
                        e,
                    )
            },
    {
        let document_id = document.id.clone();
        let size: usize = match chunk_size {
            Some(n) => n,
            None => DEFAULT_CHUNK_SIZE,
        };
        let ghost expected = document.contents(size_or_default(chunk_size));
        let contents = document.into_memory_contents(size);
        let new_chunk_count: usize = contents.len();
        proof {
            assert(content_models(contents@).len() == contents@.len());
        }
        match self.add_batch(auth_ctx, contents) {
            Ok(ids) => {
                proof {
                    assert forall|i: int| 0 <= i < ids@.len() implies #[trigger] texts(ids@)[i]
                        == chunk_ids(document_id@, expected.len())[i] by {
                        assert(content_models(contents@)[i] == contents@[i]@);
                        assert(contents@[i]@.source.names(ids@[i]@));
                        assert(expected[i].source.names(ids@[i]@));
                    }
                    assert(texts(ids@) =~= chunk_ids(document_id@, expected.len()));
                    lemma_adding_keeps_others(old(self).memory(), auth_ctx@, texts(ids@), expected);
                }
                match self.delete_stale_chunks(auth_ctx, document_id.as_str(), new_chunk_count) {
                    Ok(_) => Ok(ids),
                    Err(e) => {
                        proof {
                            let n = expected.len();
                            let added = after_adding(
                                old(self).memory(),
                                auth_ctx@,
                                chunk_ids(document.id@, n),
                                expected,
                            );
                            assert(exists|s: &mut Self, k: nat|
                                &*final(s) == &*final(self) && #[trigger] sweep_fails(
                                    s,
                                    added,
                                    auth_ctx@,
                                    document.id@,
                                    n,
                                    k,
                                    e,
                                ));
                        }
                        Err(e)
                    },
                }
            },
            Err(e) => {
                proof {
                    let failed = Err::<Vec<String>, AgentError>(e);
                    let s = choose|s: &mut Self|
                        &*s == &*old(self) && &*final(s) == &*self && #[trigger] call_ensures(
                            Self::add_batch,
                            (s, auth_ctx, contents),
                            failed,
                        );
                    assert(adds_batch(s, auth_ctx@, expected, failed));
                    assert(exists|s: &mut Self|
                        &*s == &*old(self) && &*final(s) == &*final(self) && #[trigger] adds_batch(
                            s,
                            auth_ctx@,
                            expected,
                            Err(e),
                        ));
                }
                Err(e)
            },
        }
    }
}

impl<T: MemoryService> MemoryServiceDocumentExt for T {

}

} // verus!
