//! What goes into memory, and what comes out of a search.

use crate::json::{Json, JsonMap};
use crate::text::{
    chars_of, concat3, decimal, decimal_text, lemma_decimal_injective, lemma_decimal_reads_back,
    push_char,
};
use vstd::prelude::*;

verus! {

/// Content to be added to memory.
#[derive(Debug)]
pub struct MemoryContent {
    pub text: String,
    pub source: ContentSource,
    pub metadata: JsonMap,
}

/// Where content originated from.
#[derive(Debug)]
pub enum ContentSource {
    /// From a past conversation; the role is `user` or `agent`.
    PastConversation { context_id: String, message_id: String, role: String },
    /// A fact or preference of the user.
    UserFact { category: Option<String> },
    /// A chunk of a document.
    Document { document_id: String, name: String, chunk_index: usize, total_chunks: usize },
    /// An external data source.
    External { source_name: String, source_id: Option<String> },
}

/// High-level category of a source.
#[derive(Debug, Clone, Copy, PartialEq, Eq, Structural)]
pub enum SourceCategory {
    /// Past conversations and user facts.
    History,
    /// Documents and external sources.
    Knowledge,
}

/// Type of a source, for filtering searches.
#[derive(Debug, Clone, Copy, PartialEq, Eq, Structural)]
pub enum SourceType {
    PastConversation,
    UserFact,
    Document,
    External,
}

/// A relevance score: the quotient of two counts, from 0 to 1.
#[derive(Debug, Clone, Copy, PartialEq, Eq, Structural)]
pub struct Score {
    pub matched: usize,
    pub total: usize,
}

/// An entry found by a search.
#[derive(Debug)]
pub struct MemoryEntry {
    pub id: String,
    pub text: String,
    pub source: ContentSource,
    pub score: Score,
    pub metadata: JsonMap,
}

/// What a search is to return.
#[derive(Debug)]
pub struct SearchOptions {
    /// The largest number of results (10 where none is given).
    pub limit: Option<usize>,
    /// The least relevance score.
    pub min_score: Option<Score>,
    /// The source types to search; all where none are given.
    pub source_types: Option<Vec<SourceType>>,
    /// Metadata that an entry must have.
    pub metadata_filter: Option<JsonMap>,
}

// ---------------------------------------------------------------------------
// Models
// ---------------------------------------------------------------------------

/// The text that an optional string stands for.
pub open spec fn optional_text(s: Option<String>) -> Option<Seq<char>> {
    match s {
        Some(t) => Some(t@),
        None => None,
    }
}

/// The model of a source.
pub enum SourceModel {
    PastConversation { context_id: Seq<char>, message_id: Seq<char>, role: Seq<char> },
    UserFact { category: Option<Seq<char>> },
    Document { document_id: Seq<char>, name: Seq<char>, chunk_index: nat, total_chunks: nat },
    External { source_name: Seq<char>, source_id: Option<Seq<char>> },
}

/// The model of content.
pub struct ContentModel {
    pub text: Seq<char>,
    pub source: SourceModel,
    pub metadata: Map<Seq<char>, Json>,
}

/// The model of a found entry.
pub struct EntryModel {
    pub id: Seq<char>,
    pub content: ContentModel,
    pub score: Score,
}

impl View for ContentSource {
    type V = SourceModel;

    open spec fn view(&self) -> SourceModel {
        match *self {
            ContentSource::PastConversation { context_id, message_id, role } =>
                SourceModel::PastConversation {
                context_id: context_id@,
                message_id: message_id@,
                role: role@,
            },
            ContentSource::UserFact { category } => SourceModel::UserFact {
                category: optional_text(category),
            },
            ContentSource::Document { document_id, name, chunk_index, total_chunks } =>
                SourceModel::Document {
                document_id: document_id@,
                name: name@,
                chunk_index: chunk_index as nat,
                total_chunks: total_chunks as nat,
            },
            ContentSource::External { source_name, source_id } => SourceModel::External {
                source_name: source_name@,
                source_id: optional_text(source_id),
            },
        }
    }
}

impl View for MemoryContent {
    type V = ContentModel;

    open spec fn view(&self) -> ContentModel {
        ContentModel { text: self.text@, source: self.source@, metadata: self.metadata@ }
    }
}

impl View for MemoryEntry {
    type V = EntryModel;

    open spec fn view(&self) -> EntryModel {
        EntryModel {
            id: self.id@,
            content: ContentModel {
                text: self.text@,
                source: self.source@,
                metadata: self.metadata@,
            },
            score: self.score,
        }
    }
}

impl SourceModel {
    /// The type of the source.
    pub open spec fn source_type(self) -> SourceType {
        match self {
            SourceModel::PastConversation { .. } => SourceType::PastConversation,
            SourceModel::UserFact { .. } => SourceType::UserFact,
            SourceModel::Document { .. } => SourceType::Document,
            SourceModel::External { .. } => SourceType::External,
        }
    }

    /// The category of the source.
    pub open spec fn category(self) -> SourceCategory {
        match self {
            SourceModel::PastConversation { .. } | SourceModel::UserFact { .. } =>
                SourceCategory::History,
            SourceModel::Document { .. } | SourceModel::External { .. } =>
                SourceCategory::Knowledge,
        }
    }

    /// Whether an identifier of this source ends in a fresh UUID.
    pub open spec fn needs_uuid(self) -> bool {
        match self {
            SourceModel::UserFact { .. } => true,
            SourceModel::External { source_id, .. } => source_id is None,
            _ => false,
        }
    }

    /// The identifier of content from this source, `uuid` standing where a UUID is called for.
    pub open spec fn id(self, uuid: Seq<char>) -> Seq<char> {
        match self {
            SourceModel::PastConversation { context_id, message_id, .. } => "conv:"@ + escaped(
                context_id,
            ) + ":"@ + message_id,
            SourceModel::UserFact { category: Some(category) } => "fact:"@ + category + ":"@ + uuid,
            SourceModel::UserFact { category: None } => "fact:"@ + uuid,
            SourceModel::Document { document_id, chunk_index, .. } => chunk_id(
                document_id,
                chunk_index,
            ),
            SourceModel::External { source_name, source_id: Some(source_id) } => "ext:"@
                + escaped(source_name) + ":"@ + source_id,
            SourceModel::External { source_name, source_id: None } => "ext:"@ + escaped(
                source_name,
            ) + ":"@ + uuid,
        }
    }

    /// `id` is an identifier that content from this source may be given.
    pub open spec fn names(self, id: Seq<char>) -> bool {
        if self.needs_uuid() {
            exists|uuid: Seq<char>| is_uuid(uuid) && id == #[trigger] self.id(uuid)
        } else {
            id == self.id(Seq::empty())
        }
    }
}

/// What stands for a character in a part of an identifier that a colon ends.
pub open spec fn escaped_char(c: char) -> Seq<char> {
    if c == ':' {
        seq!['%', '3', 'A']
    } else if c == '%' {
        seq!['%', '2', '5']
    } else {
        seq![c]
    }
}

/// A text without colons that stands for `s`: each colon is `%3A`, each percent sign `%25`.
pub open spec fn escaped(s: Seq<char>) -> Seq<char>
    decreases s.len(),
{
    if s.len() == 0 {
        Seq::empty()
    } else {
        escaped_char(s[0]) + escaped(s.skip(1))
    }
}

/// The identifier of a chunk of a document.
pub open spec fn chunk_id(document_id: Seq<char>, index: nat) -> Seq<char> {
    "doc:"@ + document_id + ":chunk-"@ + decimal(index)
}

/// A lower-case hexadecimal digit.
pub open spec fn is_hex(c: char) -> bool {
    '0' <= c <= '9' || 'a' <= c <= 'f'
}

/// The hyphenated form of a UUID of version 4: 36 characters, hyphens at four places,
/// hexadecimal digits elsewhere.
pub open spec fn is_uuid(s: Seq<char>) -> bool {
    &&& s.len() == 36
    &&& s[8] == '-' && s[13] == '-' && s[18] == '-' && s[23] == '-'
    &&& s[14] == '4'
    &&& forall|i: int|
        0 <= i < 36 && i != 8 && i != 13 && i != 18 && i != 23 ==> is_hex(#[trigger] s[i])
}

/// `uuid::Uuid::new_v4`, written out by the `Display` of `Uuid`: a random UUID of version 4
/// in its hyphenated lower-case form.
#[verifier::external_body]
pub(crate) fn new_uuid() -> (r: String)
    ensures
        is_uuid(r@),
{
    uuid::Uuid::new_v4().to_string()
}

// ---------------------------------------------------------------------------
// Sources
// ---------------------------------------------------------------------------

/// A text without colons that stands for `s`.
fn escape(s: &str) -> (r: String)
    ensures
        r@ == escaped(s@),
{
    let v = chars_of(s);
    let mut out = String::new();
    let mut i: usize = 0;
    proof {
        assert(s@.skip(0) =~= s@);
        assert(out@ + escaped(s@) =~= escaped(s@));
    }
    while i < v.len()
        invariant
            i <= v.len(),
            v@ == s@,
            out@ + escaped(s@.skip(i as int)) == escaped(s@),
        decreases v.len() - i,
    {
        let c = v[i];
        let ghost before = out@;
        if c == ':' || c == '%' {
            push_char(&mut out, '%');
            push_char(&mut out, if c == ':' { '3' } else { '2' });
            push_char(&mut out, if c == ':' { 'A' } else { '5' });
        } else {
            push_char(&mut out, c);
        }
        proof {
            assert(s@.skip(i as int).skip(1) =~= s@.skip(i + 1));
            assert(s@.skip(i as int)[0] == c);
            assert(out@ =~= before + escaped_char(c));
            assert(out@ + escaped(s@.skip(i + 1)) =~= before + (escaped_char(c) + escaped(
                s@.skip(i + 1),
            )));
        }
        i = i + 1;
    }
    proof {
        assert(s@.skip(s@.len() as int).len() == 0);
        assert(out@ + Seq::<char>::empty() =~= out@);
    }
    out
}

impl ContentSource {
    /// An identifier for content from this source. Sources without a natural identifier get
    /// a random one.
    pub fn generate_id(&self) -> (r: String)
        ensures
            self@.names(r@),
    {
        let needs_uuid = match self {
            ContentSource::UserFact { .. } => true,
            ContentSource::External { source_id, .. } => source_id.is_none(),
            _ => false,
        };
        let uuid = if needs_uuid {
            new_uuid()
        } else {
            String::new()
        };
        let id = self.id_with(uuid.as_str());
        proof {
            assert(id@ == self@.id(uuid@));
            assert(uuid@.len() == 0 ==> uuid@ =~= Seq::<char>::empty());
        }
        id
    }

    /// The identifier of content from this source, `uuid` standing where a random
    /// identifier is called for.
    pub fn id_with(&self, uuid: &str) -> (r: String)
        ensures
            r@ == self@.id(uuid@),
    {
        match self {
            ContentSource::PastConversation { context_id, message_id, .. } => {
                let mut s = concat3("conv:", escape(context_id.as_str()).as_str(), ":");
                s.append(message_id.as_str());
                s
            },
            ContentSource::UserFact { category } => {
                match category {
                    Some(category) => {
                        let mut s = concat3("fact:", category.as_str(), ":");
                        s.append(uuid);
                        s
                    },
                    None => crate::text::concat2("fact:", uuid),
                }
            },
            ContentSource::Document { document_id, chunk_index, .. } => {
                document_chunk_id(document_id.as_str(), *chunk_index)
            },
            ContentSource::External { source_name, source_id } => {
                let mut s = concat3("ext:", escape(source_name.as_str()).as_str(), ":");
                match source_id {
                    Some(id) => s.append(id.as_str()),
                    None => s.append(uuid),
                }
                s
            },
        }
    }

    /// The type of the source, for filtering.
    pub fn source_type(&self) -> (r: SourceType)
        ensures
            r == self@.source_type(),
    {
        match self {
            ContentSource::PastConversation { .. } => SourceType::PastConversation,
            ContentSource::UserFact { .. } => SourceType::UserFact,
            ContentSource::Document { .. } => SourceType::Document,
            ContentSource::External { .. } => SourceType::External,
        }
    }

    /// The category of the source.
    pub fn category(&self) -> (r: SourceCategory)
        ensures
            r == self@.category(),
    {
        match self {
            ContentSource::PastConversation { .. } | ContentSource::UserFact { .. } =>
                SourceCategory::History,
            ContentSource::Document { .. } | ContentSource::External { .. } =>
                SourceCategory::Knowledge,
        }
    }
}

/// The identifier of a chunk of a document.
pub fn document_chunk_id(document_id: &str, index: usize) -> (r: String)
    ensures
        r@ == chunk_id(document_id@, index as nat),
{
    let n = decimal_text(index as u64);
    let mut s = concat3("doc:", document_id, ":chunk-");
    s.append(n.as_str());
    s
}

fn copy_optional(s: &Option<String>) -> (r: Option<String>)
    ensures
        optional_text(r) == optional_text(*s),
{
    match s {
        Some(t) => Some(t.clone()),
        None => None,
    }
}

impl Clone for ContentSource {
    fn clone(&self) -> (r: ContentSource)
        ensures
            r@ == self@,
    {
        match self {
            ContentSource::PastConversation { context_id, message_id, role } =>
                ContentSource::PastConversation {
                context_id: context_id.clone(),
                message_id: message_id.clone(),
                role: role.clone(),
            },
            ContentSource::UserFact { category } => ContentSource::UserFact {
                category: copy_optional(category),
            },
            ContentSource::Document { document_id, name, chunk_index, total_chunks } =>
                ContentSource::Document {
                document_id: document_id.clone(),
                name: name.clone(),
                chunk_index: *chunk_index,
                total_chunks: *total_chunks,
            },
            ContentSource::External { source_name, source_id } => ContentSource::External {
                source_name: source_name.clone(),
                source_id: copy_optional(source_id),
            },
        }
    }
}

impl Clone for MemoryContent {
    fn clone(&self) -> (r: MemoryContent)
        ensures
            r@ == self@,
    {
        MemoryContent {
            text: self.text.clone(),
            source: self.source.clone(),
            metadata: self.metadata.clone(),
        }
    }
}

// ---------------------------------------------------------------------------
// Scores
// ---------------------------------------------------------------------------

impl Score {
    /// Of the two quotients this one is at least as large.
    pub open spec fn at_least(self, other: Score) -> bool {
        self.matched * other.total >= other.matched * self.total
    }

    /// The score 1.
    pub fn one() -> (r: Score)
        ensures
            r == (Score { matched: 1, total: 1 }),
    {
        Score { matched: 1, total: 1 }
    }

    /// The score 0.
    pub fn zero() -> (r: Score)
        ensures
            r == (Score { matched: 0, total: 1 }),
    {
        Score { matched: 0, total: 1 }
    }

    /// Tells whether this score is at least as large as the other.
    pub fn reaches(&self, other: &Score) -> (r: bool)
        ensures
            r == self.at_least(*other),
    {
        let a: u128 = product(self.matched, other.total);
        let b: u128 = product(other.matched, self.total);
        a >= b
    }
}

fn product(a: usize, b: usize) -> (r: u128)
    ensures
        r == a * b,
{
    assert(0 <= a * b <= u128::MAX) by (nonlinear_arith)
        requires
            0 <= a <= u64::MAX,
            0 <= b <= u64::MAX,
    ;
    (a as u128) * (b as u128)
}

// ---------------------------------------------------------------------------
// Search options
// ---------------------------------------------------------------------------

/// The source types of the history.
pub open spec fn history_types() -> Seq<SourceType> {
    seq![SourceType::PastConversation, SourceType::UserFact]
}

/// The source types of the knowledge.
pub open spec fn knowledge_types() -> Seq<SourceType> {
    seq![SourceType::Document, SourceType::External]
}

impl Default for SearchOptions {
    fn default() -> (r: SearchOptions)
        ensures
            r.limit is None,
            r.min_score is None,
            r.source_types is None,
            r.metadata_filter is None,
    {
        SearchOptions { limit: None, min_score: None, source_types: None, metadata_filter: None }
    }
}

impl SearchOptions {
    /// Sets the largest number of results.
    #[must_use]
    pub fn with_limit(self, limit: usize) -> (r: SearchOptions)
        ensures
            r == (SearchOptions { limit: Some(limit), ..self }),
    {
        SearchOptions { limit: Some(limit), ..self }
    }

    /// Sets the least relevance score.
    #[must_use]
    pub fn with_min_score(self, min_score: Score) -> (r: SearchOptions)
        ensures
            r == (SearchOptions { min_score: Some(min_score), ..self }),
    {
        SearchOptions { min_score: Some(min_score), ..self }
    }

    /// Sets the source types to search.
    #[must_use]
    pub fn with_source_types(self, types: Vec<SourceType>) -> (r: SearchOptions)
        ensures
            r == (SearchOptions { source_types: Some(types), ..self }),
    {
        SearchOptions { source_types: Some(types), ..self }
    }

    /// These options ask for sources of `types` only, and for nothing else.
    pub open spec fn only_types(self, types: Seq<SourceType>) -> bool {
        &&& self.limit is None
        &&& self.min_score is None
        &&& self.metadata_filter is None
        &&& self.source_types is Some
        &&& self.source_types->Some_0@ == types
    }

    /// Past conversations and user facts only.
    #[must_use]
    pub fn history_only() -> (r: SearchOptions)
        ensures
            r.only_types(history_types()),
    {
        let mut types: Vec<SourceType> = Vec::new();
        types.push(SourceType::PastConversation);
        types.push(SourceType::UserFact);
        proof {
            assert(types@ =~= history_types());
        }
        SearchOptions::default().with_source_types(types)
    }

    /// Documents and external sources only.
    #[must_use]
    pub fn knowledge_only() -> (r: SearchOptions)
        ensures
            r.only_types(knowledge_types()),
    {
        let mut types: Vec<SourceType> = Vec::new();
        types.push(SourceType::Document);
        types.push(SourceType::External);
        proof {
            assert(types@ =~= knowledge_types());
        }
        SearchOptions::default().with_source_types(types)
    }

    /// Conversations only.
    #[must_use]
    pub fn conversations_only() -> (r: SearchOptions)
        ensures
            r.only_types(seq![SourceType::PastConversation]),
    {
        let mut types: Vec<SourceType> = Vec::new();
        types.push(SourceType::PastConversation);
        proof {
            assert(types@ =~= seq![SourceType::PastConversation]);
        }
        SearchOptions::default().with_source_types(types)
    }

    /// Documents only.
    #[must_use]
    pub fn documents_only() -> (r: SearchOptions)
        ensures
            r.only_types(seq![SourceType::Document]),
    {
        let mut types: Vec<SourceType> = Vec::new();
        types.push(SourceType::Document);
        proof {
            assert(types@ =~= seq![SourceType::Document]);
        }
        SearchOptions::default().with_source_types(types)
    }

    /// An entry with source type `t` passes the filter on source types.
    pub open spec fn admits_type(self, t: SourceType) -> bool {
        match self.source_types {
            Some(types) => types@.contains(t),
            None => true,
        }
    }

    /// An entry with this metadata passes the filter on metadata.
    pub open spec fn admits_metadata(self, metadata: Map<Seq<char>, Json>) -> bool {
        match self.metadata_filter {
            Some(filter) => forall|k: Seq<char>| #[trigger]
                filter@.contains_key(k) ==> metadata.contains_key(k) && metadata[k] == filter@[k],
            None => true,
        }
    }

    /// A score passes the limit on scores.
    pub open spec fn admits_score(self, score: Score) -> bool {
        match self.min_score {
            Some(min) => score.at_least(min),
            None => true,
        }
    }

    /// The largest number of results.
    pub open spec fn limit_or_default(self) -> nat {
        match self.limit {
            Some(n) => n as nat,
            None => 10,
        }
    }
}

// ---------------------------------------------------------------------------
// Laws
// ---------------------------------------------------------------------------

/// A source belongs to the history exactly when the history search looks at its type, and to
/// the knowledge exactly when the knowledge search does; every source is in one of the two.
pub proof fn history_and_knowledge_partition(s: SourceModel)
    ensures
        (s.category() == SourceCategory::History) == history_types().contains(s.source_type()),
        (s.category() == SourceCategory::Knowledge) == knowledge_types().contains(s.source_type()),
        s.category() == SourceCategory::History || s.category() == SourceCategory::Knowledge,
{
    let h = history_types();
    let k = knowledge_types();
    assert(h[0] == SourceType::PastConversation && h[1] == SourceType::UserFact);
    assert(k[0] == SourceType::Document && k[1] == SourceType::External);
    assert(h.len() == 2 && k.len() == 2);
}

/// Content from a source that calls for no random identifier is always given the same one, so
/// adding it again replaces what was there.
pub proof fn natural_ids_are_stable(s: SourceModel, id: Seq<char>, other: Seq<char>)
    requires
        !s.needs_uuid(),
        s.names(id),
        s.names(other),
    ensures
        id == other,
{
}

/// Different chunks have different identifiers, whatever their documents.
pub proof fn chunk_ids_differ(d: Seq<char>, i: nat, e: Seq<char>, j: nat)
    requires
        chunk_id(d, i) == chunk_id(e, j),
    ensures
        d == e,
        i == j,
{
    reveal_strlit("doc:");
    reveal_strlit(":chunk-");
    let p = "doc:"@;
    let q = ":chunk-"@;
    let a = decimal(i);
    let b = decimal(j);
    lemma_decimal_reads_back(i);
    lemma_decimal_reads_back(j);
    let s = p + d + q + a;
    let t = p + e + q + b;
    assert(s == t);
    let n = s.len();
    if a.len() < b.len() {
        assert(s[n - a.len() - 1] == q[6]);
        assert(t[n - a.len() - 1] == b[b.len() - a.len() - 1]);
        assert(false);
    }
    if b.len() < a.len() {
        assert(t[n - b.len() - 1] == q[6]);
        assert(s[n - b.len() - 1] == a[a.len() - b.len() - 1]);
        assert(false);
    }
    assert(a =~= b) by {
        assert forall|k: int| 0 <= k < a.len() implies a[k] == b[k] by {
            assert(s[n - a.len() + k] == a[k]);
            assert(t[n - b.len() + k] == b[k]);
        }
    }
    lemma_decimal_injective(i, j);
    assert(d =~= e) by {
        assert forall|k: int| 0 <= k < d.len() implies d[k] == e[k] by {
            assert(s[4 + k] == d[k]);
            assert(t[4 + k] == e[k]);
        }
    }
}

proof fn lemma_escaped_has_no_colon(s: Seq<char>)
    ensures
        forall|i: int| 0 <= i < escaped(s).len() ==> #[trigger] escaped(s)[i] != ':',
    decreases s.len(),
{
    if s.len() > 0 {
        lemma_escaped_has_no_colon(s.skip(1));
        let head = escaped_char(s[0]);
        assert forall|i: int| 0 <= i < escaped(s).len() implies #[trigger] escaped(s)[i] != ':' by {
            if i >= head.len() {
                assert(escaped(s)[i] == escaped(s.skip(1))[i - head.len()]);
            }
        }
    }
}

proof fn lemma_escaped_injective(s: Seq<char>, t: Seq<char>)
    requires
        escaped(s) == escaped(t),
    ensures
        s == t,
    decreases s.len(),
{
    if s.len() == 0 {
        assert(t.len() == 0) by {
            if t.len() > 0 {
                assert(escaped(t).len() >= escaped_char(t[0]).len());
            }
        }
        assert(s =~= t);
    } else {
        let a = escaped_char(s[0]);
        let e = escaped(s);
        assert(e.len() >= 1);
        assert(t.len() > 0);
        let b = escaped_char(t[0]);
        assert(e[0] == a[0] && e[0] == b[0]);
        if e[0] == '%' {
            assert(e[1] == a[1] && e[1] == b[1]);
        }
        assert(s[0] == t[0]);
        assert(escaped(s.skip(1)) =~= e.skip(a.len() as int));
        assert(escaped(t.skip(1)) =~= e.skip(a.len() as int));
        lemma_escaped_injective(s.skip(1), t.skip(1));
        assert(s =~= seq![s[0]] + s.skip(1));
        assert(t =~= seq![t[0]] + t.skip(1));
    }
}

/// What a prefix, an escaped text, a colon and another text are made of can be read off them.
proof fn lemma_parts(p: Seq<char>, a: Seq<char>, b: Seq<char>, c: Seq<char>, d: Seq<char>)
    requires
        p + escaped(a) + ":"@ + b == p + escaped(c) + ":"@ + d,
    ensures
        a == c,
        b == d,
{
    reveal_strlit(":");
    let x = escaped(a);
    let y = escaped(c);
    let s = p + x + ":"@ + b;
    let t = p + y + ":"@ + d;
    assert(s == t);
    lemma_escaped_has_no_colon(a);
    lemma_escaped_has_no_colon(c);
    assert(s[(p.len() + x.len()) as int] == ':');
    assert(t[(p.len() + y.len()) as int] == ':');
    if x.len() < y.len() {
        assert(t[(p.len() + x.len()) as int] == y[x.len() as int]);
    }
    if y.len() < x.len() {
        assert(s[(p.len() + y.len()) as int] == x[y.len() as int]);
    }
    assert(x =~= y) by {
        assert forall|k: int| 0 <= k < x.len() implies x[k] == y[k] by {
            assert(s[p.len() + k] == x[k]);
            assert(t[p.len() + k] == y[k]);
        }
    }
    lemma_escaped_injective(a, c);
    assert(b =~= d) by {
        assert(b =~= s.skip((p.len() + x.len() + 1) as int));
        assert(d =~= t.skip((p.len() + y.len() + 1) as int));
    }
}

/// An identifier belongs to one content: those of different types differ, those of two messages
/// differ unless context and message are the same, those of two chunks unless document and
/// number are the same, and those of two named external contents unless both names are the same.
pub proof fn identifiers_are_unique(
    a: SourceModel,
    b: SourceModel,
    id: Seq<char>,
)
    requires
        a.names(id),
        b.names(id),
    ensures
        a.source_type() == b.source_type(),
        match (a, b) {
            (
                SourceModel::PastConversation { context_id: c, message_id: m, .. },
                SourceModel::PastConversation { context_id: d, message_id: n, .. },
            ) => c == d && m == n,
            (
                SourceModel::Document { document_id: c, chunk_index: i, .. },
                SourceModel::Document { document_id: d, chunk_index: j, .. },
            ) => c == d && i == j,
            (
                SourceModel::External { source_name: c, source_id: Some(i) },
                SourceModel::External { source_name: d, source_id: Some(j) },
            ) => c == d && i == j,
            _ => true,
        },
{
    lemma_first_letter(a, id);
    lemma_first_letter(b, id);
    match (a, b) {
        (
            SourceModel::PastConversation { context_id: c, message_id: m, .. },
            SourceModel::PastConversation { context_id: d, message_id: n, .. },
        ) => {
            lemma_parts("conv:"@, c, m, d, n);
        },
        (
            SourceModel::Document { document_id: c, chunk_index: i, .. },
            SourceModel::Document { document_id: d, chunk_index: j, .. },
        ) => {
            chunk_ids_differ(c, i, d, j);
        },
        (
            SourceModel::External { source_name: c, source_id: Some(i) },
            SourceModel::External { source_name: d, source_id: Some(j) },
        ) => {
            lemma_parts("ext:"@, c, i, d, j);
        },
        _ => {},
    }
}

proof fn lemma_first_letter(a: SourceModel, id: Seq<char>)
    requires
        a.names(id),
    ensures
        id.len() > 0,
        id[0] == match a.source_type() {
            SourceType::PastConversation => 'c',
            SourceType::UserFact => 'f',
            SourceType::Document => 'd',
            SourceType::External => 'e',
        },
{
    reveal_strlit("conv:");
    reveal_strlit("fact:");
    reveal_strlit("doc:");
    reveal_strlit("ext:");
    let uuid = if a.needs_uuid() {
        choose|uuid: Seq<char>| is_uuid(uuid) && id == #[trigger] a.id(uuid)
    } else {
        Seq::empty()
    };
    assert(id == a.id(uuid));
}

} // verus!
