//! Views of a memory store: the history and the knowledge.

use crate::errors::AgentError;
use crate::json::JsonMap;
use crate::runtime::context::AuthContext;
use crate::runtime::memory::service::{
    adds, answers, entry_models, lemma_insert_keeps_others, others_kept, place, MemoryService,
};
use crate::runtime::memory::types::{
    history_types, knowledge_types, optional_text, ContentModel, ContentSource, MemoryContent, MemoryEntry, SearchOptions,
    SourceModel, SourceType,
};
use vstd::prelude::*;

verus! {

/// The options that ask for at most `limit` entries of these source types, and nothing else.
pub open spec fn limited(types: Seq<SourceType>, limit: usize, options: SearchOptions) -> bool {
    &&& options.limit == Some(limit)
    &&& options.min_score is None
    &&& options.metadata_filter is None
    &&& options.source_types is Some
    &&& options.source_types->Some_0@ == types
}

/// `r` is what the store returned for a search with at most `limit` entries of these types.
pub open spec fn searched<S: MemoryService>(
    service: S,
    auth: (Seq<char>, Seq<char>),
    query: Seq<char>,
    types: Seq<SourceType>,
    limit: usize,
    r: Result<Vec<MemoryEntry>, AgentError>,
) -> bool {
    exists|a: AuthContext, q: &str, options: SearchOptions|
        a@ == auth && q@ == query && limited(types, limit, options) && #[trigger] call_ensures(
            S::search,
            (&service, &a, q, options),
            r,
        )
}

/// What is kept of a fact about the user.
pub open spec fn user_fact(text: Seq<char>, category: Option<Seq<char>>) -> ContentModel {
    ContentModel { text, source: SourceModel::UserFact { category }, metadata: Map::empty() }
}

/// Past conversations and user facts in a memory store.
pub struct OwnedHistory<S: MemoryService> {
    pub service: S,
}

impl<S: MemoryService> OwnedHistory<S> {
    /// The history in `service`.
    pub fn new(service: S) -> (r: OwnedHistory<S>)
        ensures
            r.service == service,
    {
        OwnedHistory { service }
    }

    /// Searches past conversations and user facts.
    pub fn recall(&self, auth: &AuthContext, query: &str, limit: usize) -> (r: Result<
        Vec<MemoryEntry>,
        AgentError,
    >)
        ensures
            searched(
                self.service,
                auth@,
                query@,
                history_types(),
                limit,
                r,
            ),
            r matches Ok(found) ==> exists|options: SearchOptions| #[trigger]
                limited(
                    history_types(),
                    limit,
                    options,
                ) && answers(self.service.memory(), auth@, options, entry_models(found@)),
    {
        let options = SearchOptions::history_only().with_limit(limit);
        proof {
            assert(limited(
                history_types(),
                limit,
                options,
            ));
        }
        let r = self.service.search(auth, query, options);
        proof {
            assert(call_ensures(S::search, (&self.service, auth, query, options), r));
        }
        r
    }

    /// Saves a fact about the user: the store adds it, and what comes back is what the store
    /// returned.
    pub fn save_fact(&mut self, auth: &AuthContext, text: String, category: Option<String>) -> (r:
        Result<String, AgentError>)
        ensures
            exists|s: &mut S|
                *s == old(self).service && *final(s) == final(self).service && #[trigger] adds(
                    s,
                    auth@,
                    user_fact(text@, optional_text(category)),
                    r,
                ),
            others_kept(old(self).service.memory(), final(self).service.memory(), auth@),
            r matches Ok(id) ==> {
                let content = user_fact(text@, optional_text(category));
                &&& content.source.names(id@)
                &&& final(self).service.memory() == old(self).service.memory().insert(
                    place(auth@, id@),
                    content,
                )
            },
    {
        let content = MemoryContent {
            text,
            source: ContentSource::UserFact { category },
            metadata: JsonMap::new(),
        };
        let r = self.service.add(auth, content);
        proof {
            let s = choose|s: &mut S|
                *s == old(self).service && *final(s) == self.service && #[trigger] call_ensures(
                    S::add,
                    (s, auth, content),
                    r,
                );
            assert(adds(s, auth@, content@, r));
            if r is Ok {
                lemma_insert_keeps_others(old(self).service.memory(), auth@, r->Ok_0@, content@);
            }
        }
        r
    }
}

/// Documents and external sources in a memory store.
pub struct OwnedKnowledge<S: MemoryService> {
    pub service: S,
}

impl<S: MemoryService> OwnedKnowledge<S> {
    /// The knowledge in `service`.
    pub fn new(service: S) -> (r: OwnedKnowledge<S>)
        ensures
            r.service == service,
    {
        OwnedKnowledge { service }
    }

    /// Searches documents and external sources.
    pub fn search(&self, auth: &AuthContext, query: &str, limit: usize) -> (r: Result<
        Vec<MemoryEntry>,
        AgentError,
    >)
        ensures
            searched(
                self.service,
                auth@,
                query@,
                knowledge_types(),
                limit,
                r,
            ),
            r matches Ok(found) ==> exists|options: SearchOptions| #[trigger]
                limited(knowledge_types(), limit, options)
                    && answers(self.service.memory(), auth@, options, entry_models(found@)),
    {
        let options = SearchOptions::knowledge_only().with_limit(limit);
        proof {
            assert(limited(knowledge_types(), limit, options));
        }
        let r = self.service.search(auth, query, options);
        proof {
            assert(call_ensures(S::search, (&self.service, auth, query, options), r));
        }
        r
    }
}

} // verus!
