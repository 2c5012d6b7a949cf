//! A memory store that keeps everything in this process.

use crate::errors::AgentError;
use crate::runtime::context::AuthContext;
use crate::runtime::memory::backends::ranking::{
    admitted, arranged, item_models, keywords, lemma_arranged, lemma_arranged_complete, lists, rank,
    ranked, relevance,
};
use crate::runtime::memory::service::{
    after_adding, after_removing, answers, content_models, entry_models, place, removed_count, Memory,
    MemoryService,
};
use crate::runtime::memory::types::{
    ContentModel, EntryModel, MemoryContent, MemoryEntry, Score, SearchOptions,
};
use crate::text::texts;
use dashmap::DashMap;
use std::sync::Arc;
use vstd::prelude::*;

verus! {

/// The concurrent map of the `dashmap` crate.
#[verifier::external_type_specification]
#[verifier::external_body]
#[verifier::reject_recursive_types(K)]
#[verifier::reject_recursive_types(V)]
#[verifier::reject_recursive_types(S)]
pub struct ExDashMap<K, V, S>(DashMap<K, V, S>);

/// The contents of a store: a map from pairs of application and user to maps from identifiers
/// to contents, read as one map.
pub uninterp spec fn store_contents(
    store: DashMap<(String, String), DashMap<String, Arc<MemoryContent>>>,
) -> Memory;

/// `DashMap::new`: a map without entries.
#[verifier::external_body]
fn new_store() -> (r: DashMap<(String, String), DashMap<String, Arc<MemoryContent>>>)
    ensures
        store_contents(r) == Memory::empty(),
{
    DashMap::new()
}

/// `DashMap::entry` with `or_default`, then `DashMap::insert` on the inner map: the content
/// stands under the owner and the identifier, in place of what was there; nothing else changes.
#[verifier::external_body]
fn store_insert(
    store: &mut DashMap<(String, String), DashMap<String, Arc<MemoryContent>>>,
    owner: (String, String),
    id: String,
    content: Arc<MemoryContent>,
)
    ensures
        store_contents(*final(store)) == store_contents(*old(store)).insert(
            (owner.0@, owner.1@, id@),
            content@,
        ),
{
    store.entry(owner).or_default().insert(id, content);
}

/// `DashMap::get`, then `DashMap::remove` on the inner map: nothing stands under the owner and
/// the identifier any more, nothing else changes; tells whether something stood there.
#[verifier::external_body]
fn store_remove(
    store: &mut DashMap<(String, String), DashMap<String, Arc<MemoryContent>>>,
    owner: &(String, String),
    id: &str,
) -> (r: bool)
    ensures
        r == store_contents(*old(store)).contains_key((owner.0@, owner.1@, id@)),
        store_contents(*final(store)) == store_contents(*old(store)).remove(
            (owner.0@, owner.1@, id@),
        ),
{
    store.get(owner).map(|inner| inner.remove(id).is_some()).unwrap_or(false)
}

/// `DashMap::get`, then `DashMap::iter` on the inner map: what stands under the owner, each
/// identifier once with its content, in an order that the map does not fix.
#[verifier::external_body]
fn store_list(
    store: &DashMap<(String, String), DashMap<String, Arc<MemoryContent>>>,
    owner: &(String, String),
) -> (r: Vec<(String, Arc<MemoryContent>)>)
    ensures
        lists(item_models(r@), store_contents(*store), (owner.0@, owner.1@)),
{
    store.get(owner).map(
        |inner| inner.iter().map(|e| (e.key().clone(), Arc::clone(e.value()))).collect(),
    ).unwrap_or_default()
}

/// A memory store in this process, with relevance by keywords. For development and tests.
pub struct InMemoryMemoryService {
    store: DashMap<(String, String), DashMap<String, Arc<MemoryContent>>>,
}

impl Default for InMemoryMemoryService {
    fn default() -> (r: InMemoryMemoryService)
        ensures
            r.memory() == Memory::empty(),
    {
        InMemoryMemoryService { store: new_store() }
    }
}

impl InMemoryMemoryService {
    /// A store without contents.
    #[must_use]
    pub fn new() -> (r: InMemoryMemoryService)
        ensures
            r.memory() == Memory::empty(),
    {
        InMemoryMemoryService { store: new_store() }
    }

    /// Under which pair of names the contents of a user are kept.
    fn namespace(auth_ctx: &AuthContext) -> (r: (String, String))
        ensures
            (r.0@, r.1@) == auth_ctx@,
    {
        (auth_ctx.app_name.clone(), auth_ctx.user_name.clone())
    }

    /// `found` answers a search for `query`: it is the ranking of this user's memory, listed in
    /// some order.
    pub open spec fn found_by(
        &self,
        auth: (Seq<char>, Seq<char>),
        query: Seq<char>,
        options: SearchOptions,
        found: Seq<MemoryEntry>,
    ) -> bool {
        exists|items: Seq<(Seq<char>, ContentModel)>| #[trigger]
            lists(items, self.memory(), auth) && entry_models(found) == ranked(
                items,
                query,
                options,
            )
    }
}

impl MemoryService for InMemoryMemoryService {
    closed spec fn memory(&self) -> Memory {
        store_contents(self.store)
    }

    fn add(&mut self, auth_ctx: &AuthContext, content: MemoryContent) -> (r: Result<
        String,
        AgentError,
    >)
        ensures
            r is Ok,
    {
        let owner = InMemoryMemoryService::namespace(auth_ctx);
        let id = content.source.generate_id();
        store_insert(&mut self.store, owner, id.clone(), Arc::new(content));
        Ok(id)
    }

    fn add_batch(&mut self, auth_ctx: &AuthContext, contents: Vec<MemoryContent>) -> (r: Result<
        Vec<String>,
        AgentError,
    >)
        ensures
            r is Ok,
    {
        let mut ids: Vec<String> = Vec::new();
        let ghost before = self.memory();
        let ghost models = content_models(contents@);
        let ghost auth = auth_ctx@;
        proof {
            assert(texts(ids@) =~= Seq::<Seq<char>>::empty());
            assert(models.take(0) =~= Seq::<ContentModel>::empty());
        }
        let mut i: usize = 0;
        while i < contents.len()
            invariant
                i <= contents.len(),
                ids.len() == i,
                auth == auth_ctx@,
                models == content_models(contents@),
                forall|j: int| 0 <= j < i ==> contents@[j]@.source.names(#[trigger] ids@[j]@),
                self.memory() == after_adding(before, auth, texts(ids@), models.take(i as int)),
            decreases contents.len() - i,
        {
            let owner = InMemoryMemoryService::namespace(auth_ctx);
            let content = contents[i].clone();
            let id = content.source.generate_id();
            let ghost o = ids@;
            let ghost m = content@;
            store_insert(&mut self.store, owner, id.clone(), Arc::new(content));
            ids.push(id);
            proof {
                assert(texts(ids@).drop_last() =~= texts(o));
                assert(texts(ids@).last() == id@);
                assert(models.take(i + 1).drop_last() =~= models.take(i as int));
                assert(models.take(i + 1).last() == m);
            }
            i = i + 1;
        }
        proof {
            assert(models.take(models.len() as int) =~= models);
        }
        Ok(ids)
    }

    fn search(&self, auth_ctx: &AuthContext, query: &str, options: SearchOptions) -> (r: Result<
        Vec<MemoryEntry>,
        AgentError,
    >)
        ensures
            r matches Ok(found) && self.found_by(auth_ctx@, query@, options, found@),
    {
        let owner = InMemoryMemoryService::namespace(auth_ctx);
        let items = store_list(&self.store, &owner);
        let found = rank(&items, query, &options);
        proof {
            let list = item_models(items@);
            assert(lists(list, self.memory(), auth_ctx@));
            lemma_answers(list, self.memory(), auth_ctx@, query@, options);
        }
        Ok(found)
    }

    fn delete(&mut self, auth_ctx: &AuthContext, id: &str) -> (r: Result<bool, AgentError>)
        ensures
            r is Ok,
    {
        let owner = InMemoryMemoryService::namespace(auth_ctx);
        Ok(store_remove(&mut self.store, &owner, id))
    }

    fn delete_batch(&mut self, auth_ctx: &AuthContext, ids: &Vec<String>) -> (r: Result<
        usize,
        AgentError,
    >)
        ensures
            r is Ok,
    {
        let owner = InMemoryMemoryService::namespace(auth_ctx);
        let mut count: usize = 0;
        let ghost before = self.memory();
        let ghost auth = auth_ctx@;
        let mut i: usize = 0;
        proof {
            assert(texts(ids@).take(0) =~= Seq::<Seq<char>>::empty());
        }
        while i < ids.len()
            invariant
                i <= ids.len(),
                count <= i,
                auth == (owner.0@, owner.1@),
                count == removed_count(before, auth, texts(ids@).take(i as int)),
                self.memory() == after_removing(before, auth, texts(ids@).take(i as int)),
            decreases ids.len() - i,
        {
            proof {
                assert(texts(ids@).take(i + 1).drop_last() =~= texts(ids@).take(i as int));
                assert(texts(ids@).take(i + 1).last() == ids@[i as int]@);
            }
            if store_remove(&mut self.store, &owner, ids[i].as_str()) {
                count = count + 1;
            }
            i = i + 1;
        }
        proof {
            assert(texts(ids@).take(ids@.len() as int) =~= texts(ids@));
        }
        Ok(count)
    }
}

/// The ranking of a user's memory answers a search.
pub proof fn lemma_answers(
    items: Seq<(Seq<char>, ContentModel)>,
    m: Memory,
    auth: (Seq<char>, Seq<char>),
    query: Seq<char>,
    options: SearchOptions,
)
    requires
        keywords(query).len() <= usize::MAX,
        lists(items, m, auth),
    ensures
        answers(m, auth, options, ranked(items, query, options)),
{
    lemma_arranged(items, query, options);
    let all = arranged(items, query, options);
    let found = ranked(items, query, options);
    assert forall|i: int| 0 <= i < found.len() implies ({
        let e = #[trigger] found[i];
        &&& m.contains_key(place(auth, e.id))
        &&& m[place(auth, e.id)] == e.content
        &&& options.admits_type(e.content.source.source_type())
        &&& options.admits_metadata(e.content.metadata)
        &&& options.admits_score(e.score)
    }) by {
        let e = all[i];
        assert(found[i] == e);
        assert(items.contains((e.id, e.content)));
        let k = choose|k: int| 0 <= k < items.len() && items[k] == (e.id, e.content);
        assert(items[k].0 == e.id);
    }
    assert forall|i: int, j: int| 0 <= i < j < found.len() implies (#[trigger] found[i]).id != (
    #[trigger] found[j]).id && found[i].score.at_least(found[j].score) by {
        assert(found[i] == all[i] && found[j] == all[j]);
    }
}

// ---------------------------------------------------------------------------
// Laws
// ---------------------------------------------------------------------------

/// A search leaves out nothing of the user's memory that belongs into the answer, unless the
/// answer is full of what is at least as relevant.
pub proof fn nothing_better_is_left_out(
    service: InMemoryMemoryService,
    auth: (Seq<char>, Seq<char>),
    query: Seq<char>,
    options: SearchOptions,
    found: Seq<MemoryEntry>,
    id: Seq<char>,
)
    requires
        keywords(query).len() <= usize::MAX,
        service.found_by(auth, query, options, found),
        service.memory().contains_key(place(auth, id)),
        admitted(options, query, service.memory()[place(auth, id)]),
    ensures
        (exists|k: int| 0 <= k < found.len() && (#[trigger] found[k])@.id == id) || (found.len()
            == options.limit_or_default() && forall|k: int|
            0 <= k < found.len() ==> (#[trigger] found[k])@.score.at_least(
                relevance(query, service.memory()[place(auth, id)].text),
            )),
{
    let m = service.memory();
    let items = choose|items: Seq<(Seq<char>, ContentModel)>| #[trigger]
        lists(items, m, auth) && entry_models(found) == ranked(items, query, options);
    let i = choose|i: int| 0 <= i < items.len() && (#[trigger] items[i]).0 == id;
    lemma_arranged(items, query, options);
    lemma_arranged_complete(items, query, options, i);
    let all = arranged(items, query, options);
    let e = EntryModel { id, content: items[i].1, score: relevance(query, items[i].1.text) };
    let k = choose|k: int| 0 <= k < all.len() && all[k] == e;
    let limit = options.limit_or_default() as int;
    assert(entry_models(found).len() == found.len());
    if k < found.len() {
        assert(entry_models(found)[k] == all[k]);
        assert(found[k]@.id == id);
    } else {
        assert forall|j: int| 0 <= j < found.len() implies (#[trigger] found[j])@.score.at_least(
            e.score,
        ) by {
            assert(entry_models(found)[j] == all[j]);
            assert(all[j].score.at_least(all[k].score));
        }
    }
}

/// The query without characters finds every content of the user that passes the filters on
/// source types and metadata, each with relevance 1, where the limit and the least relevance
/// asked for allow it.
pub proof fn empty_query_finds_everything(
    service: InMemoryMemoryService,
    auth: (Seq<char>, Seq<char>),
    options: SearchOptions,
    found: Seq<MemoryEntry>,
    id: Seq<char>,
)
    requires
        keywords(Seq::empty()).len() <= usize::MAX,
        service.found_by(auth, Seq::empty(), options, found),
        found.len() < options.limit_or_default(),
        options.min_score is None,
        service.memory().contains_key(place(auth, id)),
        options.admits_type(service.memory()[place(auth, id)].source.source_type()),
        options.admits_metadata(service.memory()[place(auth, id)].metadata),
    ensures
        exists|k: int|
            0 <= k < found.len() && (#[trigger] found[k])@ == (EntryModel {
                id,
                content: service.memory()[place(auth, id)],
                score: Score { matched: 1, total: 1 },
            }),
{
    nothing_better_is_left_out(service, auth, Seq::empty(), options, found, id);
    let k = choose|k: int| 0 <= k < found.len() && (#[trigger] found[k])@.id == id;
    let items = choose|items: Seq<(Seq<char>, ContentModel)>| #[trigger]
        lists(items, service.memory(), auth) && entry_models(found) == ranked(
            items,
            Seq::empty(),
            options,
        );
    lemma_arranged(items, Seq::empty(), options);
    let all = arranged(items, Seq::empty(), options);
    assert(entry_models(found)[k] == all[k]);
    let e = all[k];
    let i = choose|i: int| 0 <= i < items.len() && items[i] == (e.id, e.content);
    assert(items[i].0 == id);
    assert(found[k]@ == e);
}

} // verus!
