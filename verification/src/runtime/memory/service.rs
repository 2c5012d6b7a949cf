//! The interface of a memory store.

use crate::errors::AgentError;
use crate::runtime::context::AuthContext;
use crate::runtime::memory::types::{
    ContentModel, EntryModel, MemoryContent, MemoryEntry, SearchOptions,
};
use crate::text::texts;
use vstd::prelude::*;

verus! {

/// Everything in memory: content by application, user and identifier.
pub type Memory = Map<(Seq<char>, Seq<char>, Seq<char>), ContentModel>;

/// Where the content with identifier `id` of one user stands in memory.
pub open spec fn place(auth: (Seq<char>, Seq<char>), id: Seq<char>) -> (
    Seq<char>,
    Seq<char>,
    Seq<char>,
) {
    (auth.0, auth.1, id)
}

/// The memory of one user: content by identifier.
pub open spec fn memory_of(m: Memory, auth: (Seq<char>, Seq<char>)) -> Map<Seq<char>, ContentModel> {
    Map::new(|id: Seq<char>| m.contains_key(place(auth, id)), |id: Seq<char>| m[place(auth, id)])
}

/// The memory of every user but one is as it was.
pub open spec fn others_kept(before: Memory, after: Memory, auth: (Seq<char>, Seq<char>)) -> bool {
    forall|o: (Seq<char>, Seq<char>)|
        o != auth ==> #[trigger] memory_of(after, o) == memory_of(before, o)
}

/// The models of a row of contents.
pub open spec fn content_models(v: Seq<MemoryContent>) -> Seq<ContentModel> {
    Seq::new(v.len(), |i: int| v[i]@)
}

/// The models of a row of entries.
pub open spec fn entry_models(v: Seq<MemoryEntry>) -> Seq<EntryModel> {
    Seq::new(v.len(), |i: int| v[i]@)
}

/// Memory after contents were added one after the other, each under its identifier.
pub open spec fn after_adding(
    m: Memory,
    auth: (Seq<char>, Seq<char>),
    ids: Seq<Seq<char>>,
    contents: Seq<ContentModel>,
) -> Memory
    decreases contents.len(),
{
    if contents.len() == 0 || ids.len() != contents.len() {
        m
    } else {
        after_adding(m, auth, ids.drop_last(), contents.drop_last()).insert(
            place(auth, ids.last()),
            contents.last(),
        )
    }
}

/// Memory after the contents with these identifiers were deleted.
pub open spec fn after_removing(m: Memory, auth: (Seq<char>, Seq<char>), ids: Seq<Seq<char>>) -> Memory
    decreases ids.len(),
{
    if ids.len() == 0 {
        m
    } else {
        after_removing(m, auth, ids.drop_last()).remove(place(auth, ids.last()))
    }
}

/// How many contents go when those with these identifiers are deleted one after the other.
pub open spec fn removed_count(m: Memory, auth: (Seq<char>, Seq<char>), ids: Seq<Seq<char>>) -> nat
    decreases ids.len(),
{
    if ids.len() == 0 {
        0
    } else {
        let before = removed_count(m, auth, ids.drop_last());
        if after_removing(m, auth, ids.drop_last()).contains_key(place(auth, ids.last())) {
            before + 1
        } else {
            before
        }
    }
}

/// `found` is an answer to a search with these options: at most as many entries as asked for,
/// each in memory for this user and admitted by the options, none twice, the most relevant
/// first.
pub open spec fn answers(
    m: Memory,
    auth: (Seq<char>, Seq<char>),
    options: SearchOptions,
    found: Seq<EntryModel>,
) -> bool {
    &&& found.len() <= options.limit_or_default()
    &&& forall|i: int|
        0 <= i < found.len() ==> {
            let e = #[trigger] found[i];
            &&& m.contains_key(place(auth, e.id))
            &&& m[place(auth, e.id)] == e.content
            &&& options.admits_type(e.content.source.source_type())
            &&& options.admits_metadata(e.content.metadata)
            &&& options.admits_score(e.score)
        }
    &&& forall|i: int, j: int|
        0 <= i < j < found.len() ==> (#[trigger] found[i]).id != (#[trigger] found[j]).id
            && found[i].score.at_least(found[j].score)
}

/// A store for long-term memory.
///
/// Whatever is done for one user leaves the memory of every other user as it was, also where it
/// fails.
pub trait MemoryService {
    /// What the store holds: an implementation says what that is.
    open spec fn memory(&self) -> Memory {
        arbitrary()
    }

    /// Adds content, in place of content with the same identifier, and returns the identifier.
    fn add(&mut self, auth_ctx: &AuthContext, content: MemoryContent) -> (r: Result<
        String,
        AgentError,
    >)
        ensures
            match r {
                Ok(id) => content@.source.names(id@) && final(self).memory() == old(self).memory().insert(place(auth_ctx@, id@), content@),
                Err(_) => others_kept(old(self).memory(), final(self).memory(), auth_ctx@),
            },
    ;

    /// Adds contents one after the other and returns their identifiers in that order.
    fn add_batch(&mut self, auth_ctx: &AuthContext, contents: Vec<MemoryContent>) -> (r: Result<
        Vec<String>,
        AgentError,
    >)
        ensures
            match r {
                Ok(ids) => {
                    &&& ids@.len() == contents@.len()
                    &&& forall|i: int|
                        0 <= i < ids@.len() ==> contents@[i]@.source.names(#[trigger] ids@[i]@)
                    &&& final(self).memory() == after_adding(
                        old(self).memory(),
                        auth_ctx@,
                        texts(ids@),
                        content_models(contents@),
                    )
                },
                Err(_) => others_kept(old(self).memory(), final(self).memory(), auth_ctx@),
            },
    ;

    /// Searches for relevant content, the most relevant first.
    fn search(&self, auth_ctx: &AuthContext, query: &str, options: SearchOptions) -> (r: Result<
        Vec<MemoryEntry>,
        AgentError,
    >)
        ensures
            match r {
                Ok(found) => answers(self.memory(), auth_ctx@, options, entry_models(found@)),
                Err(_) => true,
            },
    ;

    /// Deletes the content with identifier `id`, and tells whether there was any.
    fn delete(&mut self, auth_ctx: &AuthContext, id: &str) -> (r: Result<bool, AgentError>)
        ensures
            match r {
                Ok(existed) => existed == old(self).memory().contains_key(place(auth_ctx@, id@))
                    && final(self).memory() == old(self).memory().remove(place(auth_ctx@, id@)),
                Err(_) => others_kept(old(self).memory(), final(self).memory(), auth_ctx@),
            },
    ;

    /// Deletes the contents with these identifiers, and tells how many there were.
    fn delete_batch(&mut self, auth_ctx: &AuthContext, ids: &Vec<String>) -> (r: Result<
        usize,
        AgentError,
    >)
        ensures
            match r {
                Ok(n) => n == removed_count(old(self).memory(), auth_ctx@, texts(ids@))
                    && final(self).memory() == after_removing(
                    old(self).memory(),
                    auth_ctx@,
                    texts(ids@),
                ),
                Err(_) => others_kept(old(self).memory(), final(self).memory(), auth_ctx@),
            },
    ;
}

/// `r` is what the store `service` returned when this content was added.
pub open spec fn adds<S: MemoryService + ?Sized>(
    service: &mut S,
    auth: (Seq<char>, Seq<char>),
    content: ContentModel,
    r: Result<String, AgentError>,
) -> bool {
    exists|a: &AuthContext, c: MemoryContent|
        a@ == auth && c@ == content && #[trigger] call_ensures(S::add, (service, a, c), r)
}

/// `r` is what the store `service` returned when these contents were added.
pub open spec fn adds_batch<S: MemoryService + ?Sized>(
    service: &mut S,
    auth: (Seq<char>, Seq<char>),
    contents: Seq<ContentModel>,
    r: Result<Vec<String>, AgentError>,
) -> bool {
    exists|a: &AuthContext, c: Vec<MemoryContent>|
        a@ == auth && content_models(c@) == contents && #[trigger] call_ensures(
            S::add_batch,
            (service, a, c),
            r,
        )
}

/// `r` is what the store `service` returned when the content with identifier `id` was deleted.
pub open spec fn deletes<S: MemoryService + ?Sized>(
    service: &mut S,
    auth: (Seq<char>, Seq<char>),
    id: Seq<char>,
    r: Result<bool, AgentError>,
) -> bool {
    exists|a: &AuthContext, i: &str|
        a@ == auth && i@ == id && #[trigger] call_ensures(S::delete, (service, a, i), r)
}

// ---------------------------------------------------------------------------
// Laws
// ---------------------------------------------------------------------------

/// Adding for one user leaves the memory of every other user as it was.
pub proof fn adding_keeps_users_apart(
    m: Memory,
    auth: (Seq<char>, Seq<char>),
    other: (Seq<char>, Seq<char>),
    ids: Seq<Seq<char>>,
    contents: Seq<ContentModel>,
)
    requires
        auth != other,
    ensures
        memory_of(after_adding(m, auth, ids, contents), other) == memory_of(m, other),
    decreases contents.len(),
{
    if contents.len() > 0 && ids.len() == contents.len() {
        adding_keeps_users_apart(m, auth, other, ids.drop_last(), contents.drop_last());
        let before = after_adding(m, auth, ids.drop_last(), contents.drop_last());
        let after = after_adding(m, auth, ids, contents);
        assert forall|id: Seq<char>| after.contains_key(place(other, id)) == before.contains_key(
            place(other, id),
        ) && after[place(other, id)] == before[place(other, id)] by {
            assert(place(other, id) != place(auth, ids.last()));
        }
        assert(memory_of(after, other) =~= memory_of(before, other));
    }
}

/// Deleting for one user leaves the memory of every other user as it was.
pub proof fn deleting_keeps_users_apart(
    m: Memory,
    auth: (Seq<char>, Seq<char>),
    other: (Seq<char>, Seq<char>),
    ids: Seq<Seq<char>>,
)
    requires
        auth != other,
    ensures
        memory_of(after_removing(m, auth, ids), other) == memory_of(m, other),
    decreases ids.len(),
{
    if ids.len() > 0 {
        deleting_keeps_users_apart(m, auth, other, ids.drop_last());
        let before = after_removing(m, auth, ids.drop_last());
        let after = after_removing(m, auth, ids);
        assert forall|id: Seq<char>| after.contains_key(place(other, id)) == before.contains_key(
            place(other, id),
        ) && after[place(other, id)] == before[place(other, id)] by {
            assert(place(other, id) != place(auth, ids.last()));
        }
        assert(memory_of(after, other) =~= memory_of(before, other));
    }
}

/// A search finds only what is in the memory of the user it is for.
pub proof fn search_stays_with_the_user(
    m: Memory,
    auth: (Seq<char>, Seq<char>),
    options: SearchOptions,
    found: Seq<EntryModel>,
    i: int,
)
    requires
        answers(m, auth, options, found),
        0 <= i < found.len(),
    ensures
        memory_of(m, auth).contains_key(found[i].id),
        memory_of(m, auth)[found[i].id] == found[i].content,
{
}

/// Adding twice under one identifier leaves what was added last.
pub proof fn adding_again_replaces(
    m: Memory,
    auth: (Seq<char>, Seq<char>),
    id: Seq<char>,
    first: ContentModel,
    second: ContentModel,
)
    ensures
        after_adding(m, auth, seq![id, id], seq![first, second]) == after_adding(
            m,
            auth,
            seq![id],
            seq![second],
        ),
{
    reveal_with_fuel(after_adding, 3);
    assert(seq![id, id].drop_last() =~= seq![id]);
    assert(seq![first, second].drop_last() =~= seq![first]);
    assert(seq![id].drop_last() =~= Seq::<Seq<char>>::empty());
    assert(seq![first].drop_last() =~= Seq::<ContentModel>::empty());
    assert(seq![second].drop_last() =~= Seq::<ContentModel>::empty());
    assert(after_adding(m, auth, seq![id, id], seq![first, second]) =~= after_adding(
        m,
        auth,
        seq![id],
        seq![second],
    ));
}

/// What was deleted is gone.
pub proof fn deleted_is_gone(m: Memory, auth: (Seq<char>, Seq<char>), ids: Seq<Seq<char>>, i: int)
    requires
        0 <= i < ids.len(),
    ensures
        !after_removing(m, auth, ids).contains_key(place(auth, ids[i])),
    decreases ids.len(),
{
    if i < ids.len() - 1 {
        deleted_is_gone(m, auth, ids.drop_last(), i);
    }
}

/// Adding keeps the memory of all other users.
pub proof fn lemma_adding_keeps_others(
    m: Memory,
    auth: (Seq<char>, Seq<char>),
    ids: Seq<Seq<char>>,
    contents: Seq<ContentModel>,
)
    ensures
        others_kept(m, after_adding(m, auth, ids, contents), auth),
{
    let after = after_adding(m, auth, ids, contents);
    assert forall|o: (Seq<char>, Seq<char>)| o != auth implies #[trigger] memory_of(after, o)
        == memory_of(m, o) by {
        adding_keeps_users_apart(m, auth, o, ids, contents);
    }
}

/// Adding one content keeps the memory of all other users.
pub proof fn lemma_insert_keeps_others(
    m: Memory,
    auth: (Seq<char>, Seq<char>),
    id: Seq<char>,
    content: ContentModel,
)
    ensures
        others_kept(m, m.insert(place(auth, id), content), auth),
{
    let after = m.insert(place(auth, id), content);
    assert forall|o: (Seq<char>, Seq<char>)| o != auth implies #[trigger] memory_of(after, o)
        == memory_of(m, o) by {
        assert forall|i: Seq<char>| place(o, i) != place(auth, id) by {}
        assert(memory_of(after, o) =~= memory_of(m, o));
    }
}

} // verus!
