//! Laws of what is kept in memory and of what is found there.

use crate::errors::AgentError;
use crate::json::Json;
use crate::runtime::context::AuthContext;
use crate::runtime::memory::backends::ranking::{
    admitted, all_different, arranged, keywords, put_in_order, ranked, relevance,
};
use crate::runtime::memory::chunks::chunks;
use crate::runtime::memory::extensions::{
    chunk_count, has_chunk, size_or_default, sweep_fails, sweep_stop, without_chunks, ChunkSweep,
    CompletedConversation, Document,
};
use crate::runtime::memory::facades::{limited, searched, user_fact, OwnedHistory, OwnedKnowledge};
use crate::runtime::memory::service::{
    adds, adds_batch, after_adding, after_removing, answers, content_models, deletes, memory_of,
    others_kept, removed_count, Memory, MemoryService,
};
use crate::runtime::memory::types::{
    chunk_id, escaped, escaped_char, history_types, is_uuid, knowledge_types, ContentModel,
    EntryModel, MemoryContent, MemoryEntry, Score, SearchOptions, SourceCategory, SourceModel,
    SourceType,
};
use crate::text::{decimal, letter_or_digit, lower_case, split_where, without_empty};
use vstd::prelude::*;

verus! {

// ---------------------------------------------------------------------------
// Sources and identifiers
// ---------------------------------------------------------------------------

/// What is said in conversations and what is known of the user is history; documents and what
/// comes from elsewhere is knowledge.
pub proof fn sources_have_their_category(s: SourceModel)
    ensures
        s is PastConversation ==> s.source_type() == SourceType::PastConversation && s.category()
            == SourceCategory::History,
        s is UserFact ==> s.source_type() == SourceType::UserFact && s.category()
            == SourceCategory::History,
        s is Document ==> s.source_type() == SourceType::Document && s.category()
            == SourceCategory::Knowledge,
        s is External ==> s.source_type() == SourceType::External && s.category()
            == SourceCategory::Knowledge,
{
}

/// History searches look at conversations and facts, knowledge searches at documents and what
/// comes from elsewhere, and neither at anything else.
pub proof fn searches_look_at_their_types(t: SourceType)
    ensures
        history_types().contains(t) <==> t == SourceType::PastConversation || t
            == SourceType::UserFact,
        knowledge_types().contains(t) <==> t == SourceType::Document || t == SourceType::External,
{
    let h = history_types();
    let k = knowledge_types();
    assert(h[0] == SourceType::PastConversation && h[1] == SourceType::UserFact);
    assert(k[0] == SourceType::Document && k[1] == SourceType::External);
}

/// In a part of an identifier a colon is written `%3A` and a percent sign `%25`; everything
/// else is written as it is.
pub proof fn parts_of_identifiers_are_escaped(a: Seq<char>, b: Seq<char>, c: char)
    ensures
        escaped(Seq::empty()) == Seq::<char>::empty(),
        escaped(seq![':']) == seq!['%', '3', 'A'],
        escaped(seq!['%']) == seq!['%', '2', '5'],
        c != ':' && c != '%' ==> escaped(seq![c]) == seq![c],
        escaped(a + b) == escaped(a) + escaped(b),
    decreases a.len(),
{
    reveal_with_fuel(escaped, 2);
    assert(seq![':'].skip(1) =~= Seq::<char>::empty());
    assert(seq!['%'].skip(1) =~= Seq::<char>::empty());
    assert(seq![c].skip(1) =~= Seq::<char>::empty());
    assert(escaped(seq![':']) =~= seq!['%', '3', 'A']);
    assert(escaped(seq!['%']) =~= seq!['%', '2', '5']);
    assert(c != ':' && c != '%' ==> escaped(seq![c]) =~= seq![c]);
    if a.len() == 0 {
        assert(a + b =~= b);
        assert(escaped(a) + escaped(b) =~= escaped(b));
    } else {
        parts_of_identifiers_are_escaped(a.skip(1), b, c);
        assert((a + b).skip(1) =~= a.skip(1) + b);
        assert((a + b)[0] == a[0]);
        assert(escaped(a + b) =~= escaped_char(a[0]) + (escaped(a.skip(1)) + escaped(b)));
        assert(escaped(a + b) =~= escaped(a) + escaped(b));
    }
}

/// Content is named by where it comes from: a message by its conversation and its own
/// identifier, a chunk by its document and its number, what comes from elsewhere by the names
/// it has there. A fact, and what has no name elsewhere, is named by a fresh UUID.
pub proof fn identifiers_tell_the_source(s: SourceModel, id: Seq<char>, uuid: Seq<char>)
    ensures
        s matches SourceModel::PastConversation { context_id, message_id, .. } ==> (s.names(id)
            <==> id == "conv:"@ + escaped(context_id) + ":"@ + message_id),
        s matches SourceModel::Document { document_id, chunk_index, .. } ==> (s.names(id) <==> id
            == "doc:"@ + document_id + ":chunk-"@ + decimal(chunk_index)),
        s matches SourceModel::External { source_name, source_id: Some(n) } ==> (s.names(id)
            <==> id == "ext:"@ + escaped(source_name) + ":"@ + n),
        s matches SourceModel::External { source_name, source_id: None } ==> is_uuid(uuid)
            ==> s.names("ext:"@ + escaped(source_name) + ":"@ + uuid),
        s matches SourceModel::UserFact { category: Some(category) } ==> is_uuid(uuid)
            ==> s.names("fact:"@ + category + ":"@ + uuid),
        s matches SourceModel::UserFact { category: None } ==> is_uuid(uuid) ==> s.names(
            "fact:"@ + uuid,
        ),
{
    if s.needs_uuid() && is_uuid(uuid) {
        assert(s.names(s.id(uuid)));
    }
}

/// The name of a fact, and that of what has none elsewhere, holds a UUID and nothing that is
/// not said.
pub proof fn fresh_names_hold_a_uuid(s: SourceModel, id: Seq<char>)
    requires
        s.names(id),
    ensures
        s matches SourceModel::UserFact { category: Some(category) } ==> exists|uuid: Seq<char>| #[trigger]
            is_uuid(uuid) && id == "fact:"@ + category + ":"@ + uuid,
        s matches SourceModel::UserFact { category: None } ==> exists|uuid: Seq<char>| #[trigger]
            is_uuid(uuid) && id == "fact:"@ + uuid,
        s matches SourceModel::External { source_name, source_id: None } ==> exists|
            uuid: Seq<char>,
        | #[trigger] is_uuid(uuid) && id == "ext:"@ + escaped(source_name) + ":"@ + uuid,
{
    if s.needs_uuid() {
        let uuid = choose|uuid: Seq<char>| is_uuid(uuid) && id == #[trigger] s.id(uuid);
        assert(is_uuid(uuid));
    }
}

/// A fact is kept as it was told, with its category and nothing more.
pub proof fn facts_are_kept_as_told(text: Seq<char>, category: Option<Seq<char>>)
    ensures
        user_fact(text, category).text == text,
        user_fact(text, category).source == (SourceModel::UserFact { category }),
        user_fact(text, category).metadata == Map::<Seq<char>, Json>::empty(),
{
}

// ---------------------------------------------------------------------------
// What a search lets through
// ---------------------------------------------------------------------------

/// At most ten entries are found unless another number is asked for.
pub proof fn ten_entries_are_found(options: SearchOptions)
    ensures
        options.limit is None ==> options.limit_or_default() == 10,
        options.limit matches Some(n) ==> options.limit_or_default() == n,
{
}

/// A search for some types lets exactly these through, and one for none in particular all.
pub proof fn types_asked_for_are_let_through(options: SearchOptions, t: SourceType)
    ensures
        options.source_types is None ==> options.admits_type(t),
        options.source_types matches Some(types) ==> (options.admits_type(t) <==> exists|i: int|
            0 <= i < types@.len() && #[trigger] types@[i] == t),
{
}

/// A search by metadata lets through what has each entry that is asked for, with that value;
/// what lacks one, or has another value there, is left out.
pub proof fn metadata_asked_for_is_let_through(
    options: SearchOptions,
    metadata: Map<Seq<char>, Json>,
    key: Seq<char>,
)
    ensures
        options.metadata_filter is None ==> options.admits_metadata(metadata),
        options.metadata_filter matches Some(filter) ==> options.admits_metadata(metadata)
            && filter@.contains_key(key) ==> metadata.contains_key(key) && metadata[key]
            == filter@[key],
        options.metadata_filter matches Some(filter) ==> options.admits_metadata(filter@),
        options.metadata_filter matches Some(filter) ==> filter@.submap_of(metadata)
            ==> options.admits_metadata(metadata),
        options.metadata_filter matches Some(filter) ==> filter@ == Map::<Seq<char>, Json>::empty()
            ==> options.admits_metadata(metadata),
{
}

/// A score reaches another where it is no smaller a share.
pub proof fn scores_compare_as_shares(a: Score, b: Score)
    requires
        a.total > 0,
        b.total > 0,
    ensures
        a.total == b.total ==> (a.at_least(b) <==> a.matched >= b.matched),
        a.at_least(a),
        a.at_least(b) || b.at_least(a),
        a.matched == a.total ==> a.at_least(Score { matched: 1, total: 1 }),
        a.at_least(Score { matched: 0, total: 1 }),
        a.matched < a.total ==> !a.at_least(Score { matched: 1, total: 1 }),
        a.matched > 0 ==> !(Score { matched: 0, total: 1 }).at_least(a),
        a.matched * b.total == b.matched * a.total ==> a.at_least(b) && b.at_least(a),
        a.matched * b.total < b.matched * a.total ==> !a.at_least(b),
{
    if a.total == b.total {
        let (x, y, t) = (a.matched as int, b.matched as int, a.total as int);
        assert(x * t >= y * t <==> x >= y) by (nonlinear_arith)
            requires
                t > 0,
        ;
    }
}

/// Only what reaches the least score that is asked for is let through.
pub proof fn scores_asked_for_are_let_through(options: SearchOptions, score: Score)
    ensures
        options.min_score is None ==> options.admits_score(score),
        options.min_score matches Some(least) ==> (options.admits_score(score)
            <==> score.matched * least.total >= least.matched * score.total),
{
}

/// What is found has the type, the metadata and the relevance that are asked for.
pub proof fn only_what_is_asked_for_is_found(
    options: SearchOptions,
    query: Seq<char>,
    content: ContentModel,
)
    ensures
        admitted(options, query, content) <==> {
            &&& options.admits_type(content.source.source_type())
            &&& options.admits_metadata(content.metadata)
            &&& options.admits_score(relevance(query, content.text))
        },
{
}

/// A search with a limit asks for that many entries of these types, whatever their relevance
/// and metadata.
pub proof fn limited_searches_ask_for_types(
    types: Seq<SourceType>,
    limit: usize,
    options: SearchOptions,
    t: SourceType,
    score: Score,
    metadata: Map<Seq<char>, Json>,
)
    requires
        limited(types, limit, options),
    ensures
        options.limit_or_default() == limit,
        options.admits_type(t) <==> types.contains(t),
        options.admits_score(score),
        options.admits_metadata(metadata),
{
}

// ---------------------------------------------------------------------------
// Relevance
// ---------------------------------------------------------------------------

/// The words of a text are its runs of letters and digits, in lower case.
pub proof fn words_are_runs_of_letters_and_digits(a: Seq<char>, c: char, w: Seq<char>)
    requires
        !letter_or_digit(c),
        forall|i: int| 0 <= i < w.len() ==> letter_or_digit(#[trigger] w[i]),
    ensures
        keywords(Seq::empty()) == Set::<Seq<char>>::empty(),
        w.len() > 0 ==> keywords(w) == set![lower_case(w)],
        w.len() > 0 ==> keywords(a.push(c) + w) == keywords(a).insert(lower_case(w)),
        w.len() == 0 ==> keywords(a.push(c) + w) == keywords(a),
{
    let sep = |x: char| !letter_or_digit(x);
    let low = |x: Seq<char>| lower_case(x);
    crate::text::lemma_pieces_go_on(a, c, w, sep);
    let p = split_where(a, sep);
    assert(p.push(w).drop_last() =~= p);
    let none = seq![Seq::<char>::empty()];
    assert(split_where(Seq::<char>::empty(), sep) == none);
    assert(none.drop_last() =~= Seq::<Seq<char>>::empty());
    reveal_with_fuel(without_empty, 2);
    assert(without_empty(none) =~= Seq::<Seq<char>>::empty());
    assert(Seq::<Seq<char>>::empty().map_values(low) =~= Seq::<Seq<char>>::empty());
    assert(keywords(Seq::empty()) =~= Set::<Seq<char>>::empty());
    if w.len() > 0 {
        assert(seq![w].drop_last() =~= Seq::<Seq<char>>::empty());
        assert(without_empty(seq![w]) =~= seq![w]);
        assert(seq![w].map_values(low) =~= seq![lower_case(w)]);
        assert(keywords(w) =~= set![lower_case(w)]) by {
            let one = seq![lower_case(w)];
            assert(one[0] == lower_case(w));
        }
        let q = without_empty(p);
        let r = q.map_values(low);
        assert(q.push(w).map_values(low) =~= r.push(lower_case(w)));
        crate::runtime::memory::backends::ranking::lemma_push_to_set(r, lower_case(w));
    }
}

/// The relevance of a text is how many of the words of the query it has, out of all of them. A
/// text without words has none, and the query without characters finds everything.
pub proof fn relevance_counts_the_words_of_the_query(query: Seq<char>, text: Seq<char>)
    requires
        keywords(query).len() <= usize::MAX,
    ensures
        query.len() == 0 ==> relevance(query, text) == (Score { matched: 1, total: 1 }),
        query.len() > 0 && keywords(query).len() > 0 && keywords(text).len() > 0 ==> {
            &&& relevance(query, text).total == keywords(query).len()
            &&& relevance(query, text).matched == keywords(query).filter(
                |w: Seq<char>| keywords(text).contains(w),
            ).len()
        },
        query.len() > 0 && keywords(query).len() == 0 ==> relevance(query, text).matched == 0,
        query.len() > 0 && keywords(text).len() == 0 ==> relevance(query, text).matched == 0,
{
    let q = keywords(query);
    let t = keywords(text);
    assert(q.filter(|w: Seq<char>| t.contains(w)) =~= q.intersect(t));
    without_empty(split_where(query, |c: char| !letter_or_digit(c))).map_values(
        |w: Seq<char>| lower_case(w),
    ).lemma_cardinality_of_set();
    vstd::set_lib::lemma_len_intersect(q, t);
}

/// A text with more of the words is no less relevant.
pub proof fn more_words_are_no_less_relevant(query: Seq<char>, fewer: Seq<char>, more: Seq<char>)
    requires
        keywords(query).len() <= usize::MAX,
        keywords(fewer).subset_of(keywords(more)),
    ensures
        relevance(query, more).at_least(relevance(query, fewer)),
{
    let q = keywords(query);
    let f = keywords(fewer);
    let m = keywords(more);
    without_empty(split_where(query, |c: char| !letter_or_digit(c))).map_values(
        |w: Seq<char>| lower_case(w),
    ).lemma_cardinality_of_set();
    without_empty(split_where(more, |c: char| !letter_or_digit(c))).map_values(
        |w: Seq<char>| lower_case(w),
    ).lemma_cardinality_of_set();
    vstd::set_lib::lemma_len_intersect(q, f);
    vstd::set_lib::lemma_len_intersect(q, m);
    vstd::set_lib::lemma_len_subset(f, m);
    assert(q.intersect(f).subset_of(q.intersect(m)));
    vstd::set_lib::lemma_len_subset(q.intersect(f), q.intersect(m));
    let a = relevance(query, more);
    let b = relevance(query, fewer);
    if query.len() > 0 && f.len() > 0 && q.len() > 0 {
        let (x, y, t) = (a.matched as int, b.matched as int, a.total as int);
        assert(x * t >= y * t) by (nonlinear_arith)
            requires
                x >= y,
                t > 0,
        ;
    } else {
        assert(b.matched == 0 || a == b);
    }
}

proof fn lemma_put_keeps_equals(s: Seq<EntryModel>, e: EntryModel, k: Score)
    ensures
        put_in_order(s, e).filter(|x: EntryModel| x.score == k) == if e.score == k {
            s.filter(|x: EntryModel| x.score == k).push(e)
        } else {
            s.filter(|x: EntryModel| x.score == k)
        },
    decreases s.len(),
{
    reveal(Seq::filter);
    if s.len() == 0 || s.last().score.at_least(e.score) {
        assert(s.push(e).drop_last() =~= s);
    } else {
        let t = s.drop_last();
        lemma_put_keeps_equals(t, e, k);
        assert(put_in_order(t, e).push(s.last()).drop_last() =~= put_in_order(t, e));
    }
}

/// Entries with the same score keep the order in which they were looked at; what is not asked
/// for changes nothing.
pub proof fn equal_scores_keep_their_order(
    items: Seq<(Seq<char>, ContentModel)>,
    item: (Seq<char>, ContentModel),
    query: Seq<char>,
    options: SearchOptions,
    k: Score,
)
    ensures
        arranged(Seq::empty(), query, options) == Seq::<EntryModel>::empty(),
        !admitted(options, query, item.1) ==> arranged(items.push(item), query, options)
            == arranged(items, query, options),
        admitted(options, query, item.1) && relevance(query, item.1.text) == k ==> arranged(
            items.push(item),
            query,
            options,
        ).filter(|x: EntryModel| x.score == k) == arranged(items, query, options).filter(
            |x: EntryModel| x.score == k,
        ).push(EntryModel { id: item.0, content: item.1, score: k }),
        admitted(options, query, item.1) && relevance(query, item.1.text) != k ==> arranged(
            items.push(item),
            query,
            options,
        ).filter(|x: EntryModel| x.score == k) == arranged(items, query, options).filter(
            |x: EntryModel| x.score == k,
        ),
{
    assert(items.push(item).drop_last() =~= items);
    lemma_put_keeps_equals(
        arranged(items, query, options),
        EntryModel { id: item.0, content: item.1, score: relevance(query, item.1.text) },
        k,
    );
}

/// Of what is in order the first entries are the answer, as many as asked for.
pub proof fn the_first_are_the_answer(
    items: Seq<(Seq<char>, ContentModel)>,
    query: Seq<char>,
    options: SearchOptions,
    i: int,
)
    ensures
        ({
            let all = arranged(items, query, options);
            let found = ranked(items, query, options);
            &&& 0 <= i < found.len() ==> found[i] == all[i]
            &&& options.limit is None && all.len() >= 10 ==> found.len() == 10
            &&& options.limit is None && all.len() < 10 ==> found.len() == all.len()
            &&& options.limit matches Some(n) ==> all.len() >= n ==> found.len() == n
            &&& options.limit matches Some(n) ==> all.len() < n ==> found.len() == all.len()
        }),
{
}

/// What is found is in the user's memory under its identifier, is no more than asked for, comes
/// with the most relevant first and never twice.
pub proof fn answers_are_of_the_user(
    m: Memory,
    user: (Seq<char>, Seq<char>),
    options: SearchOptions,
    found: Seq<EntryModel>,
    i: int,
    j: int,
)
    requires
        answers(m, user, options, found),
        0 <= i < found.len(),
        i < j < found.len(),
    ensures
        m.contains_pair((user.0, user.1, found[i].id), found[i].content),
        options.admits_type(found[i].content.source.source_type()),
        options.admits_metadata(found[i].content.metadata),
        options.admits_score(found[i].score),
        found[i].id != found[j].id,
        found[i].score.at_least(found[j].score),
        options.limit matches Some(n) ==> found.len() <= n,
        options.limit is None ==> found.len() <= 10,
{
}

// ---------------------------------------------------------------------------
// Adding and deleting
// ---------------------------------------------------------------------------

/// The memory of a user holds what is kept for that user, under its identifier.
pub proof fn users_have_their_own_memory(
    m: Memory,
    app: Seq<char>,
    user: Seq<char>,
    id: Seq<char>,
)
    ensures
        memory_of(m, (app, user)).contains_key(id) <==> m.contains_key((app, user, id)),
        m.contains_key((app, user, id)) ==> memory_of(m, (app, user))[id] == m[(app, user, id)],
{
}

/// Contents are added one after the other, each under its identifier in the user's memory.
pub proof fn contents_are_added_one_by_one(
    m: Memory,
    app: Seq<char>,
    user: Seq<char>,
    ids: Seq<Seq<char>>,
    contents: Seq<ContentModel>,
    id: Seq<char>,
    content: ContentModel,
)
    requires
        ids.len() == contents.len(),
    ensures
        after_adding(m, (app, user), Seq::empty(), Seq::empty()) == m,
        after_adding(m, (app, user), ids.push(id), contents.push(content)) == after_adding(
            m,
            (app, user),
            ids,
            contents,
        ).insert((app, user, id), content),
{
    assert(ids.push(id).drop_last() =~= ids);
    assert(contents.push(content).drop_last() =~= contents);
}

/// What is deleted goes and nothing else does, and each content that goes counts once.
pub proof fn deleted_contents_go(
    m: Memory,
    app: Seq<char>,
    user: Seq<char>,
    ids: Seq<Seq<char>>,
    id: Seq<char>,
    key: (Seq<char>, Seq<char>, Seq<char>),
)
    ensures
        after_removing(m, (app, user), Seq::empty()) == m,
        removed_count(m, (app, user), Seq::empty()) == 0,
        !after_removing(m, (app, user), ids.push(id)).contains_key((app, user, id)),
        key != (app, user, id) ==> after_removing(m, (app, user), ids.push(id)).contains_key(key)
            == after_removing(m, (app, user), ids).contains_key(key),
        key != (app, user, id) && m.contains_key(key) && after_removing(
            m,
            (app, user),
            ids.push(id),
        ).contains_key(key) ==> after_removing(m, (app, user), ids.push(id))[key] == after_removing(
            m,
            (app, user),
            ids,
        )[key],
        after_removing(m, (app, user), ids).contains_key((app, user, id)) ==> removed_count(
            m,
            (app, user),
            ids.push(id),
        ) == removed_count(m, (app, user), ids) + 1,
        !after_removing(m, (app, user), ids).contains_key((app, user, id)) ==> removed_count(
            m,
            (app, user),
            ids.push(id),
        ) == removed_count(m, (app, user), ids),
{
    assert(ids.push(id).drop_last() =~= ids);
}

// ---------------------------------------------------------------------------
// Conversations and documents
// ---------------------------------------------------------------------------

/// Of a conversation each message is kept, in order: its text, who said it and where, and when
/// where that is known.
pub proof fn every_message_is_kept(conversation: CompletedConversation, i: int)
    requires
        0 <= i < conversation.messages@.len(),
    ensures
        conversation.contents().len() == conversation.messages@.len(),
        ({
            let kept = conversation.contents()[i];
            let message = conversation.messages@[i];
            &&& kept.text == message.text@
            &&& kept.source == (SourceModel::PastConversation {
                context_id: conversation.context_id@,
                message_id: message.message_id@,
                role: message.role@,
            })
            &&& message.timestamp is None ==> kept.metadata == Map::<Seq<char>, Json>::empty()
            &&& message.timestamp matches Some(t) ==> kept.metadata == map![
                "timestamp"@ => Json::Text(t@),
            ]
        }),
{
}

/// Of a document each chunk is kept, in order: its text, the document it is of, its number and
/// that of all chunks, and the metadata of the document.
pub proof fn every_chunk_is_kept(document: Document, size: nat, i: int)
    requires
        0 <= i < chunks(document.content@, size).len(),
    ensures
        document.contents(size).len() == chunks(document.content@, size).len(),
        ({
            let kept = document.contents(size)[i];
            &&& kept.text == chunks(document.content@, size)[i]
            &&& kept.source == (SourceModel::Document {
                document_id: document.id@,
                name: document.name@,
                chunk_index: i as nat,
                total_chunks: chunks(document.content@, size).len(),
            })
            &&& kept.metadata == document.metadata@
        }),
{
}

/// Chunks have a thousand bytes unless another size is asked for.
pub proof fn chunks_have_a_thousand_bytes(size: Option<usize>)
    ensures
        size is None ==> size_or_default(size) == 1000,
        size matches Some(n) ==> size_or_default(size) == n,
{
}

/// Chunks are counted one by one.
pub proof fn chunks_are_counted(
    m: Memory,
    user: (Seq<char>, Seq<char>),
    doc: Seq<char>,
    from: nat,
    to: nat,
)
    requires
        from <= to,
    ensures
        chunk_count(m, user, doc, from, from) == 0,
        m.contains_key((user.0, user.1, chunk_id(doc, to))) ==> chunk_count(
            m,
            user,
            doc,
            from,
            to + 1,
        ) == chunk_count(m, user, doc, from, to) + 1,
        !m.contains_key((user.0, user.1, chunk_id(doc, to))) ==> chunk_count(
            m,
            user,
            doc,
            from,
            to + 1,
        ) == chunk_count(m, user, doc, from, to),
{
}

/// Among ten chunks from `i` on there is one.
pub open spec fn one_of_ten(
    m: Memory,
    user: (Seq<char>, Seq<char>),
    doc: Seq<char>,
    i: nat,
) -> bool {
    exists|k: nat| i <= k < i + 10 && #[trigger] has_chunk(m, user, doc, k)
}

proof fn lemma_sweep(
    m: Memory,
    user: (Seq<char>, Seq<char>),
    doc: Seq<char>,
    i: nat,
    misses: nat,
)
    requires
        misses <= 10,
        misses <= i <= usize::MAX,
        forall|k: nat| i - misses <= k < i ==> !#[trigger] has_chunk(m, user, doc, k),
    ensures
        i <= sweep_stop(m, user, doc, i, misses) <= usize::MAX,
        sweep_stop(m, user, doc, i, misses) < usize::MAX ==> sweep_stop(m, user, doc, i, misses)
            >= i - misses + 10 && forall|k: nat|
            sweep_stop(m, user, doc, i, misses) - 10 <= k < sweep_stop(m, user, doc, i, misses)
                ==> !#[trigger] has_chunk(m, user, doc, k),
        forall|j: nat|
            i - misses <= j && j + 10 < sweep_stop(m, user, doc, i, misses)
                ==> #[trigger] one_of_ten(m, user, doc, j),
    decreases usize::MAX - i,
{
    let stop = sweep_stop(m, user, doc, i, misses);
    if i >= usize::MAX || misses >= 10 {
    } else if has_chunk(m, user, doc, i) {
        lemma_sweep(m, user, doc, i + 1, 0);
        assert forall|j: nat| i - misses <= j && j + 10 < stop implies #[trigger] one_of_ten(
            m,
            user,
            doc,
            j,
        ) by {
            if j <= i {
                assert(j <= i < j + 10 && has_chunk(m, user, doc, i));
            }
        }
    } else {
        lemma_sweep(m, user, doc, i + 1, misses + 1);
    }
}

/// A sweep over the chunks of a document ends behind the first ten in a row that are not there,
/// unless the numbers end before: the last ten it looks at are not there, and among any ten
/// that it goes beyond there is one.
pub proof fn sweeps_end_behind_ten_misses(
    m: Memory,
    user: (Seq<char>, Seq<char>),
    doc: Seq<char>,
    start: usize,
    j: nat,
    k: nat,
)
    ensures
        ({
            let stop = sweep_stop(m, user, doc, start as nat, 0);
            &&& start <= stop <= usize::MAX
            &&& stop < usize::MAX ==> start + 10 <= stop
            &&& stop < usize::MAX && stop - 10 <= k < stop ==> !has_chunk(m, user, doc, k)
            &&& start <= j && j + 10 < stop ==> exists|l: nat|
                j <= l < j + 10 && #[trigger] has_chunk(m, user, doc, l)
        }),
{
    lemma_sweep(m, user, doc, start as nat, 0);
    let stop = sweep_stop(m, user, doc, start as nat, 0);
    if start <= j && j + 10 < stop {
        assert(one_of_ten(m, user, doc, j));
    }
}

// ---------------------------------------------------------------------------
// What is asked of a store
// ---------------------------------------------------------------------------

/// What is done for one user leaves everything of every other user as it was, and nothing else
/// is meant by that.
pub proof fn others_keep_everything(
    before: Memory,
    after: Memory,
    user: (Seq<char>, Seq<char>),
    app: Seq<char>,
    name: Seq<char>,
    id: Seq<char>,
)
    ensures
        others_kept(before, after, user) && (app, name) != user ==> after.contains_key(
            (app, name, id),
        ) == before.contains_key((app, name, id)),
        others_kept(before, after, user) && (app, name) != user && before.contains_key(
            (app, name, id),
        ) ==> after[(app, name, id)] == before[(app, name, id)],
        before == after ==> others_kept(before, after, user),
{
    if others_kept(before, after, user) && (app, name) != user {
        let a = memory_of(after, (app, name));
        let b = memory_of(before, (app, name));
        assert(a == b);
        assert(a.contains_key(id) == b.contains_key(id));
        if before.contains_key((app, name, id)) {
            assert(a[id] == b[id]);
        }
    }
}

/// A store is asked to add just this content, for just this user.
pub proof fn stores_are_asked_to_add<S: MemoryService + ?Sized>(
    service: &mut S,
    user: (Seq<char>, Seq<char>),
    content: ContentModel,
    r: Result<String, AgentError>,
)
    requires
        adds(service, user, content, r),
    ensures
        exists|a: &AuthContext, c: MemoryContent|
            a.app_name@ == user.0 && a.user_name@ == user.1 && c@ == content
                && #[trigger] call_ensures(S::add, (service, a, c), r),
{
    let (a, c) = choose|a: &AuthContext, c: MemoryContent|
        a@ == user && c@ == content && #[trigger] call_ensures(S::add, (service, a, c), r);
    assert(a.app_name@ == user.0 && a.user_name@ == user.1);
    assert(call_ensures(S::add, (service, a, c), r));
}

/// A store is asked to add just these contents, in this order, for just this user.
pub proof fn stores_are_asked_to_add_in_order<S: MemoryService + ?Sized>(
    service: &mut S,
    user: (Seq<char>, Seq<char>),
    contents: Seq<ContentModel>,
    r: Result<Vec<String>, AgentError>,
)
    requires
        adds_batch(service, user, contents, r),
    ensures
        exists|a: &AuthContext, c: Vec<MemoryContent>|
            a.app_name@ == user.0 && a.user_name@ == user.1 && c@.len() == contents.len() && (
            forall|i: int| 0 <= i < contents.len() ==> (#[trigger] c@[i])@ == contents[i])
                && #[trigger] call_ensures(S::add_batch, (service, a, c), r),
{
    let (a, c) = choose|a: &AuthContext, c: Vec<MemoryContent>|
        a@ == user && content_models(c@) == contents && #[trigger] call_ensures(
            S::add_batch,
            (service, a, c),
            r,
        );
    assert(content_models(c@).len() == c@.len());
    assert forall|i: int| 0 <= i < contents.len() implies (#[trigger] c@[i])@ == contents[i] by {
        assert(content_models(c@)[i] == contents[i]);
    }
    assert(call_ensures(S::add_batch, (service, a, c), r));
}

/// A store is asked to delete just the content with this identifier, for just this user.
pub proof fn stores_are_asked_to_delete<S: MemoryService + ?Sized>(
    service: &mut S,
    user: (Seq<char>, Seq<char>),
    id: Seq<char>,
    r: Result<bool, AgentError>,
)
    requires
        deletes(service, user, id, r),
    ensures
        exists|a: &AuthContext, i: &str|
            a.app_name@ == user.0 && a.user_name@ == user.1 && i@ == id && #[trigger] call_ensures(
                S::delete,
                (service, a, i),
                r,
            ),
{
    let (a, i) = choose|a: &AuthContext, i: &str|
        a@ == user && i@ == id && #[trigger] call_ensures(S::delete, (service, a, i), r);
    assert(call_ensures(S::delete, (service, a, i), r));
}

/// A store is asked for just this query, for just this user, and for no more entries than this,
/// of these types only.
pub proof fn stores_are_asked_for_the_query<S: MemoryService>(
    service: S,
    user: (Seq<char>, Seq<char>),
    query: Seq<char>,
    types: Seq<SourceType>,
    limit: usize,
    r: Result<Vec<MemoryEntry>, AgentError>,
)
    requires
        searched(service, user, query, types, limit, r),
    ensures
        exists|a: AuthContext, q: &str, options: SearchOptions|
            a.app_name@ == user.0 && a.user_name@ == user.1 && q@ == query && options.limit == Some(
                limit,
            ) && options.min_score is None && options.metadata_filter is None
                && options.source_types is Some && options.source_types->Some_0@ == types
                && #[trigger] call_ensures(S::search, (&service, &a, q, options), r),
{
    let (a, q, options) = choose|a: AuthContext, q: &str, options: SearchOptions|
        a@ == user && q@ == query && limited(types, limit, options) && #[trigger] call_ensures(
            S::search,
            (&service, &a, q, options),
            r,
        );
    assert(call_ensures(S::search, (&service, &a, q, options), r));
}

/// A sweep that fails fails at a chunk that it comes to, with those before it gone, when the
/// store is asked to delete that chunk.
pub proof fn sweeps_fail_at_a_chunk<S: MemoryService + ?Sized>(
    service: &mut S,
    m: Memory,
    user: (Seq<char>, Seq<char>),
    doc: Seq<char>,
    start: nat,
    k: nat,
    e: AgentError,
)
    requires
        sweep_fails(service, m, user, doc, start, k, e),
    ensures
        start <= k < sweep_stop(m, user, doc, start, 0),
        old(service).memory() == without_chunks(m, user, doc, start, k),
        deletes(
            service,
            user,
            "doc:"@ + doc + ":chunk-"@ + decimal(k),
            Err::<bool, AgentError>(e),
        ),
{
}

/// A sweep goes on until ten chunks in a row were not there or the numbers end.
pub proof fn sweeps_go_on_for_ten_misses(sweep: ChunkSweep)
    ensures
        sweep.active() <==> sweep.position() < usize::MAX && sweep.missed() < 10,
{
}

/// Words that differ are different words.
pub proof fn different_words_differ(v: Seq<Seq<char>>, i: int, j: int)
    requires
        all_different(v),
        0 <= i < j < v.len(),
    ensures
        v[i] != v[j],
{
}

/// Recalling asks for what was said and what is known of the user, searching the knowledge for
/// documents and what comes from elsewhere; either is for the query, the user and the limit.
pub proof fn history_and_knowledge_are_searched_apart<S: MemoryService>(
    history: OwnedHistory<S>,
    knowledge: OwnedKnowledge<S>,
    auth: AuthContext,
    query: &str,
    limit: usize,
    recalled: Result<Vec<MemoryEntry>, AgentError>,
    found: Result<Vec<MemoryEntry>, AgentError>,
)
    requires
        call_ensures(OwnedHistory::<S>::recall, (&history, &auth, query, limit), recalled),
        call_ensures(OwnedKnowledge::<S>::search, (&knowledge, &auth, query, limit), found),
    ensures
        searched(
            history.service,
            (auth.app_name@, auth.user_name@),
            query@,
            seq![SourceType::PastConversation, SourceType::UserFact],
            limit,
            recalled,
        ),
        searched(
            knowledge.service,
            (auth.app_name@, auth.user_name@),
            query@,
            seq![SourceType::Document, SourceType::External],
            limit,
            found,
        ),
{
}

} // verus!
