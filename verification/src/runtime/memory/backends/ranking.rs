//! Relevance by keywords, and the order of what a search finds.

use crate::runtime::memory::service::{entry_models, place, Memory};
use crate::runtime::memory::types::{
    ContentModel, EntryModel, MemoryContent, MemoryEntry, Score, SearchOptions, SourceType,
};
use crate::text::{
    alphanumeric, is_empty_text, keep_nonempty, letter_or_digit, lower_case, lowercase,
    pieces_where, same_text, split_where, texts, without_empty,
};
use std::sync::Arc;
use vstd::prelude::*;

verus! {

/// The words of a text for matching: its runs of letters and digits, in lower case.
pub open spec fn keywords(text: Seq<char>) -> Set<Seq<char>> {
    without_empty(split_where(text, |c: char| !letter_or_digit(c))).map_values(
        |w: Seq<char>| lower_case(w),
    ).to_set()
}

/// The relevance of a text for a query: the share of the words of the query that are words of
/// the text; 1 for the query without characters.
pub open spec fn relevance(query: Seq<char>, text: Seq<char>) -> Score {
    if query.len() == 0 {
        Score { matched: 1, total: 1 }
    } else {
        keyword_relevance(keywords(query), text)
    }
}

/// The share of the words of a query that are words of the text.
pub open spec fn keyword_relevance(query_words: Set<Seq<char>>, text: Seq<char>) -> Score {
    if keywords(text).len() == 0 || query_words.len() == 0 {
        Score { matched: 0, total: 1 }
    } else {
        Score {
            matched: query_words.intersect(keywords(text)).len() as usize,
            total: query_words.len() as usize,
        }
    }
}

/// The content belongs into the answer to a search.
pub open spec fn admitted(options: SearchOptions, query: Seq<char>, content: ContentModel) -> bool {
    &&& options.admits_type(content.source.source_type())
    &&& options.admits_metadata(content.metadata)
    &&& options.admits_score(relevance(query, content.text))
}

/// A row of entries with one more, put behind all that are at least as relevant at the end of
/// the row.
pub open spec fn put_in_order(s: Seq<EntryModel>, e: EntryModel) -> Seq<EntryModel>
    decreases s.len(),
{
    if s.len() == 0 || s.last().score.at_least(e.score) {
        s.push(e)
    } else {
        put_in_order(s.drop_last(), e).push(s.last())
    }
}

/// The entries among `items` that belong into the answer, by falling relevance; equally
/// relevant ones keep their order.
pub open spec fn arranged(
    items: Seq<(Seq<char>, ContentModel)>,
    query: Seq<char>,
    options: SearchOptions,
) -> Seq<EntryModel>
    decreases items.len(),
{
    if items.len() == 0 {
        Seq::empty()
    } else {
        let before = arranged(items.drop_last(), query, options);
        let (id, content) = items.last();
        if admitted(options, query, content) {
            put_in_order(
                before,
                EntryModel { id, content, score: relevance(query, content.text) },
            )
        } else {
            before
        }
    }
}

/// The answer to a search among `items`.
pub open spec fn ranked(
    items: Seq<(Seq<char>, ContentModel)>,
    query: Seq<char>,
    options: SearchOptions,
) -> Seq<EntryModel> {
    let all = arranged(items, query, options);
    if all.len() <= options.limit_or_default() {
        all
    } else {
        all.take(options.limit_or_default() as int)
    }
}

/// `items` are the contents of one user's memory, in some order.
pub open spec fn lists(
    items: Seq<(Seq<char>, ContentModel)>,
    m: Memory,
    auth: (Seq<char>, Seq<char>),
) -> bool {
    &&& forall|i: int|
        0 <= i < items.len() ==> m.contains_key(place(auth, (#[trigger] items[i]).0)) && m[place(
            auth,
            items[i].0,
        )] == items[i].1
    &&& forall|i: int, j: int|
        0 <= i < j < items.len() ==> (#[trigger] items[i]).0 != (#[trigger] items[j]).0
    &&& forall|id: Seq<char>| #[trigger]
        m.contains_key(place(auth, id)) ==> exists|i: int|
            0 <= i < items.len() && (#[trigger] items[i]).0 == id
}

/// What a row of stored contents stands for.
pub open spec fn item_models(v: Seq<(String, Arc<MemoryContent>)>) -> Seq<(Seq<char>, ContentModel)> {
    Seq::new(v.len(), |i: int| (v[i].0@, v[i].1@))
}

// ---------------------------------------------------------------------------
// Words
// ---------------------------------------------------------------------------

/// No text occurs twice.
pub open spec fn all_different(v: Seq<Seq<char>>) -> bool {
    forall|i: int, j: int| 0 <= i < j < v.len() ==> #[trigger] v[i] != #[trigger] v[j]
}

fn holds_word(v: &Vec<String>, w: &str) -> (r: bool)
    ensures
        r == texts(v@).contains(w@),
{
    let mut i: usize = 0;
    while i < v.len()
        invariant
            i <= v.len(),
            forall|j: int| 0 <= j < i ==> #[trigger] texts(v@)[j] != w@,
        decreases v.len() - i,
    {
        if same_text(v[i].as_str(), w) {
            proof {
                assert(texts(v@)[i as int] == w@);
            }
            return true;
        }
        i = i + 1;
    }
    false
}

/// The words of `text` for matching, each once.
pub fn extract_words(text: &str) -> (r: Vec<String>)
    ensures
        all_different(texts(r@)),
        texts(r@).to_set() == keywords(text@),
{
    let f = |c: char| -> (b: bool)
        ensures
            b == !letter_or_digit(c),
        { !alphanumeric(c) };
    let parts = keep_nonempty(pieces_where(text, f, Ghost(|c: char| !letter_or_digit(c))));
    let ghost low = texts(parts@).map_values(|w: Seq<char>| lower_case(w));
    let mut out: Vec<String> = Vec::new();
    let mut i: usize = 0;
    proof {
        assert(texts(out@).to_set() =~= low.take(0).to_set());
    }
    while i < parts.len()
        invariant
            i <= parts.len(),
            low == texts(parts@).map_values(|w: Seq<char>| lower_case(w)),
            all_different(texts(out@)),
            texts(out@).to_set() == low.take(i as int).to_set(),
        decreases parts.len() - i,
    {
        let w = lowercase(parts[i].as_str());
        let ghost o = out@;
        let ghost t = low.take(i as int);
        let ghost word = w@;
        proof {
            assert(low[i as int] == word);
            assert(low.take(i + 1) =~= t.push(word));
            lemma_push_to_set(t, word);
        }
        if !holds_word(&out, w.as_str()) {
            out.push(w);
            proof {
                assert(texts(out@) =~= texts(o).push(word));
                lemma_push_to_set(texts(o), word);
                assert forall|a: int, b: int| 0 <= a < b < texts(out@).len() implies #[trigger] texts(
                    out@,
                )[a] != #[trigger] texts(out@)[b] by {
                    assert(texts(out@)[a] == texts(o)[a]);
                    if b < o.len() {
                        assert(texts(out@)[b] == texts(o)[b]);
                    }
                }
            }
        } else {
            proof {
                assert(texts(o).to_set().contains(word));
                assert(texts(out@).to_set() =~= low.take(i + 1).to_set());
            }
        }
        i = i + 1;
    }
    proof {
        assert(low.take(low.len() as int) =~= low);
    }
    out
}

/// A row with one more word has the words of the row and that one.
pub proof fn lemma_push_to_set(s: Seq<Seq<char>>, w: Seq<char>)
    ensures
        s.push(w).to_set() == s.to_set().insert(w),
{
    assert forall|x: Seq<char>| s.push(w).to_set().contains(x) == s.to_set().insert(w).contains(
        x,
    ) by {
        if s.push(w).contains(x) {
            let i = choose|i: int| 0 <= i < s.push(w).len() && s.push(w)[i] == x;
            if i < s.len() {
                assert(s[i] == x);
            }
        }
        if s.contains(x) {
            let i = choose|i: int| 0 <= i < s.len() && s[i] == x;
            assert(s.push(w)[i] == x);
        }
        if x == w {
            assert(s.push(w)[s.len() as int] == x);
        }
    }
    assert(s.push(w).to_set() =~= s.to_set().insert(w));
}

proof fn lemma_different_count(s: Seq<Seq<char>>)
    requires
        all_different(s),
    ensures
        s.to_set().finite(),
        s.to_set().len() == s.len(),
    decreases s.len(),
{
    if s.len() == 0 {
        assert(s.to_set() =~= Set::<Seq<char>>::empty());
    } else {
        let t = s.drop_last();
        assert forall|i: int, j: int| 0 <= i < j < t.len() implies #[trigger] t[i] != #[trigger] t[j] by {
            assert(s[i] != s[j]);
        }
        lemma_different_count(t);
        assert(t.push(s.last()) =~= s);
        lemma_push_to_set(t, s.last());
        if t.contains(s.last()) {
            let i = choose|i: int| 0 <= i < t.len() && t[i] == s.last();
            assert(s[i] == s[s.len() - 1]);
        }
    }
}

/// The share of the words of a query that are words of `text`.
pub fn keyword_score(query_words: &Vec<String>, text: &str) -> (r: Score)
    requires
        all_different(texts(query_words@)),
    ensures
        r == keyword_relevance(texts(query_words@).to_set(), text@),
{
    let text_words = extract_words(text);
    let ghost q = texts(query_words@);
    let ghost t = keywords(text@);
    proof {
        lemma_different_count(texts(text_words@));
        lemma_different_count(q);
    }
    if text_words.len() == 0 || query_words.len() == 0 {
        return Score::zero();
    }
    let mut matched: usize = 0;
    let mut i: usize = 0;
    proof {
        assert(q.take(0).to_set().intersect(t) =~= Set::<Seq<char>>::empty());
    }
    while i < query_words.len()
        invariant
            i <= query_words.len(),
            q == texts(query_words@),
            all_different(q),
            texts(text_words@).to_set() == t,
            q.take(i as int).to_set().finite(),
            matched == q.take(i as int).to_set().intersect(t).len(),
            matched <= i,
        decreases query_words.len() - i,
    {
        let ghost before = q.take(i as int);
        let ghost w = q[i as int];
        proof {
            assert(q.take(i + 1) =~= before.push(w));
            lemma_push_to_set(before, w);
            if before.contains(w) {
                let k = choose|k: int| 0 <= k < before.len() && before[k] == w;
                assert(q[k] == q[i as int]);
            }
        }
        if holds_word(&text_words, query_words[i].as_str()) {
            matched = matched + 1;
            proof {
                assert(texts(text_words@).to_set().contains(w));
                assert(before.push(w).to_set().intersect(t) =~= before.to_set().intersect(t).insert(w));
            }
        } else {
            proof {
                assert(!texts(text_words@).to_set().contains(w));
                assert(before.push(w).to_set().intersect(t) =~= before.to_set().intersect(t));
            }
        }
        i = i + 1;
    }
    proof {
        assert(q.take(q.len() as int) =~= q);
    }
    Score { matched, total: query_words.len() }
}

// ---------------------------------------------------------------------------
// Ranking
// ---------------------------------------------------------------------------

fn type_listed(types: &Vec<SourceType>, t: SourceType) -> (r: bool)
    ensures
        r == types@.contains(t),
{
    let mut i: usize = 0;
    while i < types.len()
        invariant
            i <= types.len(),
            forall|j: int| 0 <= j < i ==> #[trigger] types@[j] != t,
        decreases types.len() - i,
    {
        if types[i] == t {
            return true;
        }
        i = i + 1;
    }
    false
}

/// Tells whether content passes the filters on source types and metadata.
fn passes_filters(options: &SearchOptions, content: &MemoryContent) -> (r: bool)
    ensures
        r == (options.admits_type(content@.source.source_type()) && options.admits_metadata(
            content@.metadata,
        )),
{
    let type_ok = match &options.source_types {
        Some(types) => type_listed(types, content.source.source_type()),
        None => true,
    };
    let metadata_ok = match &options.metadata_filter {
        Some(filter) => filter.is_part_of(&content.metadata),
        None => true,
    };
    type_ok && metadata_ok
}

fn entry_of(id: &String, content: &MemoryContent, score: Score) -> (r: MemoryEntry)
    ensures
        r@ == (EntryModel { id: id@, content: content@, score }),
{
    MemoryEntry {
        id: id.clone(),
        text: content.text.clone(),
        source: content.source.clone(),
        score,
        metadata: content.metadata.clone(),
    }
}

/// Puts an entry behind all that are at least as relevant at the end of the row.
fn insert_in_order(v: &mut Vec<MemoryEntry>, e: MemoryEntry)
    ensures
        entry_models(final(v)@) == put_in_order(entry_models(old(v)@), e@),
{
    let ghost s = entry_models(v@);
    let ghost m = e@;
    let mut j: usize = v.len();
    proof {
        assert(s.take(s.len() as int) =~= s);
        assert(put_in_order(s, m) =~= put_in_order(s.take(j as int), m) + s.skip(j as int));
    }
    while j > 0 && !v[j - 1].score.reaches(&e.score)
        invariant
            j <= v.len(),
            s == entry_models(v@),
            m == e@,
            put_in_order(s, m) == put_in_order(s.take(j as int), m) + s.skip(j as int),
        decreases j,
    {
        proof {
            let t = s.take(j as int);
            assert(t.last() == v@[j - 1]@);
            assert(t.drop_last() =~= s.take(j - 1));
            assert(s.skip(j - 1) =~= seq![s[j - 1]] + s.skip(j as int));
            assert(put_in_order(s.take(j as int), m) + s.skip(j as int) =~= put_in_order(
                s.take(j - 1),
                m,
            ) + s.skip(j - 1));
        }
        j = j - 1;
    }
    proof {
        let t = s.take(j as int);
        if j > 0 {
            assert(t.last() == v@[j - 1]@);
        }
        assert(put_in_order(t, m) == t.push(m));
    }
    v.insert(j, e);
    proof {
        assert(entry_models(v@) =~= s.take(j as int).push(m) + s.skip(j as int));
    }
}

/// The answer to a search among `items`: the entries that pass the filters and are relevant
/// enough, by falling relevance, no more than asked for.
pub fn rank(
    items: &Vec<(String, Arc<MemoryContent>)>,
    query: &str,
    options: &SearchOptions,
) -> (r: Vec<MemoryEntry>)
    ensures
        entry_models(r@) == ranked(item_models(items@), query@, *options),
        keywords(query@).len() <= usize::MAX,
{
    let query_words = extract_words(query);
    let any = is_empty_text(query);
    proof {
        lemma_different_count(texts(query_words@));
        assert(texts(query_words@).len() == query_words@.len());
    }
    let mut found: Vec<MemoryEntry> = Vec::new();
    let ghost all = item_models(items@);
    let mut i: usize = 0;
    proof {
        assert(entry_models(found@) =~= arranged(all.take(0), query@, *options));
    }
    while i < items.len()
        invariant
            i <= items.len(),
            all == item_models(items@),
            any == (query@.len() == 0),
            all_different(texts(query_words@)),
            texts(query_words@).to_set() == keywords(query@),
            keywords(query@).len() == query_words@.len(),
            entry_models(found@) == arranged(all.take(i as int), query@, *options),
        decreases items.len() - i,
    {
        let content: &MemoryContent = &items[i].1;
        proof {
            assert(all.take(i + 1).drop_last() =~= all.take(i as int));
            assert(all.take(i + 1).last() == (items@[i as int].0@, content@));
        }
        if passes_filters(options, content) {
            let score = if any {
                Score::one()
            } else {
                keyword_score(&query_words, content.text.as_str())
            };
            let enough = match &options.min_score {
                Some(min) => score.reaches(min),
                None => true,
            };
            if enough {
                insert_in_order(&mut found, entry_of(&items[i].0, content, score));
            }
        }
        i = i + 1;
    }
    proof {
        assert(all.take(all.len() as int) =~= all);
    }
    let limit: usize = match options.limit {
        Some(n) => n,
        None => 10,
    };
    let ghost f = found@;
    found.truncate(limit);
    proof {
        assert(query_words.len() == query_words@.len());
        if f.len() > limit {
            assert(entry_models(found@) =~= entry_models(f).take(limit as int));
        }
    }
    found
}

// ---------------------------------------------------------------------------
// What an answer is like
// ---------------------------------------------------------------------------

proof fn lemma_at_least_transitive(a: Score, b: Score, c: Score)
    requires
        a.total > 0,
        b.total > 0,
        c.total > 0,
        a.at_least(b),
        b.at_least(c),
    ensures
        a.at_least(c),
{
    let (am, at, bm, bt, cm, ct) = (
        a.matched as int,
        a.total as int,
        b.matched as int,
        b.total as int,
        c.matched as int,
        c.total as int,
    );
    assert(am * ct >= cm * at) by (nonlinear_arith)
        requires
            am * bt >= bm * at,
            bm * ct >= cm * bt,
            at > 0,
            bt > 0,
            ct > 0,
    {
        assert((am * bt) * ct >= (bm * at) * ct);
        assert((bm * ct) * at >= (cm * bt) * at);
        assert((am * ct) * bt >= (cm * at) * bt);
    }
}

proof fn lemma_relevance_positive(query: Seq<char>, text: Seq<char>)
    requires
        keywords(query).len() <= usize::MAX,
    ensures
        relevance(query, text).total > 0,
{
}

/// What holds of every entry of a row, and of one more, holds of the row with that one.
proof fn lemma_put_all(s: Seq<EntryModel>, e: EntryModel, p: spec_fn(EntryModel) -> bool)
    requires
        forall|i: int| 0 <= i < s.len() ==> p(#[trigger] s[i]),
        p(e),
    ensures
        forall|i: int|
            0 <= i < put_in_order(s, e).len() ==> p(#[trigger] put_in_order(s, e)[i]),
        put_in_order(s, e).len() == s.len() + 1,
    decreases s.len(),
{
    if s.len() > 0 && !s.last().score.at_least(e.score) {
        assert forall|i: int| 0 <= i < s.drop_last().len() implies p(
            #[trigger] s.drop_last()[i],
        ) by {
            assert(s.drop_last()[i] == s[i]);
        }
        lemma_put_all(s.drop_last(), e, p);
        assert(p(s[s.len() - 1]));
    }
}

/// A row of entries without repetition and by falling relevance.
pub open spec fn in_order(s: Seq<EntryModel>) -> bool {
    &&& forall|i: int| 0 <= i < s.len() ==> (#[trigger] s[i]).score.total > 0
    &&& forall|i: int, j: int|
        0 <= i < j < s.len() ==> (#[trigger] s[i]).id != (#[trigger] s[j]).id
            && s[i].score.at_least(s[j].score)
}

proof fn lemma_put_in_order(s: Seq<EntryModel>, e: EntryModel)
    requires
        in_order(s),
        e.score.total > 0,
        forall|i: int| 0 <= i < s.len() ==> (#[trigger] s[i]).id != e.id,
    ensures
        in_order(put_in_order(s, e)),
    decreases s.len(),
{
    if s.len() == 0 {
    } else if s.last().score.at_least(e.score) {
        let r = s.push(e);
        assert forall|i: int, j: int| 0 <= i < j < r.len() implies (#[trigger] r[i]).id != (
        #[trigger] r[j]).id && r[i].score.at_least(r[j].score) by {
            assert(r[i] == s[i]);
            if j == s.len() {
                if i < s.len() - 1 {
                    assert(s[i].score.at_least(s[s.len() - 1].score));
                    lemma_at_least_transitive(s[i].score, s.last().score, e.score);
                }
            } else {
                assert(r[j] == s[j]);
            }
        }
    } else {
        let t = s.drop_last();
        let l = s.last();
        assert forall|i: int, j: int| 0 <= i < j < t.len() implies (#[trigger] t[i]).id != (
        #[trigger] t[j]).id && t[i].score.at_least(t[j].score) by {
            assert(t[i] == s[i] && t[j] == s[j]);
        }
        assert forall|i: int| 0 <= i < t.len() implies (#[trigger] t[i]).id != e.id && t[i].id
            != l.id && t[i].score.at_least(l.score) && t[i].score.total > 0 by {
            assert(t[i] == s[i]);
            assert(s[i].id != s[s.len() - 1].id);
        }
        lemma_put_in_order(t, e);
        let p = |x: EntryModel| x.id != l.id && x.score.at_least(l.score);
        assert(s[s.len() - 1].id != e.id);
        assert(e.score.at_least(l.score)) by {
            let (am, at, bm, bt) = (
                e.score.matched as int,
                e.score.total as int,
                l.score.matched as int,
                l.score.total as int,
            );
            assert(am * bt >= bm * at) by (nonlinear_arith)
                requires
                    !(bm * at >= am * bt),
            ;
        }
        assert forall|i: int| 0 <= i < t.len() implies p(#[trigger] t[i]) by {}
        lemma_put_all(t, e, p);
        let u = put_in_order(t, e);
        let r = u.push(l);
        assert forall|i: int, j: int| 0 <= i < j < r.len() implies (#[trigger] r[i]).id != (
        #[trigger] r[j]).id && r[i].score.at_least(r[j].score) by {
            assert(r[i] == u[i]);
            if j == u.len() {
                assert(p(u[i]));
            } else {
                assert(r[j] == u[j]);
            }
        }
        assert forall|i: int| 0 <= i < r.len() implies (#[trigger] r[i]).score.total > 0 by {
            if i < u.len() {
                assert(r[i] == u[i]);
            }
        }
    }
}

/// Every entry that is arranged is one of the items, belongs into the answer and is scored by
/// its relevance; the entries are in order.
pub proof fn lemma_arranged(
    items: Seq<(Seq<char>, ContentModel)>,
    query: Seq<char>,
    options: SearchOptions,
)
    requires
        keywords(query).len() <= usize::MAX,
        forall|i: int, j: int|
            0 <= i < j < items.len() ==> (#[trigger] items[i]).0 != (#[trigger] items[j]).0,
    ensures
        in_order(arranged(items, query, options)),
        forall|k: int|
            0 <= k < arranged(items, query, options).len() ==> {
                let e = #[trigger] arranged(items, query, options)[k];
                &&& items.contains((e.id, e.content))
                &&& admitted(options, query, e.content)
                &&& e.score == relevance(query, e.content.text)
            },
    decreases items.len(),
{
    if items.len() > 0 {
        let t = items.drop_last();
        assert forall|i: int, j: int| 0 <= i < j < t.len() implies (#[trigger] t[i]).0 != (
        #[trigger] t[j]).0 by {
            assert(items[i].0 != items[j].0);
        }
        lemma_arranged(t, query, options);
        let before = arranged(t, query, options);
        let (id, content) = items.last();
        let p = |e: EntryModel|
            items.contains((e.id, e.content)) && admitted(options, query, e.content) && e.score
                == relevance(query, e.content.text);
        assert forall|k: int| 0 <= k < before.len() implies p(#[trigger] before[k]) && before[k].id
            != id by {
            let e = before[k];
            assert(t.contains((e.id, e.content)));
            let i = choose|i: int| 0 <= i < t.len() && t[i] == (e.id, e.content);
            assert(items[i] == (e.id, e.content));
            assert(items[i].0 != items[items.len() - 1].0);
        }
        if admitted(options, query, content) {
            let e = EntryModel { id, content, score: relevance(query, content.text) };
            assert(items[items.len() - 1] == (e.id, e.content));
            lemma_relevance_positive(query, content.text);
            lemma_put_in_order(before, e);
            lemma_put_all(before, e, p);
            let after = arranged(items, query, options);
            assert forall|k: int| 0 <= k < after.len() implies p(#[trigger] after[k]) by {}
        }
    }
}

/// A row with one more entry holds that entry and all that it held.
proof fn lemma_put_keeps(s: Seq<EntryModel>, e: EntryModel)
    ensures
        put_in_order(s, e).contains(e),
        forall|x: EntryModel| s.contains(x) ==> #[trigger] put_in_order(s, e).contains(x),
    decreases s.len(),
{
    let r = put_in_order(s, e);
    if s.len() == 0 || s.last().score.at_least(e.score) {
        assert(r[s.len() as int] == e);
        assert forall|x: EntryModel| s.contains(x) implies #[trigger] r.contains(x) by {
            let i = choose|i: int| 0 <= i < s.len() && s[i] == x;
            assert(r[i] == x);
        }
    } else {
        let t = s.drop_last();
        let u = put_in_order(t, e);
        lemma_put_keeps(t, e);
        assert forall|x: EntryModel| u.contains(x) implies r.contains(x) by {
            let i = choose|i: int| 0 <= i < u.len() && u[i] == x;
            assert(r[i] == x);
        }
        assert(r[u.len() as int] == s.last());
        assert forall|x: EntryModel| s.contains(x) implies #[trigger] r.contains(x) by {
            let i = choose|i: int| 0 <= i < s.len() && s[i] == x;
            if i < t.len() {
                assert(t[i] == x);
                assert(u.contains(x));
            }
        }
    }
}

/// Every item that belongs into the answer is arranged.
pub proof fn lemma_arranged_complete(
    items: Seq<(Seq<char>, ContentModel)>,
    query: Seq<char>,
    options: SearchOptions,
    i: int,
)
    requires
        0 <= i < items.len(),
        admitted(options, query, items[i].1),
    ensures
        arranged(items, query, options).contains(
            EntryModel {
                id: items[i].0,
                content: items[i].1,
                score: relevance(query, items[i].1.text),
            },
        ),
    decreases items.len(),
{
    let t = items.drop_last();
    let (id, content) = items.last();
    if admitted(options, query, content) {
        lemma_put_keeps(
            arranged(t, query, options),
            EntryModel { id, content, score: relevance(query, content.text) },
        );
    }
    if i < items.len() - 1 {
        assert(t[i] == items[i]);
        lemma_arranged_complete(t, query, options, i);
    }
}

// ---------------------------------------------------------------------------
// Laws
// ---------------------------------------------------------------------------

/// Relevance lies between 0 and 1.
pub proof fn relevance_is_a_share(query: Seq<char>, text: Seq<char>)
    requires
        keywords(query).len() <= usize::MAX,
    ensures
        0 <= relevance(query, text).matched <= relevance(query, text).total,
        relevance(query, text).total > 0,
{
    let q = keywords(query);
    let t = keywords(text);
    without_empty(split_where(query, |c: char| !letter_or_digit(c))).map_values(
        |w: Seq<char>| lower_case(w),
    ).lemma_cardinality_of_set();
    vstd::set_lib::lemma_len_intersect(q, t);
}

/// A text that holds every word of the query is relevant to the full, and one that holds none
/// is not relevant at all, where the query has words and the text too.
pub proof fn relevance_at_the_ends(query: Seq<char>, text: Seq<char>)
    requires
        0 < keywords(query).len() <= usize::MAX,
        keywords(text).len() > 0,
    ensures
        keywords(query).subset_of(keywords(text)) ==> relevance(query, text).at_least(
            Score { matched: 1, total: 1 },
        ),
        keywords(query).disjoint(keywords(text)) ==> relevance(query, text).matched == 0,
{
    let q = keywords(query);
    let t = keywords(text);
    if query.len() == 0 {
        let pieces = split_where(query, |c: char| !letter_or_digit(c));
        assert(pieces.drop_last() =~= Seq::<Seq<char>>::empty());
        reveal_with_fuel(without_empty, 2);
        let words = without_empty(pieces).map_values(|w: Seq<char>| lower_case(w));
        assert(words.len() == 0);
        assert(words.to_set() =~= Set::<Seq<char>>::empty());
    }
    if q.subset_of(t) {
        assert(q.intersect(t) =~= q);
    }
    if q.disjoint(t) {
        assert(q.intersect(t) =~= Set::<Seq<char>>::empty());
    }
}

} // verus!
