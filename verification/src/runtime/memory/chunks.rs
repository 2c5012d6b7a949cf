//! Splitting a document into chunks.

use crate::text::{byte_len, chars_of, len_in_bytes, push_char, texts};
use vstd::prelude::*;

verus! {

/// A character that ends a sentence.
pub open spec fn ends_sentence(c: char) -> bool {
    c == '.' || c == '!' || c == '?'
}

/// The sentences of a text: each runs up to and with the character that ends it, the last one
/// up to the end of the text.
pub open spec fn sentences(s: Seq<char>) -> Seq<Seq<char>>
    decreases s.len(),
{
    if s.len() == 0 {
        Seq::empty()
    } else {
        let before = sentences(s.drop_last());
        if s.len() == 1 || ends_sentence(s[s.len() - 2]) {
            before.push(seq![s.last()])
        } else {
            before.drop_last().push(before.last().push(s.last()))
        }
    }
}

/// Sentences packed into chunks: the full chunks, and the one that is being filled. A sentence
/// goes into the latter, unless it holds something and would grow over `size` bytes.
pub open spec fn pack(p: Seq<Seq<char>>, size: nat) -> (Seq<Seq<char>>, Seq<char>)
    decreases p.len(),
{
    if p.len() == 0 {
        (Seq::empty(), Seq::empty())
    } else {
        let (full, current) = pack(p.drop_last(), size);
        let sentence = p.last();
        if byte_len(current) + byte_len(sentence) > size && current.len() > 0 {
            (full.push(current), sentence)
        } else {
            (full, current + sentence)
        }
    }
}

/// The chunks of a text.
pub open spec fn chunks(text: Seq<char>, size: nat) -> Seq<Seq<char>> {
    let (full, current) = pack(sentences(text), size);
    if current.len() > 0 {
        full.push(current)
    } else {
        full
    }
}

/// The texts one after the other.
pub open spec fn concat_all(p: Seq<Seq<char>>) -> Seq<char>
    decreases p.len(),
{
    if p.len() == 0 {
        Seq::empty()
    } else {
        concat_all(p.drop_last()) + p.last()
    }
}

/// The bytes of a concatenation.
pub proof fn lemma_byte_len_concat(a: Seq<char>, b: Seq<char>)
    ensures
        byte_len(a + b) == byte_len(a) + byte_len(b),
    decreases a.len(),
{
    reveal_with_fuel(vstd::utf8::encode_utf8, 2);
    if a.len() == 0 {
        assert(a + b =~= b);
    } else {
        assert((a + b).drop_first() =~= a.drop_first() + b);
        lemma_byte_len_concat(a.drop_first(), b);
    }
}

/// The sentences of a text make up the text, and none is empty.
pub proof fn lemma_sentences(s: Seq<char>)
    ensures
        concat_all(sentences(s)) == s,
        forall|i: int| 0 <= i < sentences(s).len() ==> (#[trigger] sentences(s)[i]).len() > 0,
        s.len() > 0 ==> sentences(s).len() > 0,
    decreases s.len(),
{
    if s.len() > 0 {
        let t = s.drop_last();
        lemma_sentences(t);
        let before = sentences(t);
        let after = sentences(s);
        if s.len() == 1 || ends_sentence(s[s.len() - 2]) {
            assert(after.drop_last() =~= before);
            assert(concat_all(after) =~= t + seq![s.last()]);
        } else {
            assert(after.drop_last() =~= before.drop_last());
            assert(concat_all(after) =~= concat_all(before.drop_last()) + before.last().push(
                s.last(),
            ));
            assert(concat_all(before) == concat_all(before.drop_last()) + before.last());
        }
        assert(t + seq![s.last()] =~= s);
        assert(concat_all(after) =~= s);
    }
}

/// Packing keeps the text, fills no chunk with nothing, and ends with something in the chunk
/// that is being filled.
pub proof fn lemma_pack(p: Seq<Seq<char>>, size: nat)
    requires
        forall|i: int| 0 <= i < p.len() ==> (#[trigger] p[i]).len() > 0,
    ensures
        concat_all(pack(p, size).0) + pack(p, size).1 == concat_all(p),
        forall|i: int| 0 <= i < pack(p, size).0.len() ==> (#[trigger] pack(p, size).0[i]).len() > 0,
        p.len() > 0 ==> pack(p, size).1.len() > 0,
    decreases p.len(),
{
    if p.len() > 0 {
        let q = p.drop_last();
        assert forall|i: int| 0 <= i < q.len() implies (#[trigger] q[i]).len() > 0 by {
            assert(q[i] == p[i]);
        }
        lemma_pack(q, size);
        let (full, current) = pack(q, size);
        let sentence = p.last();
        assert(p[p.len() - 1].len() > 0);
        if byte_len(current) + byte_len(sentence) > size && current.len() > 0 {
            assert(full.push(current).drop_last() =~= full);
            assert(concat_all(full.push(current)) =~= concat_all(full) + current);
        } else {
            assert(concat_all(full) + (current + sentence) =~= concat_all(full) + current
                + sentence);
        }
        assert(concat_all(pack(p, size).0) + pack(p, size).1 =~= concat_all(p));
    }
}

/// Chunking loses nothing and adds nothing: the chunks of a text, one after the other, are
/// the text, and no chunk is empty.
pub proof fn chunks_make_up_the_text(text: Seq<char>, size: nat)
    ensures
        concat_all(chunks(text, size)) == text,
        forall|i: int|
            0 <= i < chunks(text, size).len() ==> (#[trigger] chunks(text, size)[i]).len() > 0,
{
    lemma_sentences(text);
    lemma_pack(sentences(text), size);
    let (full, current) = pack(sentences(text), size);
    if current.len() > 0 {
        assert(full.push(current).drop_last() =~= full);
    } else {
        assert(concat_all(full) + current =~= concat_all(full));
    }
}

/// The sentences of `text`.
fn split_sentences(text: &str) -> (r: Vec<String>)
    ensures
        texts(r@) == sentences(text@),
{
    let v = chars_of(text);
    let mut out: Vec<String> = Vec::new();
    let mut current = String::new();
    let mut open = false;
    let mut i: usize = 0;
    proof {
        assert(texts(out@) =~= sentences(text@.take(0)));
    }
    while i < v.len()
        invariant
            i <= v.len(),
            v@ == text@,
            open == (i > 0 && !ends_sentence(text@[i - 1])),
            open ==> texts(out@).push(current@) == sentences(text@.take(i as int)),
            !open ==> texts(out@) == sentences(text@.take(i as int)) && current@.len() == 0,
        decreases v.len() - i,
    {
        let c = v[i];
        let ghost s = text@.take(i + 1);
        let ghost before = sentences(text@.take(i as int));
        proof {
            assert(s.drop_last() =~= text@.take(i as int));
            assert(s.last() == c);
            if i > 0 {
                assert(s[s.len() - 2] == text@[i - 1]);
            }
        }
        let ghost cur = current@;
        push_char(&mut current, c);
        proof {
            if open {
                assert(before.drop_last() =~= texts(out@));
                assert(texts(out@).push(current@) =~= sentences(s));
            } else {
                assert(current@ =~= seq![c]);
                assert(texts(out@).push(current@) =~= sentences(s));
            }
        }
        if c == '.' || c == '!' || c == '?' {
            let ghost o = out@;
            out.push(current);
            current = String::new();
            open = false;
            proof {
                assert(texts(out@) =~= sentences(s));
            }
        } else {
            open = true;
        }
        i = i + 1;
    }
    proof {
        assert(text@.take(text@.len() as int) =~= text@);
    }
    if open {
        let ghost o = out@;
        out.push(current);
        proof {
            assert(texts(out@) =~= texts(o).push(current@));
        }
    }
    out
}

/// Splits `text` into chunks of about `chunk_size` bytes, at the ends of sentences.
pub fn chunk_text(text: &str, chunk_size: usize) -> (r: Vec<String>)
    ensures
        texts(r@) == chunks(text@, chunk_size as nat),
{
    let parts = split_sentences(text);
    let total = len_in_bytes(text);
    let mut full: Vec<String> = Vec::new();
    let mut current = String::new();
    let mut i: usize = 0;
    let ghost p = sentences(text@);
    proof {
        lemma_sentences(text@);
        assert(p.take(0) =~= Seq::<Seq<char>>::empty());
        assert(texts(full@) =~= Seq::<Seq<char>>::empty());
    }
    while i < parts.len()
        invariant
            i <= parts.len(),
            texts(parts@) == p,
            p == sentences(text@),
            concat_all(p) == text@,
            forall|j: int| 0 <= j < p.len() ==> (#[trigger] p[j]).len() > 0,
            total == byte_len(text@),
            pack(p.take(i as int), chunk_size as nat) == (texts(full@), current@),
        decreases parts.len() - i,
    {
        let ghost q = p.take(i + 1);
        proof {
            assert(q.drop_last() =~= p.take(i as int));
            assert(q.last() == parts@[i as int]@);
            lemma_pack(p.take(i as int), chunk_size as nat);
            lemma_fits(p, i as int, text@);
            lemma_byte_len_concat(concat_all(texts(full@)), current@);
        }
        let a = len_in_bytes(current.as_str());
        let b = len_in_bytes(parts[i].as_str());
        let ghost f = full@;
        if a + b > chunk_size && !crate::text::is_empty_text(current.as_str()) {
            full.push(current);
            current = String::new();
            proof {
                assert(texts(full@) =~= texts(f).push(pack(p.take(i as int), chunk_size as nat).1));
                assert(Seq::<char>::empty() + parts@[i as int]@ =~= parts@[i as int]@);
            }
        }
        current.append(parts[i].as_str());
        i = i + 1;
    }
    proof {
        assert(p.take(p.len() as int) =~= p);
    }
    if !crate::text::is_empty_text(current.as_str()) {
        let ghost f = full@;
        full.push(current);
        proof {
            assert(texts(full@) =~= texts(f).push(current@));
        }
    }
    full
}

/// The bytes of the first `i` sentences and of the next one fit into those of the text.
proof fn lemma_fits(p: Seq<Seq<char>>, i: int, text: Seq<char>)
    requires
        0 <= i < p.len(),
        concat_all(p) == text,
    ensures
        byte_len(concat_all(p.take(i))) + byte_len(p[i]) <= byte_len(text),
    decreases p.len(),
{
    if i == p.len() - 1 {
        assert(p.take(i) =~= p.drop_last());
        lemma_byte_len_concat(concat_all(p.take(i)), p[i]);
    } else {
        let q = p.drop_last();
        lemma_fits(q, i, concat_all(q));
        assert(q.take(i) =~= p.take(i));
        lemma_byte_len_concat(concat_all(q), p.last());
    }
}

// ---------------------------------------------------------------------------
// Laws
// ---------------------------------------------------------------------------

/// The first `k` characters are the first sentence: they run up to and with the first full
/// stop, exclamation mark or question mark, or are all there is.
pub open spec fn is_first_sentence(c: Seq<char>, k: int) -> bool {
    &&& 0 < k <= c.len()
    &&& k == c.len() || c[k - 1] == '.' || c[k - 1] == '!' || c[k - 1] == '?'
    &&& forall|j: int|
        0 <= j < k - 1 ==> (#[trigger] c[j]) != '.' && c[j] != '!' && c[j] != '?'
}

spec fn closed_sentence(c: Seq<char>) -> bool {
    c.len() > 0 && (c.last() == '.' || c.last() == '!' || c.last() == '?')
}

proof fn lemma_shapes(s: Seq<char>)
    ensures
        forall|i: int|
            0 <= i < sentences(s).len() ==> is_first_sentence(
                #[trigger] sentences(s)[i],
                sentences(s)[i].len() as int,
            ),
        forall|i: int|
            0 <= i < sentences(s).len() - 1 ==> closed_sentence(#[trigger] sentences(s)[i]),
        s.len() > 0 ==> sentences(s).len() > 0 && sentences(s).last().len() > 0
            && sentences(s).last().last() == s.last(),
    decreases s.len(),
{
    if s.len() > 0 {
        let t = s.drop_last();
        lemma_shapes(t);
        let before = sentences(t);
        let after = sentences(s);
        if s.len() == 1 || ends_sentence(s[s.len() - 2]) {
            assert(after == before.push(seq![s.last()]));
            assert forall|i: int| 0 <= i < after.len() implies is_first_sentence(
                #[trigger] after[i],
                after[i].len() as int,
            ) by {
                if i < before.len() {
                    assert(after[i] == before[i]);
                }
            }
            assert forall|i: int| 0 <= i < after.len() - 1 implies closed_sentence(
                #[trigger] after[i],
            ) by {
                assert(after[i] == before[i]);
                if i == before.len() - 1 {
                    assert(before.last().last() == t.last());
                }
            }
        } else {
            assert(before.len() > 0);
            let last = before.last();
            assert(after == before.drop_last().push(last.push(s.last())));
            assert(last.last() == s[s.len() - 2]);
            assert(is_first_sentence(before[before.len() - 1], last.len() as int));
            assert forall|i: int| 0 <= i < after.len() implies is_first_sentence(
                #[trigger] after[i],
                after[i].len() as int,
            ) by {
                if i < before.len() - 1 {
                    assert(after[i] == before[i]);
                } else {
                    let c = last.push(s.last());
                    assert(after[i] == c);
                    assert forall|j: int| 0 <= j < c.len() - 1 implies (#[trigger] c[j]) != '.'
                        && c[j] != '!' && c[j] != '?' by {
                        assert(c[j] == last[j]);
                    }
                }
            }
            assert forall|i: int| 0 <= i < after.len() - 1 implies closed_sentence(
                #[trigger] after[i],
            ) by {
                assert(after[i] == before[i]);
            }
        }
    }
}

/// What holds of the chunks while sentences are packed.
spec fn well_packed(full: Seq<Seq<char>>, current: Seq<char>, size: nat) -> bool {
    let all = full.push(current);
    &&& forall|i: int| 0 <= i < full.len() ==> closed_sentence(#[trigger] full[i])
    &&& forall|i: int|
        0 <= i < all.len() ==> byte_len(#[trigger] all[i]) <= size || is_first_sentence(
            all[i],
            all[i].len() as int,
        )
    &&& forall|i: int, k: int|
        0 <= i < full.len() && is_first_sentence(all[i + 1], k) ==> byte_len(#[trigger] full[i])
            + byte_len(#[trigger] all[i + 1].take(k)) > size
}

proof fn lemma_well_packed(p: Seq<Seq<char>>, size: nat)
    requires
        p.len() > 0,
        forall|i: int|
            0 <= i < p.len() ==> is_first_sentence(#[trigger] p[i], p[i].len() as int),
        forall|i: int| 0 <= i < p.len() - 1 ==> closed_sentence(#[trigger] p[i]),
    ensures
        well_packed(pack(p, size).0, pack(p, size).1, size),
        pack(p, size).1.len() > 0,
        pack(p, size).1.last() == p.last().last(),
    decreases p.len(),
{
    let q = p.drop_last();
    let (full, current) = pack(q, size);
    let sentence = p.last();
    assert(is_first_sentence(p[p.len() - 1], sentence.len() as int));
    let (f, c) = pack(p, size);
    if q.len() == 0 {
        assert(f == Seq::<Seq<char>>::empty());
        assert(c =~= sentence);
    } else {
        assert forall|i: int| 0 <= i < q.len() implies is_first_sentence(
            #[trigger] q[i],
            q[i].len() as int,
        ) by {
            assert(q[i] == p[i]);
        }
        assert forall|i: int| 0 <= i < q.len() - 1 implies closed_sentence(#[trigger] q[i]) by {
            assert(q[i] == p[i]);
        }
        lemma_well_packed(q, size);
        assert(closed_sentence(p[q.len() - 1]));
        assert(q.last() == p[q.len() - 1]);
        assert(closed_sentence(current));
        let before = full.push(current);
        let all = f.push(c);
        if byte_len(current) + byte_len(sentence) > size && current.len() > 0 {
            assert(f == full.push(current));
            assert(c == sentence);
            assert forall|i: int| 0 <= i < f.len() implies closed_sentence(#[trigger] f[i]) by {
                if i < full.len() {
                    assert(f[i] == full[i]);
                }
            }
            assert forall|i: int| 0 <= i < all.len() implies byte_len(#[trigger] all[i]) <= size
                || is_first_sentence(all[i], all[i].len() as int) by {
                if i < before.len() {
                    assert(all[i] == before[i]);
                }
            }
            assert forall|i: int, k: int|
                0 <= i < f.len() && is_first_sentence(all[i + 1], k) implies byte_len(
                #[trigger] f[i],
            ) + byte_len(#[trigger] all[i + 1].take(k)) > size by {
                if i < full.len() {
                    assert(f[i] == full[i]);
                    assert(all[i + 1] == before[i + 1]);
                    assert(byte_len(full[i]) + byte_len(before[i + 1].take(k)) > size);
                } else {
                    assert(all[i + 1] == sentence);
                    if k < sentence.len() {
                        assert(sentence[k - 1] != '.');
                    }
                    assert(sentence.take(k) =~= sentence);
                }
            }
        } else {
            lemma_byte_len_concat(current, sentence);
            assert(f == full);
            assert(c == current + sentence);
            assert forall|i: int| 0 <= i < all.len() implies byte_len(#[trigger] all[i]) <= size
                || is_first_sentence(all[i], all[i].len() as int) by {
                if i < full.len() {
                    assert(all[i] == before[i]);
                }
            }
            assert forall|i: int, k: int|
                0 <= i < f.len() && is_first_sentence(all[i + 1], k) implies byte_len(
                #[trigger] f[i],
            ) + byte_len(#[trigger] all[i + 1].take(k)) > size by {
                if i < full.len() - 1 {
                    assert(all[i + 1] == before[i + 1]);
                    assert(byte_len(full[i]) + byte_len(before[i + 1].take(k)) > size);
                } else {
                    assert(all[i + 1] == c);
                    assert(before[i + 1] == current);
                    if k > current.len() {
                        assert(c[current.len() - 1] == current.last());
                    }
                    assert(k <= current.len());
                    assert(c[k - 1] == current[k - 1]);
                    assert forall|j: int| 0 <= j < k - 1 implies (#[trigger] current[j]) != '.'
                        && current[j] != '!' && current[j] != '?' by {
                        assert(c[j] == current[j]);
                    }
                    assert(is_first_sentence(before[i + 1], k));
                    assert(c.take(k) =~= current.take(k));
                    assert(byte_len(full[i]) + byte_len(before[i + 1].take(k)) > size);
                }
            }
        }
    }
}

proof fn lemma_all_fit(p: Seq<Seq<char>>, size: nat)
    requires
        byte_len(concat_all(p)) <= size,
    ensures
        pack(p, size) == (Seq::<Seq<char>>::empty(), concat_all(p)),
    decreases p.len(),
{
    if p.len() > 0 {
        lemma_byte_len_concat(concat_all(p.drop_last()), p.last());
        lemma_all_fit(p.drop_last(), size);
    }
}

/// A text is cut at the ends of sentences only: every chunk but the last ends with a full
/// stop, an exclamation mark or a question mark.
pub proof fn chunks_end_with_sentences(text: Seq<char>, size: nat, i: int)
    requires
        0 <= i < chunks(text, size).len() - 1,
    ensures
        chunks(text, size)[i].len() > 0,
        chunks(text, size)[i].last() == '.' || chunks(text, size)[i].last() == '!' || chunks(
            text,
            size,
        )[i].last() == '?',
{
    lemma_shapes(text);
    lemma_sentences(text);
    if text.len() > 0 {
        lemma_well_packed(sentences(text), size);
        assert(closed_sentence(pack(sentences(text), size).0[i]));
    }
}

/// Chunks are as full as they may be: the first sentence of a chunk, which are its first `k`
/// characters, would not have fitted into the chunk before it.
pub proof fn chunks_are_as_full_as_may_be(text: Seq<char>, size: nat, i: int, k: int)
    requires
        0 <= i < chunks(text, size).len() - 1,
        is_first_sentence(chunks(text, size)[i + 1], k),
    ensures
        byte_len(chunks(text, size)[i]) + byte_len(chunks(text, size)[i + 1].take(k)) > size,
{
    lemma_shapes(text);
    lemma_sentences(text);
    if text.len() > 0 {
        lemma_well_packed(sentences(text), size);
        let (full, current) = pack(sentences(text), size);
        assert(byte_len(full[i]) + byte_len(full.push(current)[i + 1].take(k)) > size);
    }
}

/// Only a sentence that is too long by itself makes a chunk too long: a chunk of more than
/// `size` bytes is one sentence, with nothing that ends a sentence before its last character.
pub proof fn long_chunks_are_one_sentence(text: Seq<char>, size: nat, i: int)
    requires
        0 <= i < chunks(text, size).len(),
        byte_len(chunks(text, size)[i]) > size,
    ensures
        is_first_sentence(chunks(text, size)[i], chunks(text, size)[i].len() as int),
{
    lemma_shapes(text);
    lemma_sentences(text);
    if text.len() > 0 {
        lemma_well_packed(sentences(text), size);
        let (full, current) = pack(sentences(text), size);
        assert(byte_len(full.push(current)[i]) > size);
    }
}

/// A text of at most `size` bytes is one chunk, and a text without characters is none.
pub proof fn short_texts_are_one_chunk(text: Seq<char>, size: nat)
    requires
        byte_len(text) <= size,
    ensures
        text.len() > 0 ==> chunks(text, size) == seq![text],
        text.len() == 0 ==> chunks(text, size).len() == 0,
{
    lemma_sentences(text);
    lemma_all_fit(sentences(text), size);
    if text.len() > 0 {
        assert(chunks(text, size) =~= seq![text]);
    }
}

/// The chunks that a text is split into are the text, one after the other; none is empty, and a
/// text that fits is left whole.
pub proof fn split_texts_stay_whole(text: &str, size: usize, r: Vec<String>)
    requires
        call_ensures(chunk_text, (text, size), r),
    ensures
        concat_all(texts(r@)) == text@,
        forall|i: int| 0 <= i < r@.len() ==> (#[trigger] r@[i])@.len() > 0,
        0 < byte_len(text@) <= size ==> r@.len() == 1 && r@[0]@ == text@,
{
    chunks_make_up_the_text(text@, size as nat);
    assert(texts(r@).len() == r@.len());
    assert forall|i: int| 0 <= i < r@.len() implies (#[trigger] r@[i])@.len() > 0 by {
        assert(texts(r@)[i] == r@[i]@);
    }
    if 0 < byte_len(text@) <= size {
        reveal_with_fuel(vstd::utf8::encode_utf8, 2);
        short_texts_are_one_chunk(text@, size as nat);
        assert(texts(r@)[0] == text@);
    }
}

} // verus!
