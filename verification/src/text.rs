//! Text handling: specifications over `Seq<char>` and the functions that meet them.

use vstd::prelude::*;

verus! {

/// The characters with the Unicode `White_Space` property.
pub open spec fn is_white_space(c: char) -> bool {
    ||| '\u{9}' <= c <= '\u{d}'
    ||| c == ' '
    ||| c == '\u{85}'
    ||| c == '\u{a0}'
    ||| c == '\u{1680}'
    ||| '\u{2000}' <= c <= '\u{200a}'
    ||| c == '\u{2028}'
    ||| c == '\u{2029}'
    ||| c == '\u{202f}'
    ||| c == '\u{205f}'
    ||| c == '\u{3000}'
}

/// Tells whether `c` is white space.
pub fn white_space(c: char) -> (r: bool)
    ensures
        r == is_white_space(c),
{
    ('\u{9}' <= c && c <= '\u{d}') || c == ' ' || c == '\u{85}' || c == '\u{a0}' || c == '\u{1680}'
        || ('\u{2000}' <= c && c <= '\u{200a}') || c == '\u{2028}' || c == '\u{2029}' || c
        == '\u{202f}' || c == '\u{205f}' || c == '\u{3000}'
}

/// `String::push`: appends one character to the text.
#[verifier::external_body]
pub(crate) fn push_char(s: &mut String, c: char)
    ensures
        final(s)@ == old(s)@.push(c),
{
    s.push(c);
}

/// The characters of `s`, in order.
pub fn chars_of(s: &str) -> (r: Vec<char>)
    ensures
        r@ == s@,
{
    let mut v: Vec<char> = Vec::new();
    for c in it: s.chars()
        invariant
            v@ == it.seq().take(it.index()),
            it.seq() == s@,
    {
        v.push(c);
    }
    v
}

/// The text made of the characters of `v` from `from` up to `to`.
pub fn string_of_range(v: &Vec<char>, from: usize, to: usize) -> (r: String)
    requires
        from <= to <= v.len(),
    ensures
        r@ == v@.subrange(from as int, to as int),
{
    let mut s = String::new();
    let mut i: usize = from;
    while i < to
        invariant
            from <= i <= to <= v.len(),
            s@ == v@.subrange(from as int, i as int),
        decreases to - i,
    {
        push_char(&mut s, v[i]);
        i = i + 1;
    }
    s
}

/// Tells whether two texts have the same characters.
pub fn same_text(a: &str, b: &str) -> (r: bool)
    ensures
        r == (a@ == b@),
{
    let x = a.to_owned();
    let y = b.to_owned();
    x == y
}


/// The length of a text in bytes of UTF-8.
pub open spec fn byte_len(s: Seq<char>) -> nat {
    vstd::utf8::encode_utf8(s).len()
}

/// The length of `s` in bytes.
pub fn len_in_bytes(s: &str) -> (r: usize)
    ensures
        r == byte_len(s@),
{
    s.as_bytes().len()
}

/// The concatenation of three texts.
pub fn concat3(a: &str, b: &str, c: &str) -> (r: String)
    ensures
        r@ == a@ + b@ + c@,
{
    let mut s = a.to_owned();
    s.append(b);
    s.append(c);
    s
}

/// The concatenation of two texts.
pub fn concat2(a: &str, b: &str) -> (r: String)
    ensures
        r@ == a@ + b@,
{
    let mut s = a.to_owned();
    s.append(b);
    s
}

/// The concatenation of four texts.
pub fn concat4(a: &str, b: &str, c: &str, d: &str) -> (r: String)
    ensures
        r@ == a@ + b@ + c@ + d@,
{
    let mut s = concat3(a, b, c);
    s.append(d);
    s
}

/// The concatenation of five texts.
pub fn concat5(a: &str, b: &str, c: &str, d: &str, e: &str) -> (r: String)
    ensures
        r@ == a@ + b@ + c@ + d@ + e@,
{
    let mut s = concat3(a, b, c);
    s.append(d);
    s.append(e);
    s
}

// ---------------------------------------------------------------------------
// Blank text and trimming
// ---------------------------------------------------------------------------

/// A text of white space only (the empty text is one).
pub open spec fn is_blank(s: Seq<char>) -> bool {
    forall|i: int| 0 <= i < s.len() ==> is_white_space(#[trigger] s[i])
}

/// Tells whether nothing is left of `s` once white space is trimmed.
pub fn blank(s: &str) -> (r: bool)
    ensures
        r == is_blank(s@),
{
    let v = chars_of(s);
    let mut i: usize = 0;
    while i < v.len()
        invariant
            i <= v.len(),
            v@ == s@,
            forall|j: int| 0 <= j < i ==> is_white_space(#[trigger] s@[j]),
        decreases v.len() - i,
    {
        if !white_space(v[i]) {
            return false;
        }
        i = i + 1;
    }
    true
}

/// A text without its leading white space.
pub open spec fn trim_start(s: Seq<char>) -> Seq<char>
    decreases s.len(),
{
    if s.len() > 0 && is_white_space(s[0]) {
        trim_start(s.skip(1))
    } else {
        s
    }
}

/// A text without its trailing white space.
pub open spec fn trim_end(s: Seq<char>) -> Seq<char>
    decreases s.len(),
{
    if s.len() > 0 && is_white_space(s.last()) {
        trim_end(s.drop_last())
    } else {
        s
    }
}

/// A text without the white space around it.
pub open spec fn trim(s: Seq<char>) -> Seq<char> {
    trim_end(trim_start(s))
}

/// The text `s` without the white space around it.
pub fn trimmed(s: &str) -> (r: String)
    ensures
        r@ == trim(s@),
{
    let v = chars_of(s);
    let n: usize = v.len();
    let mut i: usize = 0;
    proof {
        assert(s@.skip(0) =~= s@);
    }
    while i < n && white_space(v[i])
        invariant
            i <= n == v.len(),
            v@ == s@,
            trim_start(s@) == trim_start(s@.skip(i as int)),
        decreases n - i,
    {
        proof {
            assert(s@.skip(i as int).skip(1) =~= s@.skip(i + 1));
        }
        i = i + 1;
    }
    proof {
        assert(trim_start(s@.skip(i as int)) == s@.skip(i as int));
    }
    let ghost rest = s@.skip(i as int);
    let mut j: usize = n;
    proof {
        assert(v@.subrange(i as int, n as int) =~= rest);
    }
    while i < j && white_space(v[j - 1])
        invariant
            i <= j <= n == v.len(),
            trim_end(rest) == trim_end(v@.subrange(i as int, j as int)),
        decreases j,
    {
        proof {
            assert(v@.subrange(i as int, j as int).drop_last() =~= v@.subrange(i as int, j - 1));
        }
        j = j - 1;
    }
    string_of_range(&v, i, j)
}

/// A text without its leading line feeds.
pub open spec fn skip_line_feeds(s: Seq<char>) -> Seq<char>
    decreases s.len(),
{
    if s.len() > 0 && s[0] == '\n' {
        skip_line_feeds(s.skip(1))
    } else {
        s
    }
}

/// The index of the first character of `v`, from `from` on, that is no line feed.
pub fn after_line_feeds(v: &Vec<char>, from: usize) -> (r: usize)
    requires
        from <= v.len(),
    ensures
        from <= r <= v.len(),
        v@.skip(r as int) == skip_line_feeds(v@.skip(from as int)),
{
    let mut i: usize = from;
    while i < v.len() && v[i] == '\n'
        invariant
            from <= i <= v.len(),
            skip_line_feeds(v@.skip(from as int)) == skip_line_feeds(v@.skip(i as int)),
        decreases v.len() - i,
    {
        proof {
            assert(v@.skip(i as int).skip(1) =~= v@.skip(i + 1));
        }
        i = i + 1;
    }
    i
}

// ---------------------------------------------------------------------------
// Searching
// ---------------------------------------------------------------------------

/// `p` stands in `s` at position `i`.
pub open spec fn occurs_at(s: Seq<char>, p: Seq<char>, i: int) -> bool {
    0 <= i && i + p.len() <= s.len() && s.subrange(i, i + p.len()) == p
}

/// `p` stands somewhere in `s`.
pub open spec fn occurs_in(s: Seq<char>, p: Seq<char>) -> bool {
    exists|i: int| occurs_at(s, p, i)
}

/// `i` is the first position at which `p` stands in `s`.
pub open spec fn first_at(s: Seq<char>, p: Seq<char>, i: int) -> bool {
    occurs_at(s, p, i) && forall|j: int| j < i ==> !occurs_at(s, p, j)
}

/// `s` begins with `p`.
pub open spec fn starts_with(s: Seq<char>, p: Seq<char>) -> bool {
    occurs_at(s, p, 0)
}

/// Tells whether `p` stands in `s` at position `i`.
pub fn stands_at(s: &Vec<char>, p: &Vec<char>, i: usize) -> (r: bool)
    ensures
        r == occurs_at(s@, p@, i as int),
{
    if i > s.len() || p.len() > s.len() - i {
        return false;
    }
    let mut k: usize = 0;
    while k < p.len()
        invariant
            k <= p.len(),
            i + p.len() <= s.len(),
            forall|j: int| 0 <= j < k ==> s@[i + j] == p@[j],
        decreases p.len() - k,
    {
        if s[i + k] != p[k] {
            proof {
                assert(s@.subrange(i as int, i + p@.len())[k as int] != p@[k as int]);
            }
            return false;
        }
        k = k + 1;
    }
    proof {
        assert(s@.subrange(i as int, i + p@.len()) =~= p@);
    }
    true
}

/// The first position of `p` in `s`.
pub fn find(s: &Vec<char>, p: &Vec<char>) -> (r: Option<usize>)
    ensures
        match r {
            Some(i) => first_at(s@, p@, i as int),
            None => !occurs_in(s@, p@),
        },
{
    let mut i: usize = 0;
    while i < s.len()
        invariant
            i <= s.len(),
            forall|j: int| j < i ==> !occurs_at(s@, p@, j),
        decreases s.len() - i,
    {
        if stands_at(s, p, i) {
            return Some(i);
        }
        i = i + 1;
    }
    if stands_at(s, p, i) {
        return Some(i);
    }
    None
}

/// Tells whether `p` stands somewhere in `s`.
pub fn contains(s: &str, p: &str) -> (r: bool)
    ensures
        r == occurs_in(s@, p@),
{
    let sv = chars_of(s);
    let pv = chars_of(p);
    find(&sv, &pv).is_some()
}

/// Tells whether `s` begins with `p`.
pub fn begins_with(s: &str, p: &str) -> (r: bool)
    ensures
        r == starts_with(s@, p@),
{
    let sv = chars_of(s);
    let pv = chars_of(p);
    stands_at(&sv, &pv, 0)
}

// ---------------------------------------------------------------------------
// Splitting and joining
// ---------------------------------------------------------------------------

/// The pieces between the characters that `sep` picks; there is always at least one.
pub open spec fn split_where(s: Seq<char>, sep: spec_fn(char) -> bool) -> Seq<Seq<char>>
    decreases s.len(),
{
    if s.len() == 0 {
        seq![Seq::<char>::empty()]
    } else {
        let before = split_where(s.drop_last(), sep);
        if sep(s.last()) {
            before.push(Seq::<char>::empty())
        } else {
            before.drop_last().push(before.last().push(s.last()))
        }
    }
}

/// Picks the character `c` alone.
pub open spec fn only(c: char) -> spec_fn(char) -> bool {
    |x: char| x == c
}

/// The pieces of `s` between the occurrences of `c`.
pub open spec fn split_on(s: Seq<char>, c: char) -> Seq<Seq<char>> {
    split_where(s, only(c))
}

/// The pieces that are not empty, in order.
pub open spec fn without_empty(p: Seq<Seq<char>>) -> Seq<Seq<char>>
    decreases p.len(),
{
    if p.len() == 0 {
        p
    } else if p.last().len() == 0 {
        without_empty(p.drop_last())
    } else {
        without_empty(p.drop_last()).push(p.last())
    }
}

/// The words of `s`: its pieces between white space, none empty.
pub open spec fn words(s: Seq<char>) -> Seq<Seq<char>> {
    without_empty(split_where(s, |c: char| is_white_space(c)))
}

/// What a list of texts stands for.
pub open spec fn texts(v: Seq<String>) -> Seq<Seq<char>> {
    Seq::new(v.len(), |i: int| v[i]@)
}

/// The pieces, one after the other, with `sep` between them.
pub open spec fn join(p: Seq<Seq<char>>, sep: Seq<char>) -> Seq<char>
    decreases p.len(),
{
    if p.len() == 0 {
        Seq::<char>::empty()
    } else if p.len() == 1 {
        p[0]
    } else {
        join(p.drop_last(), sep) + sep + p.last()
    }
}

/// There is always at least one piece.
pub proof fn lemma_split_some(s: Seq<char>, sep: spec_fn(char) -> bool)
    ensures
        split_where(s, sep).len() >= 1,
    decreases s.len(),
{
    if s.len() > 0 {
        lemma_split_some(s.drop_last(), sep);
    }
}

/// Splits `s` at the characters that `sep` picks.
pub(crate) fn pieces_where<F: Fn(char) -> bool>(
    s: &str,
    sep: F,
    Ghost(p): Ghost<spec_fn(char) -> bool>,
) -> (r: Vec<String>)
    requires
        forall|c: char| call_requires(sep, (c,)),
        forall|c: char, b: bool| call_ensures(sep, (c,), b) ==> b == p(c),
    ensures
        texts(r@) == split_where(s@, p),
{
    let v = chars_of(s);
    let mut out: Vec<String> = Vec::new();
    let mut cur = String::new();
    let mut i: usize = 0;
    proof {
        assert(s@.take(0) =~= Seq::<char>::empty());
        assert(texts(out@).push(cur@) =~= split_where(s@.take(0), p));
    }
    while i < v.len()
        invariant
            i <= v.len(),
            v@ == s@,
            forall|c: char| call_requires(sep, (c,)),
            forall|c: char, b: bool| call_ensures(sep, (c,), b) ==> b == p(c),
            texts(out@).push(cur@) == split_where(s@.take(i as int), p),
        decreases v.len() - i,
    {
        let c = v[i];
        let ghost before = split_where(s@.take(i as int), p);
        proof {
            assert(s@.take(i + 1).drop_last() =~= s@.take(i as int));
            assert(s@.take(i + 1).last() == c);
            assert(before.drop_last() =~= texts(out@));
        }
        if sep(c) {
            let ghost o = out@;
            out.push(cur);
            cur = String::new();
            proof {
                assert(texts(out@) =~= before);
                assert(texts(out@).push(cur@) =~= split_where(s@.take(i + 1), p));
            }
        } else {
            push_char(&mut cur, c);
            proof {
                assert(texts(out@).push(cur@) =~= split_where(s@.take(i + 1), p));
            }
        }
        i = i + 1;
    }
    let ghost o = out@;
    out.push(cur);
    proof {
        assert(s@.take(s@.len() as int) =~= s@);
        assert(texts(out@) =~= texts(o).push(cur@));
    }
    out
}

/// The pieces of `s` between the occurrences of `c`.
pub fn pieces_on(s: &str, c: char) -> (r: Vec<String>)
    ensures
        texts(r@) == split_on(s@, c),
{
    let f = |x: char| -> (b: bool)
        ensures
            b == (x == c),
        { x == c };
    pieces_where(s, f, Ghost(only(c)))
}

/// The texts of `v` that are not empty, in order.
pub fn keep_nonempty(v: Vec<String>) -> (r: Vec<String>)
    ensures
        texts(r@) == without_empty(texts(v@)),
{
    let mut out: Vec<String> = Vec::new();
    let mut i: usize = 0;
    proof {
        assert(texts(v@).take(0) =~= Seq::<Seq<char>>::empty());
        assert(texts(out@) =~= Seq::<Seq<char>>::empty());
    }
    while i < v.len()
        invariant
            i <= v.len(),
            texts(out@) == without_empty(texts(v@).take(i as int)),
        decreases v.len() - i,
    {
        proof {
            assert(texts(v@).take(i + 1).drop_last() =~= texts(v@).take(i as int));
            assert(texts(v@).take(i + 1).last() == v@[i as int]@);
        }
        let ghost o = out@;
        if !is_empty_text(v[i].as_str()) {
            out.push(v[i].clone());
            proof {
                assert(texts(out@) =~= texts(o).push(v@[i as int]@));
            }
        }
        i = i + 1;
    }
    proof {
        assert(texts(v@).take(v@.len() as int) =~= texts(v@));
    }
    out
}

/// Tells whether `s` has no characters.
pub fn is_empty_text(s: &str) -> (r: bool)
    ensures
        r == (s@.len() == 0),
{
    let v = chars_of(s);
    v.len() == 0
}

/// The words of `s`.
pub fn words_of(s: &str) -> (r: Vec<String>)
    ensures
        texts(r@) == words(s@),
{
    let f = |x: char| -> (b: bool)
        ensures
            b == is_white_space(x),
        { white_space(x) };
    keep_nonempty(pieces_where(s, f, Ghost(|c: char| is_white_space(c))))
}

/// Joins the texts of `v` with `sep` between them.
pub fn joined(v: &Vec<String>, sep: &str) -> (r: String)
    ensures
        r@ == join(texts(v@), sep@),
{
    let mut s = String::new();
    let mut i: usize = 0;
    while i < v.len()
        invariant
            i <= v.len(),
            s@ == join(texts(v@).take(i as int), sep@),
        decreases v.len() - i,
    {
        proof {
            assert(texts(v@).take(i + 1).drop_last() =~= texts(v@).take(i as int));
            assert(texts(v@).take(i + 1).last() == v@[i as int]@);
        }
        if i > 0 {
            s.append(sep);
        }
        s.append(v[i].as_str());
        proof {
            assert(Seq::<char>::empty() + v@[i as int]@ =~= v@[i as int]@);
        }
        i = i + 1;
    }
    proof {
        assert(texts(v@).take(v@.len() as int) =~= texts(v@));
    }
    s
}

// ---------------------------------------------------------------------------
// Case
// ---------------------------------------------------------------------------

/// The ASCII upper case of a character; all but `a` to `z` stay as they are.
pub open spec fn ascii_upper(c: char) -> char {
    if 'a' <= c <= 'z' {
        (c as u32 - 32) as char
    } else {
        c
    }
}

/// The ASCII lower case of a character; all but `A` to `Z` stay as they are.
pub open spec fn ascii_lower(c: char) -> char {
    if 'A' <= c <= 'Z' {
        (c as u32 + 32) as char
    } else {
        c
    }
}

/// Whether `char::is_alphanumeric` holds of a character beyond ASCII.
pub uninterp spec fn is_alphanumeric(c: char) -> bool;

/// A letter or a number: the digits and the letters of ASCII, and beyond ASCII what
/// `char::is_alphanumeric` holds of.
pub open spec fn letter_or_digit(c: char) -> bool {
    if c <= '\u{7f}' {
        '0' <= c <= '9' || 'a' <= c <= 'z' || 'A' <= c <= 'Z'
    } else {
        is_alphanumeric(c)
    }
}

/// `char::is_alphanumeric`: letters and numbers as Unicode defines them; of the ASCII
/// characters these are the digits and the letters.
#[verifier::external_body]
pub(crate) fn alphanumeric(c: char) -> (r: bool)
    ensures
        c > '\u{7f}' ==> r == is_alphanumeric(c),
        r == letter_or_digit(c),
{
    c.is_alphanumeric()
}

/// What `str::to_lowercase` makes of a text that is not all ASCII.
pub uninterp spec fn lowercase_of(s: Seq<char>) -> Seq<char>;

/// A text in lower case: ASCII text changes in its letters `A` to `Z` only, other text as
/// `str::to_lowercase` has it.
pub open spec fn lower_case(s: Seq<char>) -> Seq<char> {
    if vstd::utf8::is_ascii_chars(s) {
        s.map_values(|c: char| ascii_lower(c))
    } else {
        lowercase_of(s)
    }
}

/// `str::to_lowercase`: the Unicode lower case of a text; ASCII text changes in its letters
/// `A` to `Z` only.
#[verifier::external_body]
pub(crate) fn lowercase(s: &str) -> (r: String)
    ensures
        !vstd::utf8::is_ascii_chars(s@) ==> r@ == lowercase_of(s@),
        r@ == lower_case(s@),
{
    s.to_lowercase()
}

/// The ASCII upper case of `c`.
pub fn to_ascii_upper(c: char) -> (r: char)
    ensures
        r == ascii_upper(c),
{
    if 'a' <= c && c <= 'z' {
        (c as u8 - 32) as char
    } else {
        c
    }
}

/// The text `s` in ASCII upper case.
pub fn ascii_uppercase(s: &str) -> (r: String)
    ensures
        r@ == s@.map_values(|c: char| ascii_upper(c)),
{
    let v = chars_of(s);
    let mut out = String::new();
    let mut i: usize = 0;
    while i < v.len()
        invariant
            i <= v.len(),
            v@ == s@,
            out@.len() == i,
            forall|j: int| 0 <= j < i ==> #[trigger] out@[j] == ascii_upper(s@[j]),
        decreases v.len() - i,
    {
        push_char(&mut out, to_ascii_upper(v[i]));
        i = i + 1;
    }
    proof {
        assert(out@ =~= s@.map_values(|c: char| ascii_upper(c)));
    }
    out
}

// ---------------------------------------------------------------------------
// Decimal numbers
// ---------------------------------------------------------------------------

/// The digit for a number below ten.
pub open spec fn digit(d: nat) -> char {
    ('0' as u32 + d) as char
}

/// A number written in decimal.
pub open spec fn decimal(n: nat) -> Seq<char>
    decreases n,
{
    if n < 10 {
        seq![digit(n)]
    } else {
        decimal(n / 10).push(digit(n % 10))
    }
}

/// A decimal digit.
pub open spec fn is_digit(c: char) -> bool {
    '0' <= c <= '9'
}

/// A text of decimal digits only.
pub open spec fn all_digits(s: Seq<char>) -> bool {
    forall|i: int| 0 <= i < s.len() ==> is_digit(#[trigger] s[i])
}

/// The number that a row of decimal digits stands for.
pub open spec fn digits_value(s: Seq<char>) -> nat
    decreases s.len(),
{
    if s.len() == 0 {
        0
    } else {
        digits_value(s.drop_last()) * 10 + (s.last() as nat - '0' as nat) as nat
    }
}

/// What an unsigned number of at most `max` reads as: an optional plus sign, then at least
/// one digit, and nothing else.
pub open spec fn parse_unsigned(s: Seq<char>, max: nat) -> Option<nat> {
    let d = if s.len() > 0 && s[0] == '+' {
        s.skip(1)
    } else {
        s
    };
    if d.len() > 0 && all_digits(d) && digits_value(d) <= max {
        Some(digits_value(d))
    } else {
        None
    }
}

/// A number written in decimal is made of digits and reads back as itself.
pub proof fn lemma_decimal_reads_back(n: nat)
    ensures
        decimal(n).len() >= 1,
        all_digits(decimal(n)),
        digits_value(decimal(n)) == n,
    decreases n,
{
    reveal_with_fuel(digits_value, 2);
    if n >= 10 {
        lemma_decimal_reads_back(n / 10);
        assert(decimal(n).drop_last() =~= decimal(n / 10));
    } else {
        assert(decimal(n).drop_last() =~= Seq::<char>::empty());
    }
}

/// Different numbers are written differently.
pub proof fn lemma_decimal_injective(m: nat, n: nat)
    requires
        decimal(m) == decimal(n),
    ensures
        m == n,
{
    lemma_decimal_reads_back(m);
    lemma_decimal_reads_back(n);
}

/// Writes `n` in decimal.
pub fn decimal_text(n: u64) -> (r: String)
    ensures
        r@ == decimal(n as nat),
    decreases n,
{
    let d = (48u8 + (n % 10) as u8) as char;
    let mut s = if n < 10 {
        String::new()
    } else {
        decimal_text(n / 10)
    };
    push_char(&mut s, d);
    proof {
        assert(s@ =~= decimal(n as nat));
    }
    s
}

/// A whole number written in decimal, with a minus sign where it is negative.
pub open spec fn signed_decimal(n: int) -> Seq<char> {
    if n < 0 {
        "-"@ + decimal((-n) as nat)
    } else {
        decimal(n as nat)
    }
}

/// Writes `n` in decimal.
pub fn signed_decimal_text(n: i32) -> (r: String)
    ensures
        r@ == signed_decimal(n as int),
{
    if n < 0 {
        let m: i64 = -(n as i64);
        let d = decimal_text(m as u64);
        concat2("-", d.as_str())
    } else {
        decimal_text(n as u64)
    }
}

/// Prefixes of a row of digits stand for no larger numbers.
proof fn lemma_prefix_value(s: Seq<char>, i: int)
    requires
        0 <= i <= s.len(),
        all_digits(s),
    ensures
        digits_value(s.take(i)) <= digits_value(s),
    decreases s.len() - i,
{
    if i == s.len() {
        assert(s.take(i) =~= s);
    } else {
        lemma_prefix_value(s, i + 1);
        assert(s.take(i + 1).drop_last() =~= s.take(i));
        assert(s.take(i + 1).last() == s[i]);
    }
}

/// Reads an unsigned number of at most `max`.
pub fn read_unsigned(s: &str, max: u64) -> (r: Option<u64>)
    ensures
        match r {
            Some(n) => parse_unsigned(s@, max as nat) == Some(n as nat),
            None => parse_unsigned(s@, max as nat) is None,
        },
{
    let v = chars_of(s);
    let start: usize = if v.len() > 0 && v[0] == '+' {
        1
    } else {
        0
    };
    let ghost d = s@.skip(start as int);
    proof {
        assert(s@.skip(0) =~= s@);
    }
    if v.len() == start {
        return None;
    }
    let mut n: u64 = 0;
    let mut i: usize = start;
    proof {
        assert(d.take(0) =~= Seq::<char>::empty());
    }
    while i < v.len()
        invariant
            start <= i <= v.len(),
            v@ == s@,
            d == s@.skip(start as int),
            forall|j: int| 0 <= j < i - start ==> is_digit(#[trigger] d[j]),
            n == digits_value(d.take(i - start)),
            n <= max,
            parse_unsigned(s@, max as nat) == (if d.len() > 0 && all_digits(d) && digits_value(d)
                <= max {
                Some(digits_value(d))
            } else {
                None
            }),
        decreases v.len() - i,
    {
        let c = v[i];
        let ghost k = i - start;
        proof {
            assert(d[k] == c);
            assert(d.take(k + 1).drop_last() =~= d.take(k));
            assert(d.take(k + 1).last() == c);
        }
        if c < '0' || c > '9' {
            return None;
        }
        let x: u64 = (c as u8 - 48u8) as u64;
        if x > max || n > max / 10 || n * 10 > max - x {
            proof {
                assert(digits_value(d.take(k + 1)) > max);
                if all_digits(d) {
                    lemma_prefix_value(d, k + 1);
                }
            }
            return None;
        }
        n = n * 10 + x;
        i = i + 1;
    }
    proof {
        assert(d.take(d.len() as int) =~= d);
    }
    Some(n)
}

// ---------------------------------------------------------------------------
// Laws
// ---------------------------------------------------------------------------

/// Space, tab, line feed and carriage return are white space; letters, digits and the other
/// visible characters of ASCII are not.
pub proof fn spaces_are_white_space(c: char)
    ensures
        is_white_space(' '),
        is_white_space('\t'),
        is_white_space('\n'),
        is_white_space('\r'),
        '!' <= c <= '~' ==> !is_white_space(c),
{
}

proof fn lemma_trim_start(before: Seq<char>, rest: Seq<char>)
    requires
        is_blank(before),
        rest.len() == 0 || !is_white_space(rest[0]),
    ensures
        trim_start(before + rest) == rest,
    decreases before.len(),
{
    if before.len() > 0 {
        let b = before.skip(1);
        assert forall|i: int| 0 <= i < b.len() implies is_white_space(#[trigger] b[i]) by {
            assert(b[i] == before[i + 1]);
        }
        assert((before + rest)[0] == before[0]);
        assert((before + rest).skip(1) =~= b + rest);
        lemma_trim_start(b, rest);
    } else {
        assert(before + rest =~= rest);
    }
}

proof fn lemma_trim_end(rest: Seq<char>, after: Seq<char>)
    requires
        is_blank(after),
        rest.len() == 0 || !is_white_space(rest.last()),
    ensures
        trim_end(rest + after) == rest,
    decreases after.len(),
{
    if after.len() > 0 {
        let a = after.drop_last();
        assert forall|i: int| 0 <= i < a.len() implies is_white_space(#[trigger] a[i]) by {
            assert(a[i] == after[i]);
        }
        assert((rest + after).last() == after[after.len() - 1]);
        assert((rest + after).drop_last() =~= rest + a);
        lemma_trim_end(rest, a);
    } else {
        assert(rest + after =~= rest);
    }
}

/// Trimming takes off the white space on both sides, all of it, and nothing else.
pub proof fn trimming_takes_off_white_space(
    before: Seq<char>,
    text: Seq<char>,
    after: Seq<char>,
)
    requires
        is_blank(before),
        is_blank(after),
        text.len() > 0 ==> !is_white_space(text[0]) && !is_white_space(text.last()),
    ensures
        trim(before + text + after) == text,
{
    if text.len() == 0 {
        let all = before + text + after;
        assert forall|i: int| 0 <= i < all.len() implies is_white_space(#[trigger] all[i]) by {
            if i < before.len() {
                assert(all[i] == before[i]);
            } else {
                assert(all[i] == after[i - before.len()]);
            }
        }
        lemma_trim_start(all, Seq::empty());
        assert(all + Seq::<char>::empty() =~= all);
        assert(trim(all) =~= text);
    } else {
        assert(before + text + after =~= before + (text + after));
        assert((text + after)[0] == text[0]);
        lemma_trim_start(before, text + after);
        lemma_trim_end(text, after);
    }
}

/// Leading line feeds are skipped, all of them and nothing else.
pub proof fn only_line_feeds_are_skipped(feeds: Seq<char>, rest: Seq<char>)
    requires
        forall|i: int| 0 <= i < feeds.len() ==> #[trigger] feeds[i] == '\n',
        rest.len() > 0 ==> rest[0] != '\n',
    ensures
        skip_line_feeds(feeds + rest) == rest,
    decreases feeds.len(),
{
    if feeds.len() > 0 {
        let f = feeds.skip(1);
        assert forall|i: int| 0 <= i < f.len() implies #[trigger] f[i] == '\n' by {
            assert(f[i] == feeds[i + 1]);
        }
        assert((feeds + rest)[0] == feeds[0]);
        assert((feeds + rest).skip(1) =~= f + rest);
        only_line_feeds_are_skipped(f, rest);
    } else {
        assert(feeds + rest =~= rest);
    }
}

/// A text stands in another where that is made of something, the text, and something else; it
/// begins another that goes on behind it.
pub proof fn texts_stand_where_they_are_put(before: Seq<char>, p: Seq<char>, after: Seq<char>)
    ensures
        occurs_at(before + p + after, p, before.len() as int),
        occurs_in(before + p + after, p),
        starts_with(p + after, p),
{
    let s = before + p + after;
    let i = before.len() as int;
    assert(s.subrange(i, i + p.len()) =~= p);
    assert((p + after).subrange(0, p.len() as int) =~= p);
}

/// Where a text stands in another, that is made of what is before it, the text, and what is
/// behind it.
pub proof fn texts_are_put_where_they_stand(s: Seq<char>, p: Seq<char>, i: int)
    requires
        occurs_at(s, p, i),
    ensures
        0 <= i <= s.len() - p.len(),
        s == s.take(i) + p + s.skip(i + p.len()),
        occurs_in(s, p),
{
    assert(s =~= s.take(i) + s.subrange(i, i + p.len()) + s.skip(i + p.len()));
}

/// The pieces of a text hold no separator and, joined by it, are the text; there is one more
/// of them than there are separators.
pub proof fn pieces_make_up_the_text(s: Seq<char>, c: char, i: int, j: int)
    ensures
        split_on(s, c).len() >= 1,
        join(split_on(s, c), seq![c]) == s,
        0 <= i < split_on(s, c).len() && 0 <= j < split_on(s, c)[i].len() ==> split_on(s, c)[i][j]
            != c,
    decreases s.len(),
{
    let p = split_on(s, c);
    if s.len() == 0 {
        assert(join(p, seq![c]) =~= s);
    } else {
        let t = s.drop_last();
        pieces_make_up_the_text(t, c, i, j);
        let q = split_on(t, c);
        assert(t.push(s.last()) =~= s);
        if s.last() == c {
            assert(p == q.push(Seq::<char>::empty()));
            assert(p.drop_last() =~= q);
            assert(join(p, seq![c]) =~= t + seq![c] + Seq::<char>::empty());
            assert(join(p, seq![c]) =~= s);
        } else {
            let l = q.last().push(s.last());
            assert(p == q.drop_last().push(l));
            assert(p.drop_last() =~= q.drop_last());
            if q.len() > 1 {
                assert(join(p, seq![c]) =~= join(q.drop_last(), seq![c]) + seq![c] + l);
                assert(join(q, seq![c]) =~= join(q.drop_last(), seq![c]) + seq![c] + q.last());
                assert(join(p, seq![c]) =~= t.push(s.last()));
            } else {
                assert(join(p, seq![c]) == l);
                assert(join(q, seq![c]) == q.last());
            }
            if 0 <= i < p.len() && 0 <= j < p[i].len() {
                if i < q.len() - 1 {
                    assert(p[i] == q[i]);
                } else if j < q.last().len() {
                    assert(p[i][j] == q[i][j]);
                }
            }
        }
    }
}

/// Behind a separator the pieces go on: those of what is before it, then those of what is
/// behind it. What holds no separator is one piece.
pub proof fn pieces_go_on_behind_a_separator(a: Seq<char>, c: char, b: Seq<char>)
    requires
        forall|i: int| 0 <= i < b.len() ==> #[trigger] b[i] != c,
    ensures
        split_on(a.push(c) + b, c) == split_on(a, c).push(b),
        split_on(b, c) == seq![b],
{
    lemma_pieces_go_on(a, c, b, only(c));
}

/// Joined texts stand in order, with the separator before each but the first.
pub proof fn joined_texts_stand_in_order(p: Seq<Seq<char>>, sep: Seq<char>, t: Seq<char>)
    ensures
        join(Seq::empty(), sep) == Seq::<char>::empty(),
        p.len() == 0 ==> join(p.push(t), sep) == t,
        p.len() > 0 ==> join(p.push(t), sep) == join(p, sep) + sep + t,
{
    assert(p.push(t).drop_last() =~= p);
}

/// No word is empty or holds white space.
pub proof fn words_hold_no_white_space(s: Seq<char>, i: int, j: int)
    requires
        0 <= i < words(s).len(),
    ensures
        words(s)[i].len() > 0,
        0 <= j < words(s)[i].len() ==> !is_white_space(words(s)[i][j]),
{
    let sep = |c: char| is_white_space(c);
    lemma_pieces_apart(s, sep);
    lemma_without_empty(split_where(s, sep), i);
    let k = choose|k: int|
        0 <= k < split_where(s, sep).len() && split_where(s, sep)[k] == words(s)[i];
    if 0 <= j < words(s)[i].len() {
        assert(!sep(split_where(s, sep)[k][j]));
    }
}

proof fn lemma_pieces_apart(s: Seq<char>, sep: spec_fn(char) -> bool)
    ensures
        forall|i: int, j: int|
            0 <= i < split_where(s, sep).len() && 0 <= j < split_where(s, sep)[i].len() ==> !sep(
                #[trigger] split_where(s, sep)[i][j],
            ),
    decreases s.len(),
{
    if s.len() > 0 {
        let t = s.drop_last();
        lemma_pieces_apart(t, sep);
        lemma_split_some(t, sep);
        let p = split_where(s, sep);
        let q = split_where(t, sep);
        assert forall|i: int, j: int| 0 <= i < p.len() && 0 <= j < p[i].len() implies !sep(
            #[trigger] p[i][j],
        ) by {
            if sep(s.last()) {
                assert(i < q.len());
                assert(p[i][j] == q[i][j]);
            } else if i < q.len() - 1 {
                assert(p[i][j] == q[i][j]);
            } else if j < q.last().len() {
                assert(p[i][j] == q[i][j]);
            }
        }
    }
}

proof fn lemma_without_empty(p: Seq<Seq<char>>, i: int)
    requires
        0 <= i < without_empty(p).len(),
    ensures
        without_empty(p)[i].len() > 0,
        exists|k: int| 0 <= k < p.len() && p[k] == without_empty(p)[i],
    decreases p.len(),
{
    let q = p.drop_last();
    if i < without_empty(q).len() {
        lemma_without_empty(q, i);
        let k = choose|k: int| 0 <= k < q.len() && q[k] == without_empty(q)[i];
        assert(p[k] == without_empty(p)[i]);
    } else {
        assert(p[p.len() - 1] == without_empty(p)[i]);
    }
}

/// The words of a text are those that it begins with, then those behind the white space: each
/// word once, in order. A text of visible characters only is one word.
pub proof fn words_stand_in_order(a: Seq<char>, c: char, w: Seq<char>)
    requires
        is_white_space(c),
        forall|i: int| 0 <= i < w.len() ==> !is_white_space(#[trigger] w[i]),
    ensures
        words(Seq::empty()) == Seq::<Seq<char>>::empty(),
        w.len() > 0 ==> words(a.push(c) + w) == words(a).push(w),
        w.len() == 0 ==> words(a.push(c) + w) == words(a),
        w.len() > 0 ==> words(w) == seq![w],
{
    let sep = |x: char| is_white_space(x);
    lemma_pieces_go_on(a, c, w, sep);
    let p = split_where(a, sep);
    assert(p.push(w).drop_last() =~= p);
    let none = seq![Seq::<char>::empty()];
    assert(split_where(Seq::<char>::empty(), sep) == none);
    assert(none.drop_last() =~= Seq::<Seq<char>>::empty());
    reveal_with_fuel(without_empty, 2);
    assert(without_empty(none) =~= Seq::<Seq<char>>::empty());
    if w.len() > 0 {
        assert(seq![w].drop_last() =~= Seq::<Seq<char>>::empty());
        assert(words(w) =~= seq![w]);
    }
}

/// Behind a separator the pieces go on with what is there, and what holds none is one piece.
pub proof fn lemma_pieces_go_on(a: Seq<char>, c: char, b: Seq<char>, sep: spec_fn(char) -> bool)
    requires
        sep(c),
        forall|i: int| 0 <= i < b.len() ==> !sep(#[trigger] b[i]),
    ensures
        split_where(a.push(c) + b, sep) == split_where(a, sep).push(b),
        split_where(b, sep) == seq![b],
    decreases b.len(),
{
    if b.len() == 0 {
        assert(b =~= Seq::<char>::empty());
        assert(a.push(c) + b =~= a.push(c));
        assert(a.push(c).drop_last() =~= a);
        assert(split_where(a.push(c), sep) =~= split_where(a, sep).push(b));
        assert(split_where(b, sep) =~= seq![b]);
    } else {
        let t = b.drop_last();
        assert forall|i: int| 0 <= i < t.len() implies !sep(#[trigger] t[i]) by {
            assert(t[i] == b[i]);
        }
        assert(!sep(b[b.len() - 1]));
        lemma_pieces_go_on(a, c, t, sep);
        let s = a.push(c) + b;
        assert(s.drop_last() =~= a.push(c) + t);
        assert(s.last() == b.last());
        assert(t.push(b.last()) =~= b);
        assert(split_where(s, sep) =~= split_where(a, sep).push(b));
        assert(split_where(b, sep) =~= seq![b]);
    }
}

/// The upper case of a letter from `a` to `z` is 32 below it, the lower case of one from `A`
/// to `Z` 32 above it, and nothing else changes.
pub proof fn cases_are_32_apart(c: char)
    ensures
        'a' <= c <= 'z' ==> ascii_upper(c) as u32 + 32 == c as u32,
        !('a' <= c <= 'z') ==> ascii_upper(c) == c,
        'A' <= c <= 'Z' ==> ascii_lower(c) as u32 == c as u32 + 32,
        !('A' <= c <= 'Z') ==> ascii_lower(c) == c,
        ascii_lower(ascii_upper(c)) == ascii_lower(c),
        ascii_upper(ascii_lower(c)) == ascii_upper(c),
{
}

/// A number is written in ten digits, with no zero before it.
pub proof fn numbers_are_written_in_ten_digits(n: nat, d: nat)
    requires
        d < 10,
    ensures
        decimal(d).len() == 1,
        decimal(d)[0] as u32 == 48 + d,
        n > 0 ==> decimal(10 * n + d) == decimal(n) + decimal(d),
{
    if n > 0 {
        assert((10 * n + d) / 10 == n && (10 * n + d) % 10 == d) by (nonlinear_arith)
            requires
                d < 10,
        ;
        assert(decimal(10 * n + d) =~= decimal(n) + decimal(d));
    }
}

/// A number of at most `max` reads back as itself, with or without a plus sign, and a larger
/// one is refused; so are a text without digits and a text with anything that is no digit.
pub proof fn numbers_are_read(n: nat, max: nat, s: Seq<char>, i: int)
    ensures
        parse_unsigned(decimal(n), max) == if n <= max {
            Some(n)
        } else {
            None
        },
        parse_unsigned(seq!['+'] + decimal(n), max) == parse_unsigned(decimal(n), max),
        parse_unsigned(Seq::empty(), max) is None,
        0 < i < s.len() && !('0' <= s[i] <= '9') ==> parse_unsigned(s, max) is None,
        s.len() > 0 && s[0] != '+' && !('0' <= s[0] <= '9') ==> parse_unsigned(s, max) is None,
        s == seq!['+'] ==> parse_unsigned(s, max) is None,
{
    lemma_decimal_reads_back(n);
    let d = decimal(n);
    assert(is_digit(d[0]));
    assert((seq!['+'] + d).skip(1) =~= d);
    if 0 < i < s.len() && !('0' <= s[i] <= '9') {
        if s[0] == '+' {
            assert(s.skip(1)[i - 1] == s[i]);
        }
    }
    if s == seq!['+'] {
        assert(s.skip(1).len() == 0);
    }
}

/// A negative number is written with a minus sign before it.
pub proof fn negative_numbers_have_a_sign(n: nat)
    ensures
        signed_decimal(n as int) == decimal(n),
        n > 0 ==> signed_decimal(-(n as int)) == seq!['-'] + decimal(n),
{
    reveal_strlit("-");
    assert("-"@ =~= seq!['-']);
}

} // verus!
