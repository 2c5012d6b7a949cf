//! JSON values.

use crate::text::same_text;
use vstd::prelude::*;

verus! {

/// A JSON number.
///
/// A number with a fraction or an exponent is held by the bits of its 64-bit floating point
/// form; a quotient of two integers stands for the value of their division.
#[derive(Debug, Clone, Copy)]
pub enum JsonNumber {
    PosInt(u64),
    NegInt(i64),
    Float { bits: u64 },
    Quotient { numerator: u64, denominator: u64 },
}

/// The bits of negative zero.
pub const NEGATIVE_ZERO_BITS: u64 = 0x8000_0000_0000_0000;

impl View for JsonNumber {
    type V = JsonNumber;

    /// The number itself, where negative zero counts as zero.
    open spec fn view(&self) -> JsonNumber {
        match *self {
            JsonNumber::Float { bits } => JsonNumber::Float {
                bits: if bits == NEGATIVE_ZERO_BITS {
                    0
                } else {
                    bits
                },
            },
            other => other,
        }
    }
}

/// A JSON value.
#[derive(Debug)]
pub enum JsonValue {
    Null,
    Bool(bool),
    Number(JsonNumber),
    String(String),
    Array(Vec<JsonValue>),
    Object(JsonMap),
}

/// A map from keys to JSON values, each key at most once.
#[derive(Debug)]
pub struct JsonMap {
    entries: Vec<(String, JsonValue)>,
}

/// The mathematical model of a JSON value.
#[verifier::ext_equal]
pub enum Json {
    Null,
    Bool(bool),
    Number(JsonNumber),
    Text(Seq<char>),
    Array(Seq<Json>),
    Object(Map<Seq<char>, Json>),
}

/// The map that a row of entries stands for: of two entries with one key the later counts.
pub closed spec fn entries_map(s: Seq<(String, JsonValue)>) -> Map<Seq<char>, Json>
    decreases s,
{
    if s.len() == 0 {
        Map::empty()
    } else {
        entries_map(s.drop_last()).insert(s.last().0@, s.last().1.model())
    }
}

/// The models of a row of values.
pub open spec fn models(s: Seq<JsonValue>) -> Seq<Json>
    decreases s,
{
    Seq::new(
        s.len(),
        |i: int|
            if 0 <= i < s.len() {
                s[i].model()
            } else {
                Json::Null
            },
    )
}

impl JsonValue {
    /// The mathematical model of the value.
    pub open spec fn model(&self) -> Json
        decreases self,
    {
        match self {
            JsonValue::Null => Json::Null,
            JsonValue::Bool(b) => Json::Bool(*b),
            JsonValue::Number(n) => Json::Number(n@),
            JsonValue::String(s) => Json::Text(s@),
            JsonValue::Array(v) => Json::Array(models(v@)),
            JsonValue::Object(m) => Json::Object(m.model()),
        }
    }
}

impl JsonMap {
    /// The mathematical model of the map.
    pub closed spec fn model(&self) -> Map<Seq<char>, Json>
        decreases self,
    {
        entries_map(self.entries@)
    }

    #[verifier::type_invariant]
    spec fn keys_differ(self) -> bool {
        distinct_keys(self.entries@)
    }
}

spec fn distinct_keys(s: Seq<(String, JsonValue)>) -> bool {
    forall|i: int, j: int| 0 <= i < j < s.len() ==> (#[trigger] s[i]).0@ != (#[trigger] s[j]).0@
}

impl View for JsonValue {
    type V = Json;

    open spec fn view(&self) -> Json {
        self.model()
    }
}

impl View for JsonMap {
    type V = Map<Seq<char>, Json>;

    open spec fn view(&self) -> Map<Seq<char>, Json> {
        self.model()
    }
}

/// What a row of entries with different keys stands for.
proof fn lemma_entries(s: Seq<(String, JsonValue)>)
    requires
        distinct_keys(s),
    ensures
        entries_map(s).dom().finite(),
        entries_map(s).dom().len() == s.len(),
        forall|i: int|
            0 <= i < s.len() ==> entries_map(s).contains_key((#[trigger] s[i]).0@) && entries_map(
                s,
            )[s[i].0@] == s[i].1.model(),
        forall|k: Seq<char>|
            #[trigger] entries_map(s).contains_key(k) ==> exists|i: int|
                0 <= i < s.len() && (#[trigger] s[i]).0@ == k,
    decreases s.len(),
{
    if s.len() > 0 {
        let t = s.drop_last();
        assert forall|i: int, j: int| 0 <= i < j < t.len() implies (#[trigger] t[i]).0@ != (
        #[trigger] t[j]).0@ by {
            assert(s[i].0@ != s[j].0@);
        }
        lemma_entries(t);
        let k = s.last().0@;
        if entries_map(t).contains_key(k) {
            let i = choose|i: int| 0 <= i < t.len() && (#[trigger] t[i]).0@ == k;
            assert(s[i].0@ == s[s.len() - 1].0@);
            assert(false);
        }
        assert forall|i: int| 0 <= i < s.len() implies entries_map(s).contains_key(
            (#[trigger] s[i]).0@,
        ) && entries_map(s)[s[i].0@] == s[i].1.model() by {
            if i < t.len() {
                assert(t[i] == s[i]);
                assert(s[i].0@ != s[s.len() - 1].0@);
            }
        }
        assert forall|q: Seq<char>| #[trigger] entries_map(s).contains_key(q) implies exists|i: int|
            0 <= i < s.len() && (#[trigger] s[i]).0@ == q by {
            if q == k {
                assert(s[s.len() - 1].0@ == q);
            } else {
                assert(entries_map(t).contains_key(q));
                let i = choose|i: int| 0 <= i < t.len() && (#[trigger] t[i]).0@ == q;
                assert(s[i].0@ == q);
            }
        }
    }
}

impl JsonMap {
    /// The map without entries.
    pub fn new() -> (r: JsonMap)
        ensures
            r@ == Map::<Seq<char>, Json>::empty(),
    {
        JsonMap { entries: Vec::new() }
    }

    /// The number of entries.
    pub fn len(&self) -> (r: usize)
        ensures
            r == self@.dom().len(),
            self@.dom().finite(),
    {
        proof {
            use_type_invariant(self);
            lemma_entries(self.entries@);
        }
        self.entries.len()
    }

    /// Tells whether there is no entry.
    pub fn is_empty(&self) -> (r: bool)
        ensures
            r == (self@ == Map::<Seq<char>, Json>::empty()),
    {
        proof {
            use_type_invariant(self);
            lemma_entries(self.entries@);
            if self.entries@.len() == 0 {
                assert(self@ =~= Map::empty());
            } else {
                assert(self@.contains_key(self.entries@[0].0@));
            }
        }
        self.entries.len() == 0
    }

    #[verifier::loop_isolation(false)]
    fn position(&self, key: &str) -> (r: Option<usize>)
        ensures
            match r {
                Some(i) => i < self.entries.len() && self.entries@[i as int].0@ == key@
                    && self@.contains_key(key@) && self@[key@] == self.entries@[i as int].1.model(),
                None => !self@.contains_key(key@),
            },
    {
        proof {
            use_type_invariant(self);
            lemma_entries(self.entries@);
        }
        let mut i: usize = 0;
        while i < self.entries.len()
            invariant
                i <= self.entries.len(),
                forall|j: int| 0 <= j < i ==> (#[trigger] self.entries@[j]).0@ != key@,
            decreases self.entries.len() - i,
        {
            if same_text(self.entries[i].0.as_str(), key) {
                return Some(i);
            }
            i = i + 1;
        }
        None
    }

    /// The value at `key`.
    pub fn get(&self, key: &str) -> (r: Option<&JsonValue>)
        ensures
            match r {
                Some(v) => self@.contains_key(key@) && v@ == self@[key@],
                None => !self@.contains_key(key@),
            },
    {
        match self.position(key) {
            Some(i) => Some(&self.entries[i].1),
            None => None,
        }
    }

    /// Tells whether there is a value at `key`.
    pub fn contains_key(&self, key: &str) -> (r: bool)
        ensures
            r == self@.contains_key(key@),
    {
        self.position(key).is_some()
    }

    /// Puts `value` at `key`, in place of what was there.
    pub fn insert(&mut self, key: String, value: JsonValue)
        ensures
            final(self)@ == old(self)@.insert(key@, value@),
    {
        proof {
            use_type_invariant(&*self);
            lemma_entries(self.entries@);
        }
        let found = self.position(key.as_str());
        let mut entries: Vec<(String, JsonValue)> = Vec::new();
        std::mem::swap(&mut entries, &mut self.entries);
        let ghost before = entries@;
        let ghost v = value@;
        match found {
            Some(i) => {
                let _ = entries.remove(i);
                proof {
                    lemma_removed(before, i as int);
                }
            },
            None => {
            },
        }
        let ghost kept = entries@;
        entries.push((key, value));
        proof {
            lemma_entries(kept);
            assert(entries@.drop_last() =~= kept);
            assert forall|i: int, j: int| 0 <= i < j < entries@.len() implies (
            #[trigger] entries@[i]).0@ != (#[trigger] entries@[j]).0@ by {
                if j == kept.len() {
                    assert(entries_map(kept).contains_key(kept[i].0@));
                } else {
                    assert(kept[i].0@ != kept[j].0@);
                }
            }
            assert(entries_map(entries@) =~= entries_map(before).insert(key@, v));
        }
        self.entries = entries;
    }

    /// Takes the value at `key` out of the map.
    pub fn remove(&mut self, key: &str) -> (r: Option<JsonValue>)
        ensures
            final(self)@ == old(self)@.remove(key@),
            match r {
                Some(v) => old(self)@.contains_key(key@) && v@ == old(self)@[key@],
                None => !old(self)@.contains_key(key@),
            },
    {
        proof {
            use_type_invariant(&*self);
            lemma_entries(self.entries@);
        }
        match self.position(key) {
            Some(i) => {
                let mut entries: Vec<(String, JsonValue)> = Vec::new();
                std::mem::swap(&mut entries, &mut self.entries);
                let ghost before = entries@;
                let (_, value) = entries.remove(i);
                proof {
                    lemma_removed(before, i as int);
                }
                self.entries = entries;
                Some(value)
            },
            None => {
                proof {
                    assert(self@.remove(key@) =~= self@);
                }
                None
            },
        }
    }

    /// The entries, in no particular order.
    pub fn entries(&self) -> (r: &Vec<(String, JsonValue)>)
        ensures
            entries_map(r@) == self@,
    {
        &self.entries
    }
}

impl JsonMap {
    /// Tells whether every entry of this map is in the other, with the same value.
    #[verifier::loop_isolation(false)]
    pub fn is_part_of(&self, other: &JsonMap) -> (r: bool)
        ensures
            r == (forall|k: Seq<char>| #[trigger]
                self@.contains_key(k) ==> other@.contains_key(k) && other@[k] == self@[k]),
    {
        proof {
            use_type_invariant(self);
            lemma_entries(self.entries@);
        }
        let mut i: usize = 0;
        while i < self.entries.len()
            invariant
                i <= self.entries.len(),
                forall|j: int|
                    0 <= j < i ==> other@.contains_key((#[trigger] self.entries@[j]).0@)
                        && other@[self.entries@[j].0@] == self.entries@[j].1.model(),
            decreases self.entries.len() - i,
        {
            let ghost k = self.entries@[i as int].0@;
            proof {
                assert(self@.contains_key(k));
            }
            match other.get(self.entries[i].0.as_str()) {
                Some(v) => {
                    if !self.entries[i].1.same(v) {
                        return false;
                    }
                },
                None => {
                    return false;
                },
            }
            i = i + 1;
        }
        proof {
            assert forall|k: Seq<char>| #[trigger] self@.contains_key(k) implies other@.contains_key(
                k,
            ) && other@[k] == self@[k] by {
                let j = choose|j: int|
                    0 <= j < self.entries@.len() && (#[trigger] self.entries@[j]).0@ == k;
            }
        }
        true
    }
}

/// Without its `i`-th entry, a row of entries stands for the map without that key.
proof fn lemma_removed(s: Seq<(String, JsonValue)>, i: int)
    requires
        distinct_keys(s),
        0 <= i < s.len(),
    ensures
        distinct_keys(s.remove(i)),
        entries_map(s.remove(i)) == entries_map(s).remove(s[i].0@),
{
    let t = s.remove(i);
    assert forall|a: int, b: int| 0 <= a < b < t.len() implies (#[trigger] t[a]).0@ != (
    #[trigger] t[b]).0@ by {
        let a2 = if a < i {
            a
        } else {
            a + 1
        };
        let b2 = if b < i {
            b
        } else {
            b + 1
        };
        assert(s[a2].0@ != s[b2].0@);
    }
    lemma_entries(s);
    lemma_entries(t);
    let k = s[i].0@;
    assert forall|q: Seq<char>| entries_map(t).contains_key(q) implies entries_map(s).remove(
        k,
    ).contains_key(q) && entries_map(t)[q] == entries_map(s).remove(k)[q] by {
        let a = choose|a: int| 0 <= a < t.len() && (#[trigger] t[a]).0@ == q;
        let a2 = if a < i {
            a
        } else {
            a + 1
        };
        assert(t[a] == s[a2]);
        if a2 < i {
            assert(s[a2].0@ != s[i].0@);
        } else {
            assert(s[i].0@ != s[a2].0@);
        }
    }
    assert forall|q: Seq<char>| entries_map(s).remove(k).contains_key(q) implies entries_map(
        t,
    ).contains_key(q) by {
        let a2 = choose|a: int| 0 <= a < s.len() && (#[trigger] s[a]).0@ == q;
        let a = if a2 < i {
            a2
        } else {
            a2 - 1
        };
        assert(t[a] == s[a2]);
    }
    assert(entries_map(t) =~= entries_map(s).remove(k));
}

// ---------------------------------------------------------------------------
// Reading a value
// ---------------------------------------------------------------------------

impl Json {
    /// The value at `key` of an object.
    pub open spec fn at(self, key: Seq<char>) -> Option<Json> {
        match self {
            Json::Object(m) => if m.contains_key(key) {
                Some(m[key])
            } else {
                None
            },
            _ => None,
        }
    }

    /// The text that the value is.
    pub open spec fn text(self) -> Option<Seq<char>> {
        match self {
            Json::Text(s) => Some(s),
            _ => None,
        }
    }

    /// The items of an array.
    pub open spec fn items(self) -> Option<Seq<Json>> {
        match self {
            Json::Array(s) => Some(s),
            _ => None,
        }
    }

    /// The unsigned 64-bit integer that the value is.
    pub open spec fn unsigned(self) -> Option<u64> {
        match self {
            Json::Number(JsonNumber::PosInt(n)) => Some(n),
            _ => None,
        }
    }

    /// The text at `key` of an object.
    pub open spec fn text_at(self, key: Seq<char>) -> Option<Seq<char>> {
        match self.at(key) {
            Some(v) => v.text(),
            None => None,
        }
    }

    /// The items of the array at `key` of an object.
    pub open spec fn items_at(self, key: Seq<char>) -> Option<Seq<Json>> {
        match self.at(key) {
            Some(v) => v.items(),
            None => None,
        }
    }

    /// The unsigned integer at `key` of an object.
    pub open spec fn unsigned_at(self, key: Seq<char>) -> Option<u64> {
        match self.at(key) {
            Some(v) => v.unsigned(),
            None => None,
        }
    }
}

/// The object with one entry.
pub open spec fn object1(k: Seq<char>, v: Json) -> Json {
    Json::Object(Map::<Seq<char>, Json>::empty().insert(k, v))
}

/// The object with two entries, the later counting where the keys are one.
pub open spec fn object2(k: Seq<char>, v: Json, l: Seq<char>, w: Json) -> Json {
    Json::Object(Map::<Seq<char>, Json>::empty().insert(k, v).insert(l, w))
}

/// The object with three entries, the later counting where keys are one.
pub open spec fn object3(
    k: Seq<char>,
    v: Json,
    l: Seq<char>,
    w: Json,
    m: Seq<char>,
    x: Json,
) -> Json {
    Json::Object(Map::<Seq<char>, Json>::empty().insert(k, v).insert(l, w).insert(m, x))
}

impl JsonValue {
    /// The value at `key` of an object.
    pub fn get(&self, key: &str) -> (r: Option<&JsonValue>)
        ensures
            match r {
                Some(v) => self@.at(key@) == Some(v@),
                None => self@.at(key@) is None,
            },
    {
        match self {
            JsonValue::Object(m) => m.get(key),
            _ => None,
        }
    }

    /// The text that the value is.
    pub fn as_str(&self) -> (r: Option<&str>)
        ensures
            match r {
                Some(v) => self@.text() == Some(v@),
                None => self@.text() is None,
            },
    {
        match self {
            JsonValue::String(s) => Some(s.as_str()),
            _ => None,
        }
    }

    /// The items of an array.
    pub fn as_array(&self) -> (r: Option<&Vec<JsonValue>>)
        ensures
            match r {
                Some(v) => self@.items() == Some(models(v@)),
                None => self@.items() is None,
            },
    {
        match self {
            JsonValue::Array(v) => Some(v),
            _ => None,
        }
    }

    /// The unsigned 64-bit integer that the value is.
    pub fn as_u64(&self) -> (r: Option<u64>)
        ensures
            r == self@.unsigned(),
    {
        match self {
            JsonValue::Number(JsonNumber::PosInt(n)) => Some(*n),
            _ => None,
        }
    }

    /// The text at `key` of an object.
    pub fn str_at(&self, key: &str) -> (r: Option<&str>)
        ensures
            match r {
                Some(v) => self@.text_at(key@) == Some(v@),
                None => self@.text_at(key@) is None,
            },
    {
        match self.get(key) {
            Some(v) => v.as_str(),
            None => None,
        }
    }

    /// The items of the array at `key` of an object.
    pub fn array_at(&self, key: &str) -> (r: Option<&Vec<JsonValue>>)
        ensures
            match r {
                Some(v) => self@.items_at(key@) == Some(models(v@)),
                None => self@.items_at(key@) is None,
            },
    {
        match self.get(key) {
            Some(v) => v.as_array(),
            None => None,
        }
    }

    /// The unsigned integer at `key` of an object.
    pub fn u64_at(&self, key: &str) -> (r: Option<u64>)
        ensures
            r == self@.unsigned_at(key@),
    {
        match self.get(key) {
            Some(v) => v.as_u64(),
            None => None,
        }
    }

    /// The value that is the text `s`.
    pub fn text(s: &str) -> (r: JsonValue)
        ensures
            r@ == Json::Text(s@),
    {
        JsonValue::String(s.to_owned())
    }

    /// The object with one entry.
    pub fn object1(k: &str, v: JsonValue) -> (r: JsonValue)
        ensures
            r@ == object1(k@, v@),
    {
        let mut m = JsonMap::new();
        m.insert(k.to_owned(), v);
        JsonValue::Object(m)
    }

    /// The object with two entries.
    pub fn object2(k: &str, v: JsonValue, l: &str, w: JsonValue) -> (r: JsonValue)
        ensures
            r@ == object2(k@, v@, l@, w@),
    {
        let mut m = JsonMap::new();
        m.insert(k.to_owned(), v);
        m.insert(l.to_owned(), w);
        JsonValue::Object(m)
    }

    /// The object with three entries.
    pub fn object3(
        k: &str,
        v: JsonValue,
        l: &str,
        w: JsonValue,
        n: &str,
        x: JsonValue,
    ) -> (r: JsonValue)
        ensures
            r@ == object3(k@, v@, l@, w@, n@, x@),
    {
        let mut m = JsonMap::new();
        m.insert(k.to_owned(), v);
        m.insert(l.to_owned(), w);
        m.insert(n.to_owned(), x);
        JsonValue::Object(m)
    }

    /// The array with one item.
    pub fn array1(v: JsonValue) -> (r: JsonValue)
        ensures
            r@ == Json::Array(seq![v@]),
    {
        let mut a: Vec<JsonValue> = Vec::new();
        a.push(v);
        proof {
            assert(models(a@) =~= seq![v@]);
        }
        JsonValue::Array(a)
    }

    /// The array with two items.
    pub fn array2(v: JsonValue, w: JsonValue) -> (r: JsonValue)
        ensures
            r@ == Json::Array(seq![v@, w@]),
    {
        let mut a: Vec<JsonValue> = Vec::new();
        a.push(v);
        a.push(w);
        proof {
            assert(models(a@) =~= seq![v@, w@]);
        }
        JsonValue::Array(a)
    }
}

/// Adding a value at the end adds its model at the end.
pub proof fn lemma_models_push(s: Seq<JsonValue>, v: JsonValue)
    ensures
        models(s.push(v)) == models(s).push(v@),
{
    assert(models(s.push(v)) =~= models(s).push(v@));
}

// ---------------------------------------------------------------------------
// Copies and equality
// ---------------------------------------------------------------------------

impl JsonValue {
    /// A copy of the value.
    #[verifier::loop_isolation(false)]
    pub fn duplicate(&self) -> (r: JsonValue)
        ensures
            r@ == self@,
        decreases self,
    {
        match self {
            JsonValue::Null => JsonValue::Null,
            JsonValue::Bool(b) => JsonValue::Bool(*b),
            JsonValue::Number(n) => JsonValue::Number(*n),
            JsonValue::String(s) => JsonValue::String(s.clone()),
            JsonValue::Array(v) => {
                let mut out: Vec<JsonValue> = Vec::new();
                let mut i: usize = 0;
                while i < v.len()
                    invariant
                        i <= v.len(),
                        models(out@) == models(v@).take(i as int),
                    decreases v.len() - i,
                {
                    let ghost before = out@;
                    let c = v[i].duplicate();
                    out.push(c);
                    proof {
                        lemma_models_push(before, c);
                        assert(models(out@) =~= models(v@).take(i + 1));
                    }
                    i = i + 1;
                }
                proof {
                    assert(models(v@).take(v@.len() as int) =~= models(v@));
                }
                JsonValue::Array(out)
            },
            JsonValue::Object(m) => JsonValue::Object(m.duplicate()),
        }
    }
}

impl JsonMap {
    /// A copy of the map.
    #[verifier::loop_isolation(false)]
    pub fn duplicate(&self) -> (r: JsonMap)
        ensures
            r@ == self@,
        decreases self,
    {
        proof {
            use_type_invariant(self);
        }
        let mut out: Vec<(String, JsonValue)> = Vec::new();
        let mut i: usize = 0;
        proof {
            assert(self.entries@.take(0) =~= Seq::<(String, JsonValue)>::empty());
        }
        while i < self.entries.len()
            invariant
                i <= self.entries.len(),
                out@.len() == i,
                forall|j: int| 0 <= j < i ==> (#[trigger] out@[j]).0@ == self.entries@[j].0@,
                entries_map(out@) == entries_map(self.entries@.take(i as int)),
            decreases self.entries.len() - i,
        {
            let ghost before = out@;
            let c = self.entries[i].1.duplicate();
            out.push((self.entries[i].0.clone(), c));
            proof {
                assert(out@.drop_last() =~= before);
                assert(self.entries@.take(i + 1).drop_last() =~= self.entries@.take(i as int));
                assert(self.entries@.take(i + 1).last() == self.entries@[i as int]);
            }
            i = i + 1;
        }
        proof {
            assert(self.entries@.take(self.entries@.len() as int) =~= self.entries@);
            assert forall|a: int, b: int| 0 <= a < b < out@.len() implies (#[trigger] out@[a]).0@
                != (#[trigger] out@[b]).0@ by {
                assert(self.entries@[a].0@ != self.entries@[b].0@);
            }
        }
        JsonMap { entries: out }
    }
}

impl Clone for JsonValue {
    fn clone(&self) -> (r: JsonValue)
        ensures
            r@ == self@,
    {
        self.duplicate()
    }
}

impl Clone for JsonMap {
    fn clone(&self) -> (r: JsonMap)
        ensures
            r@ == self@,
    {
        self.duplicate()
    }
}

fn same_bits(a: u64, b: u64) -> (r: bool)
    ensures
        r == ((JsonNumber::Float { bits: a })@ == (JsonNumber::Float { bits: b })@),
{
    a == b || ((a == 0 || a == NEGATIVE_ZERO_BITS) && (b == 0 || b == NEGATIVE_ZERO_BITS))
}

fn same_number(a: &JsonNumber, b: &JsonNumber) -> (r: bool)
    ensures
        r == (a@ == b@),
{
    match (a, b) {
        (JsonNumber::PosInt(x), JsonNumber::PosInt(y)) => *x == *y,
        (JsonNumber::NegInt(x), JsonNumber::NegInt(y)) => *x == *y,
        (JsonNumber::Float { bits: x }, JsonNumber::Float { bits: y }) => same_bits(*x, *y),
        (
            JsonNumber::Quotient { numerator: n, denominator: d },
            JsonNumber::Quotient { numerator: m, denominator: e },
        ) => *n == *m && *d == *e,
        _ => false,
    }
}

impl JsonValue {
    /// Tells whether two values are the same JSON value.
    #[verifier::loop_isolation(false)]
    pub fn same(&self, other: &JsonValue) -> (r: bool)
        ensures
            r == (self@ == other@),
        decreases self,
    {
        match (self, other) {
            (JsonValue::Null, JsonValue::Null) => true,
            (JsonValue::Bool(a), JsonValue::Bool(b)) => *a == *b,
            (JsonValue::Number(a), JsonValue::Number(b)) => same_number(a, b),
            (JsonValue::String(a), JsonValue::String(b)) => same_text(a.as_str(), b.as_str()),
            (JsonValue::Array(a), JsonValue::Array(b)) => {
                if a.len() != b.len() {
                    proof {
                        assert(models(a@).len() != models(b@).len());
                    }
                    return false;
                }
                let mut i: usize = 0;
                while i < a.len()
                    invariant
                        i <= a.len(),
                        forall|j: int| 0 <= j < i ==> a@[j]@ == #[trigger] b@[j]@,
                    decreases a.len() - i,
                {
                    if !a[i].same(&b[i]) {
                        proof {
                            assert(models(a@)[i as int] != models(b@)[i as int]);
                        }
                        return false;
                    }
                    i = i + 1;
                }
                proof {
                    assert forall|j: int| 0 <= j < a@.len() implies models(a@)[j] == models(b@)[j] by {
                        assert(a@[j]@ == b@[j]@);
                    }
                    assert(models(a@) =~= models(b@));
                }
                true
            },
            (JsonValue::Object(a), JsonValue::Object(b)) => a.same(b),
            _ => false,
        }
    }
}

impl JsonMap {
    /// Tells whether two maps hold the same values at the same keys.
    #[verifier::loop_isolation(false)]
    pub fn same(&self, other: &JsonMap) -> (r: bool)
        ensures
            r == (self@ == other@),
        decreases self,
    {
        proof {
            use_type_invariant(self);
            lemma_entries(self.entries@);
        }
        if self.len() != other.len() {
            return false;
        }
        let mut i: usize = 0;
        while i < self.entries.len()
            invariant
                i <= self.entries.len(),
                forall|j: int|
                    0 <= j < i ==> other@.contains_key((#[trigger] self.entries@[j]).0@)
                        && other@[self.entries@[j].0@] == self.entries@[j].1.model(),
            decreases self.entries.len() - i,
        {
            let ghost k = self.entries@[i as int].0@;
            match other.get(self.entries[i].0.as_str()) {
                Some(v) => {
                    if !self.entries[i].1.same(v) {
                        proof {
                            assert(self@[k] != other@[k]);
                        }
                        return false;
                    }
                },
                None => {
                    proof {
                        assert(self@.contains_key(k) && !other@.contains_key(k));
                    }
                    return false;
                },
            }
            i = i + 1;
        }
        proof {
            assert forall|k: Seq<char>| self@.dom().contains(k) implies other@.dom().contains(k) by {
                assert(self@.contains_key(k));
                let j = choose|j: int|
                    0 <= j < self.entries@.len() && (#[trigger] self.entries@[j]).0@ == k;
            }
            vstd::set_lib::lemma_subset_equality(self@.dom(), other@.dom());
            assert forall|k: Seq<char>| self@.dom().contains(k) implies self@[k] == other@[k] by {
                assert(self@.contains_key(k));
                let j = choose|j: int|
                    0 <= j < self.entries@.len() && (#[trigger] self.entries@[j]).0@ == k;
            }
            assert(self@ =~= other@);
        }
        true
    }
}

// ---------------------------------------------------------------------------
// Laws
// ---------------------------------------------------------------------------

/// The members of an object are where its map has them; nothing else has members.
pub proof fn objects_have_their_members(v: Json, key: Seq<char>, value: Json)
    ensures
        v.at(key) == Some(value) <==> (v is Object && v->Object_0.contains_pair(key, value)),
        v.at(key) is None <==> !(v is Object && v->Object_0.contains_key(key)),
{
}

/// A text is read from a text alone, items from an array alone, and an unsigned number from an
/// unsigned number alone.
pub proof fn values_are_read_as_what_they_are(
    v: Json,
    key: Seq<char>,
    text: Seq<char>,
    items: Seq<Json>,
    n: u64,
)
    ensures
        v.text() == Some(text) <==> v == Json::Text(text),
        v.items() == Some(items) <==> v == Json::Array(items),
        v.unsigned() == Some(n) <==> v == Json::Number(JsonNumber::PosInt(n)),
        v.text_at(key) == Some(text) <==> v.at(key) == Some(Json::Text(text)),
        v.items_at(key) == Some(items) <==> v.at(key) == Some(Json::Array(items)),
        v.unsigned_at(key) == Some(n) <==> v.at(key) == Some(Json::Number(JsonNumber::PosInt(n))),
{
}

/// An object that is made of entries has these and no others, a later one in place of an
/// earlier one with the same key.
pub proof fn made_objects_have_their_entries(
    a: Seq<char>,
    x: Json,
    b: Seq<char>,
    y: Json,
    c: Seq<char>,
    z: Json,
    key: Seq<char>,
)
    ensures
        object1(a, x).at(key) == if key == a {
            Some(x)
        } else {
            None
        },
        object2(a, x, b, y).at(key) == if key == b {
            Some(y)
        } else if key == a {
            Some(x)
        } else {
            None
        },
        object3(a, x, b, y, c, z).at(key) == if key == c {
            Some(z)
        } else if key == b {
            Some(y)
        } else if key == a {
            Some(x)
        } else {
            None
        },
{
}

} // verus!
