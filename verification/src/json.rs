//! JSON values as the engine protocol exchanges them. The model follows
//! `serde_json::Value`: an object is a map from distinct keys to values, and a
//! number is a non-negative integer, a negative integer or a float (held here
//! by its IEEE-754 bit pattern, since the library computes nothing on floats).
use vstd::prelude::*;

verus! {

/// A JSON number, with the three representations `serde_json::Number` keeps.
#[derive(Clone, Copy, Debug, PartialEq, Eq)]
pub enum JsonNumber {
    PosInt(u64),
    NegInt(i64),
    /// A float, by its `f64::to_bits` pattern.
    Float(u64),
}

/// A JSON value.
#[derive(Debug, PartialEq, Eq)]
pub enum JsonValue {
    Null,
    Bool(bool),
    Number(JsonNumber),
    String(String),
    Array(Vec<JsonValue>),
    Object(JsonObject),
}

/// A JSON object: key/value entries whose keys are pairwise distinct. Its
/// view is the map they denote; the derived `==` also compares the order of
/// the entries.
#[derive(Debug, PartialEq, Eq)]
pub struct JsonObject {
    entries: Vec<(String, JsonValue)>,
}

/// No key occurs twice among `s`.
pub open spec fn keys_distinct(s: Seq<(String, JsonValue)>) -> bool {
    forall|i: int, j: int|
        #![trigger s[i], s[j]]
        0 <= i < s.len() && 0 <= j < s.len() && i != j ==> s[i].0@ != s[j].0@
}

/// The map that a sequence of entries denotes; a later entry wins over an
/// earlier one with the same key.
pub open spec fn entries_map(s: Seq<(String, JsonValue)>) -> Map<Seq<char>, JsonValue>
    decreases s.len(),
{
    if s.len() == 0 {
        Map::empty()
    } else {
        entries_map(s.drop_last()).insert(s.last().0@, s.last().1)
    }
}

/// The keys of `entries_map(s)` are the keys of the entries.
pub proof fn lemma_entries_map_dom(s: Seq<(String, JsonValue)>, k: Seq<char>)
    ensures
        entries_map(s).contains_key(k) <==> exists|i: int| 0 <= i < s.len() && #[trigger] s[i].0@ == k,
    decreases s.len(),
{
    if s.len() > 0 {
        lemma_entries_map_dom(s.drop_last(), k);
        if entries_map(s).contains_key(k) {
            if s.last().0@ != k {
                let i = choose|i: int| 0 <= i < s.drop_last().len() && #[trigger] s.drop_last()[i].0@ == k;
                assert(s[i].0@ == k);
            } else {
                assert(s[s.len() - 1].0@ == k);
            }
        }
        if exists|i: int| 0 <= i < s.len() && #[trigger] s[i].0@ == k {
            let i = choose|i: int| 0 <= i < s.len() && #[trigger] s[i].0@ == k;
            if i < s.len() - 1 {
                assert(s.drop_last()[i].0@ == k);
            }
        }
    }
}

/// With distinct keys, each entry's key maps to that entry's value.
pub proof fn lemma_entries_map_value(s: Seq<(String, JsonValue)>, i: int)
    requires
        keys_distinct(s),
        0 <= i < s.len(),
    ensures
        entries_map(s).contains_key(s[i].0@),
        entries_map(s)[s[i].0@] == s[i].1,
    decreases s.len(),
{
    if i < s.len() - 1 {
        let t = s.drop_last();
        assert(keys_distinct(t)) by {
            assert forall|a: int, b: int|
                0 <= a < t.len() && 0 <= b < t.len() && a != b implies t[a].0@ != t[b].0@ by {
                assert(t[a] == s[a] && t[b] == s[b]);
            }
        }
        assert(t[i] == s[i]);
        assert(s[i].0@ != s[s.len() - 1].0@);
        lemma_entries_map_value(t, i);
    }
}

/// Replacing the value of an entry updates the denoted map at its key.
proof fn lemma_entries_map_replace(
    s: Seq<(String, JsonValue)>,
    i: int,
    key: String,
    value: JsonValue,
)
    requires
        keys_distinct(s),
        0 <= i < s.len(),
        key@ == s[i].0@,
    ensures
        keys_distinct(s.update(i, (key, value))),
        entries_map(s.update(i, (key, value))) =~= entries_map(s).insert(key@, value),
{
    let t = s.update(i, (key, value));
    assert(keys_distinct(t)) by {
        assert forall|a: int, b: int|
            0 <= a < t.len() && 0 <= b < t.len() && a != b implies t[a].0@ != t[b].0@ by {
            assert(t[a].0@ == s[a].0@ && t[b].0@ == s[b].0@);
        }
    }
    let m = entries_map(s).insert(key@, value);
    assert forall|k: Seq<char>| #[trigger] entries_map(t).contains_key(k) <==> m.contains_key(k) by {
        lemma_entries_map_dom(s, k);
        lemma_entries_map_dom(t, k);
        if entries_map(s).contains_key(k) {
            let j = choose|j: int| 0 <= j < s.len() && #[trigger] s[j].0@ == k;
            assert(t[j].0@ == k);
        }
        if entries_map(t).contains_key(k) {
            let j = choose|j: int| 0 <= j < t.len() && #[trigger] t[j].0@ == k;
            assert(s[j].0@ == k);
        }
    }
    assert forall|k: Seq<char>| #[trigger] entries_map(t).contains_key(k) implies entries_map(t)[k]
        == m[k] by {
        lemma_entries_map_dom(t, k);
        let j = choose|j: int| 0 <= j < t.len() && #[trigger] t[j].0@ == k;
        lemma_entries_map_value(t, j);
        if j != i {
            assert(s[j] == t[j]);
            lemma_entries_map_value(s, j);
        }
    }
}

/// Appending an entry with a new key keeps the keys distinct and inserts it
/// into the denoted map.
proof fn lemma_entries_map_push(s: Seq<(String, JsonValue)>, key: String, value: JsonValue)
    requires
        keys_distinct(s),
        forall|j: int| 0 <= j < s.len() ==> #[trigger] s[j].0@ != key@,
    ensures
        keys_distinct(s.push((key, value))),
        entries_map(s.push((key, value))) == entries_map(s).insert(key@, value),
{
    let t = s.push((key, value));
    assert(t.drop_last() =~= s);
    assert(keys_distinct(t)) by {
        assert forall|a: int, b: int|
            0 <= a < t.len() && 0 <= b < t.len() && a != b implies t[a].0@ != t[b].0@ by {
            if a < s.len() {
                assert(t[a] == s[a]);
            }
            if b < s.len() {
                assert(t[b] == s[b]);
            }
        }
    }
}

impl View for JsonObject {
    type V = Map<Seq<char>, JsonValue>;

    closed spec fn view(&self) -> Map<Seq<char>, JsonValue> {
        entries_map(self.entries@)
    }
}

impl JsonObject {
    #[verifier::type_invariant]
    spec fn inv(self) -> bool {
        keys_distinct(self.entries@)
    }

    /// An empty object.
    pub fn new() -> (r: JsonObject)
        ensures
            r@ == Map::<Seq<char>, JsonValue>::empty(),
    {
        JsonObject { entries: Vec::new() }
    }

    /// Index of the entry whose key is `key`, if there is one.
    fn position(&self, key: &String) -> (r: Option<usize>)
        ensures
            match r {
                Some(i) => i < self.entries@.len() && self.entries@[i as int].0@ == key@,
                None => forall|j: int|
                    0 <= j < self.entries@.len() ==> #[trigger] self.entries@[j].0@ != key@,
            },
    {
        let mut i: usize = 0;
        while i < self.entries.len()
            invariant
                i <= self.entries@.len(),
                forall|j: int| 0 <= j < i ==> #[trigger] self.entries@[j].0@ != key@,
            decreases self.entries@.len() - i,
        {
            if self.entries[i].0 == *key {
                return Some(i);
            }
            i = i + 1;
        }
        None
    }

    /// Whether the object has an entry for `key`.
    pub fn contains_key(&self, key: &str) -> (r: bool)
        ensures
            r == self@.contains_key(key@),
    {
        let k = String::from_str(key);
        let p = self.position(&k);
        proof {
            lemma_entries_map_dom(self.entries@, key@);
            if let Some(i) = p {
                assert(self.entries@[i as int].0@ == key@);
            }
        }
        p.is_some()
    }

    /// The value at `key`, if the object has one (`Map::get`).
    pub fn get(&self, key: &str) -> (r: Option<&JsonValue>)
        ensures
            match r {
                Some(v) => self@.contains_key(key@) && self@[key@] == *v,
                None => !self@.contains_key(key@),
            },
    {
        proof {
            use_type_invariant(self);
        }
        let k = String::from_str(key);
        match self.position(&k) {
            Some(i) => {
                proof {
                    lemma_entries_map_value(self.entries@, i as int);
                }
                Some(&self.entries[i].1)
            },
            None => {
                proof {
                    lemma_entries_map_dom(self.entries@, key@);
                }
                None
            },
        }
    }

    /// Sets `key` to `value` and hands back the value it replaces, if any
    /// (`Map::insert`).
    pub fn insert(&mut self, key: String, value: JsonValue) -> (r: Option<JsonValue>)
        ensures
            final(self)@ == old(self)@.insert(key@, value),
            r == (if old(self)@.contains_key(key@) {
                Some(old(self)@[key@])
            } else {
                None
            }),
    {
        proof {
            use_type_invariant(&*self);
        }
        let ghost old_entries = self.entries@;
        match self.position(&key) {
            Some(i) => {
                proof {
                    lemma_entries_map_value(old_entries, i as int);
                    lemma_entries_map_replace(old_entries, i as int, key, value);
                    assert(old_entries.update(i as int, (key, value)) =~= old_entries.remove(
                        i as int,
                    ).insert(i as int, (key, value)));
                    assert forall|a: int, b: int|
                        0 <= a < old_entries.len() - 1 && 0 <= b < old_entries.len() - 1 && a
                            != b implies #[trigger] old_entries.remove(i as int)[a].0@
                        != #[trigger] old_entries.remove(i as int)[b].0@ by {
                        let ia = if a < i {
                            a
                        } else {
                            a + 1
                        };
                        let ib = if b < i {
                            b
                        } else {
                            b + 1
                        };
                        assert(old_entries.remove(i as int)[a] == old_entries[ia]);
                        assert(old_entries.remove(i as int)[b] == old_entries[ib]);
                    }
                }
                let mut entries: Vec<(String, JsonValue)> = Vec::new();
                std::mem::swap(&mut entries, &mut self.entries);
                let old_entry = entries.remove(i);
                entries.insert(i, (key, value));
                self.entries = entries;
                Some(old_entry.1)
            },
            None => {
                proof {
                    lemma_entries_map_dom(old_entries, key@);
                    lemma_entries_map_push(old_entries, key, value);
                }
                let mut entries: Vec<(String, JsonValue)> = Vec::new();
                std::mem::swap(&mut entries, &mut self.entries);
                entries.push((key, value));
                self.entries = entries;
                None
            },
        }
    }

    /// The entries of the object, with distinct keys, in no particular order.
    pub fn into_entries(self) -> (r: Vec<(String, JsonValue)>)
        ensures
            keys_distinct(r@),
            entries_map(r@) == self@,
    {
        proof {
            use_type_invariant(&self);
        }
        self.entries
    }
}

/// The value at key `k` when `v` is an object that has one.
pub open spec fn field(v: JsonValue, k: Seq<char>) -> Option<JsonValue> {
    match v {
        JsonValue::Object(o) => if o@.contains_key(k) {
            Some(o@[k])
        } else {
            None
        },
        _ => None,
    }
}

/// The text of `v` when it is a string.
pub open spec fn string_value(v: JsonValue) -> Option<Seq<char>> {
    match v {
        JsonValue::String(s) => Some(s@),
        _ => None,
    }
}

/// `v` as an unsigned integer (`Value::as_u64`): only a non-negative integer.
pub open spec fn u64_value(v: JsonValue) -> Option<u64> {
    match v {
        JsonValue::Number(JsonNumber::PosInt(n)) => Some(n),
        _ => None,
    }
}

/// `v` as a signed integer (`Value::as_i64`): an integer that fits in `i64`.
pub open spec fn i64_value(v: JsonValue) -> Option<i64> {
    match v {
        JsonValue::Number(JsonNumber::PosInt(n)) => if n <= i64::MAX {
            Some(n as i64)
        } else {
            None
        },
        JsonValue::Number(JsonNumber::NegInt(n)) => Some(n),
        _ => None,
    }
}

/// The JSON number that `serde_json` makes of an `i32`.
pub open spec fn i32_number(n: i32) -> JsonValue {
    if n < 0 {
        JsonValue::Number(JsonNumber::NegInt(n as i64))
    } else {
        JsonValue::Number(JsonNumber::PosInt(n as u64))
    }
}

/// The value an optional reference points to.
pub open spec fn deref_opt(r: Option<&JsonValue>) -> Option<JsonValue> {
    match r {
        Some(v) => Some(*v),
        None => None,
    }
}

/// The text an optional string slice holds.
pub open spec fn str_opt_view(r: Option<&str>) -> Option<Seq<char>> {
    match r {
        Some(s) => Some(s@),
        None => None,
    }
}

impl JsonValue {
    /// The value at `key` when this is an object that has one (`Value::get`).
    pub fn get(&self, key: &str) -> (r: Option<&JsonValue>)
        ensures
            deref_opt(r) == field(*self, key@),
    {
        match self {
            JsonValue::Object(o) => o.get(key),
            _ => None,
        }
    }

    /// The text of a string value (`Value::as_str`).
    pub fn as_str(&self) -> (r: Option<&str>)
        ensures
            str_opt_view(r) == string_value(*self),
    {
        match self {
            JsonValue::String(s) => Some(s.as_str()),
            _ => None,
        }
    }

    /// A non-negative integer value (`Value::as_u64`).
    pub fn as_u64(&self) -> (r: Option<u64>)
        ensures
            r == u64_value(*self),
    {
        match self {
            JsonValue::Number(JsonNumber::PosInt(n)) => Some(*n),
            _ => None,
        }
    }

    /// An integer value that fits in `i64` (`Value::as_i64`).
    pub fn as_i64(&self) -> (r: Option<i64>)
        ensures
            r == i64_value(*self),
    {
        match self {
            JsonValue::Number(JsonNumber::PosInt(n)) => {
                if *n <= 0x7fff_ffff_ffff_ffffu64 {
                    Some(*n as i64)
                } else {
                    None
                }
            },
            JsonValue::Number(JsonNumber::NegInt(n)) => Some(*n),
            _ => None,
        }
    }

    /// The number `serde_json` makes of an `i32` (`Value::from(i32)`).
    pub fn from_i32(n: i32) -> (r: JsonValue)
        ensures
            r == i32_number(n),
    {
        if n < 0 {
            JsonValue::Number(JsonNumber::NegInt(n as i64))
        } else {
            JsonValue::Number(JsonNumber::PosInt(n as u64))
        }
    }
}

} // verus!
