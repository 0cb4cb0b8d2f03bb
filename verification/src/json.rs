//! A plain JSON document model: the values that IDL descriptions are written
//! in, with their mathematical view and the lookups the IDL readers make.
use vstd::prelude::*;
use vstd::pervasive::VecAdditionalExecFns;
use vstd::string::StringExecFns;

verus! {

/// A JSON number, as JSON text can hold it: a non-negative integer, a
/// negative integer, or a floating-point number kept by its IEEE-754 bits.
#[derive(Clone, Copy, Debug, PartialEq, Eq, Structural)]
pub enum JsonNumber {
    PosInt(u64),
    NegInt(i64),
    Float(u64),
}

/// A JSON value. Object entries keep the order in which they were written.
#[derive(Debug)]
pub enum JsonValue {
    Null,
    Bool(bool),
    Number(JsonNumber),
    Str(String),
    Array(Vec<JsonValue>),
    Object(Vec<(String, JsonValue)>),
}

/// The mathematical view of a JSON value.
pub enum JsonV {
    Null,
    Bool(bool),
    Number(JsonNumber),
    Str(Seq<char>),
    Array(Seq<JsonV>),
    Object(Seq<(Seq<char>, JsonV)>),
}

/// The mathematical view of a JSON value, computed structurally.
pub open spec fn json_view(v: JsonValue) -> JsonV
    decreases v,
{
    match v {
        JsonValue::Null => JsonV::Null,
        JsonValue::Bool(b) => JsonV::Bool(b),
        JsonValue::Number(n) => JsonV::Number(n),
        JsonValue::Str(s) => JsonV::Str(s@),
        JsonValue::Array(items) => JsonV::Array(
            Seq::new(
                items@.len(),
                |i: int|
                    if 0 <= i < items@.len() {
                        proof {
                            assert(decreases_to!(v => items@[i]));
                        }
                        json_view(items@[i])
                    } else {
                        JsonV::Null
                    },
            ),
        ),
        JsonValue::Object(entries) => JsonV::Object(
            Seq::new(
                entries@.len(),
                |i: int|
                    if 0 <= i < entries@.len() {
                        proof {
                            assert(decreases_to!(v => entries@[i].1));
                        }
                        (entries@[i].0@, json_view(entries@[i].1))
                    } else {
                        (Seq::empty(), JsonV::Null)
                    },
            ),
        ),
    }
}

impl View for JsonValue {
    type V = JsonV;

    open spec fn view(&self) -> JsonV {
        json_view(*self)
    }
}

/// The view of a list of JSON values, element by element.
pub open spec fn json_seq_view(items: Seq<JsonValue>) -> Seq<JsonV> {
    Seq::new(items.len(), |i: int| items[i]@)
}

/// The view of a list of object entries, entry by entry.
pub open spec fn json_entries_view(entries: Seq<(String, JsonValue)>) -> Seq<(Seq<char>, JsonV)> {
    Seq::new(entries.len(), |i: int| (entries[i].0@, entries[i].1@))
}

/// The view of an optional JSON value.
pub open spec fn json_opt_view(value: Option<JsonValue>) -> Option<JsonV> {
    match value {
        Some(v) => Some(v@),
        None => None,
    }
}

pub proof fn lemma_array_view(items: Vec<JsonValue>)
    ensures
        JsonValue::Array(items)@ == JsonV::Array(json_seq_view(items@)),
{
    assert(JsonValue::Array(items)@->Array_0 =~= json_seq_view(items@));
}

pub proof fn lemma_object_view(entries: Vec<(String, JsonValue)>)
    ensures
        JsonValue::Object(entries)@ == JsonV::Object(json_entries_view(entries@)),
{
    assert(JsonValue::Object(entries)@->Object_0 =~= json_entries_view(entries@));
}

/// Index of the first entry whose key is `key`, searching from `start`.
pub open spec fn entries_find_from(entries: Seq<(Seq<char>, JsonV)>, key: Seq<char>, start: int) -> Option<int>
    decreases entries.len() - start,
{
    if start < 0 || start >= entries.len() {
        None
    } else if entries[start].0 == key {
        Some(start)
    } else {
        entries_find_from(entries, key, start + 1)
    }
}

/// Index of the first entry whose key is `key`.
pub open spec fn entries_find(entries: Seq<(Seq<char>, JsonV)>, key: Seq<char>) -> Option<int> {
    entries_find_from(entries, key, 0)
}

pub proof fn lemma_entries_find_from_bounds(entries: Seq<(Seq<char>, JsonV)>, key: Seq<char>, start: int)
    ensures
        entries_find_from(entries, key, start) matches Some(j) ==> start <= j < entries.len()
            && entries[j].0 == key,
    decreases entries.len() - start,
{
    if 0 <= start < entries.len() && entries[start].0 != key {
        lemma_entries_find_from_bounds(entries, key, start + 1);
    }
}

pub proof fn lemma_entries_find_bounds(entries: Seq<(Seq<char>, JsonV)>, key: Seq<char>)
    ensures
        entries_find(entries, key) matches Some(j) ==> 0 <= j < entries.len() && entries[j].0
            == key,
{
    lemma_entries_find_from_bounds(entries, key, 0);
}

/// The value that an object holds under `key` (the first such entry).
pub open spec fn entries_get(entries: Seq<(Seq<char>, JsonV)>, key: Seq<char>) -> Option<JsonV> {
    match entries_find(entries, key) {
        Some(j) => Some(entries[j].1),
        None => None,
    }
}

/// Whether an object holds an entry under `key`.
pub open spec fn entries_has(entries: Seq<(Seq<char>, JsonV)>, key: Seq<char>) -> bool {
    entries_find(entries, key) is Some
}

/// The string a value holds, if it is a string.
pub open spec fn json_as_str(v: JsonV) -> Option<Seq<char>> {
    match v {
        JsonV::Str(s) => Some(s),
        _ => None,
    }
}

/// The items a value holds, if it is an array.
pub open spec fn json_as_array(v: JsonV) -> Option<Seq<JsonV>> {
    match v {
        JsonV::Array(items) => Some(items),
        _ => None,
    }
}

/// The entries a value holds, if it is an object.
pub open spec fn json_as_object(v: JsonV) -> Option<Seq<(Seq<char>, JsonV)>> {
    match v {
        JsonV::Object(entries) => Some(entries),
        _ => None,
    }
}

/// The boolean a value holds, if it is a boolean.
pub open spec fn json_as_bool(v: JsonV) -> Option<bool> {
    match v {
        JsonV::Bool(b) => Some(b),
        _ => None,
    }
}

/// The unsigned integer a value holds, if it is a number that is one.
pub open spec fn json_as_u64(v: JsonV) -> Option<u64> {
    match v {
        JsonV::Number(JsonNumber::PosInt(n)) => Some(n),
        JsonV::Number(JsonNumber::NegInt(n)) => if n >= 0 {
            Some(n as u64)
        } else {
            None
        },
        _ => None,
    }
}

/// `entries_get` followed by a string test.
pub open spec fn entries_get_str(entries: Seq<(Seq<char>, JsonV)>, key: Seq<char>) -> Option<Seq<char>> {
    match entries_get(entries, key) {
        Some(v) => json_as_str(v),
        None => None,
    }
}

/// `entries_get` followed by an array test.
pub open spec fn entries_get_array(entries: Seq<(Seq<char>, JsonV)>, key: Seq<char>) -> Option<Seq<JsonV>> {
    match entries_get(entries, key) {
        Some(v) => json_as_array(v),
        None => None,
    }
}

/// `entries_get` followed by an object test.
pub open spec fn entries_get_object(entries: Seq<(Seq<char>, JsonV)>, key: Seq<char>) -> Option<
    Seq<(Seq<char>, JsonV)>,
> {
    match entries_get(entries, key) {
        Some(v) => json_as_object(v),
        None => None,
    }
}

/// `entries_get` followed by a boolean test.
pub open spec fn entries_get_bool(entries: Seq<(Seq<char>, JsonV)>, key: Seq<char>) -> Option<bool> {
    match entries_get(entries, key) {
        Some(v) => json_as_bool(v),
        None => None,
    }
}

/// `entries_get` followed by an unsigned integer test.
pub open spec fn entries_get_u64(entries: Seq<(Seq<char>, JsonV)>, key: Seq<char>) -> Option<u64> {
    match entries_get(entries, key) {
        Some(v) => json_as_u64(v),
        None => None,
    }
}

/// The value held under `key` when `v` is an object.
pub open spec fn json_get(v: JsonV, key: Seq<char>) -> Option<JsonV> {
    match v {
        JsonV::Object(entries) => entries_get(entries, key),
        _ => None,
    }
}

/// Compares two string slices with std's `==` on `str`. Claimed, as its
/// documentation says: equal exactly when the characters are.
#[verifier::external_body]
pub(crate) fn str_eq(a: &str, b: &str) -> (r: bool)
    ensures
        r == (a@ == b@),
{
    a == b
}

/// Appends one character to a string with std's `String::push`. Claimed,
/// as its documentation says: the character is added at the end.
#[verifier::external_body]
pub(crate) fn string_push(s: &mut String, c: char)
    ensures
        final(s)@ == old(s)@.push(c),
{
    s.push(c)
}

/// A new string that holds the same characters as `s`.
pub fn str_to_string(s: &str) -> (r: String)
    ensures
        r@ == s@,
{
    String::from_str(s)
}

impl JsonValue {
    /// The entries of the value, if it is an object.
    pub fn as_object(&self) -> (r: Option<&Vec<(String, JsonValue)>>)
        ensures
            match self {
                JsonValue::Object(entries) => r == Some(entries),
                _ => r is None,
            },
            r matches Some(entries) ==> json_as_object(self@) == Some(json_entries_view(entries@)),
            r is None ==> json_as_object(self@) is None,
    {
        match self {
            JsonValue::Object(entries) => {
                proof {
                    lemma_object_view(*entries);
                }
                Some(entries)
            },
            _ => None,
        }
    }

    /// The items of the value, if it is an array.
    pub fn as_array(&self) -> (r: Option<&Vec<JsonValue>>)
        ensures
            match self {
                JsonValue::Array(items) => r == Some(items),
                _ => r is None,
            },
            r matches Some(items) ==> json_as_array(self@) == Some(json_seq_view(items@)),
            r is None ==> json_as_array(self@) is None,
    {
        match self {
            JsonValue::Array(items) => {
                proof {
                    lemma_array_view(*items);
                }
                Some(items)
            },
            _ => None,
        }
    }

    /// The string held by the value, if it is a string.
    pub fn as_str(&self) -> (r: Option<&str>)
        ensures
            match r {
                Some(s) => json_as_str(self@) == Some(s@),
                None => json_as_str(self@) is None,
            },
    {
        match self {
            JsonValue::Str(s) => Some(s.as_str()),
            _ => None,
        }
    }

    /// The boolean held by the value, if it is a boolean.
    pub fn as_bool(&self) -> (r: Option<bool>)
        ensures
            r == json_as_bool(self@),
    {
        match self {
            JsonValue::Bool(b) => Some(*b),
            _ => None,
        }
    }

    /// The unsigned integer held by the value, if it is a number that is one.
    pub fn as_u64(&self) -> (r: Option<u64>)
        ensures
            r == json_as_u64(self@),
    {
        match self {
            JsonValue::Number(JsonNumber::PosInt(n)) => Some(*n),
            JsonValue::Number(JsonNumber::NegInt(n)) => {
                if *n >= 0 {
                    Some(*n as u64)
                } else {
                    None
                }
            },
            _ => None,
        }
    }

    /// A copy of the value.
    pub fn deep_clone(&self) -> (r: JsonValue)
        ensures
            r@ == self@,
        decreases self,
    {
        match self {
            JsonValue::Null => JsonValue::Null,
            JsonValue::Bool(b) => JsonValue::Bool(*b),
            JsonValue::Number(n) => JsonValue::Number(*n),
            JsonValue::Str(s) => JsonValue::Str(str_to_string(s.as_str())),
            JsonValue::Array(items) => {
                let mut out: Vec<JsonValue> = Vec::new();
                let mut i: usize = 0;
                while i < items.len()
                    invariant
                        i <= items.len(),
                        *self == JsonValue::Array(*items),
                        out@.len() == i,
                        forall|k: int| 0 <= k < i ==> #[trigger] out@[k]@ == items@[k]@,
                    decreases items.len() - i,
                {
                    proof {
                        assert(decreases_to!(*self => (*self)->Array_0@[i as int]));
                    }
                    let c = items[i].deep_clone();
                    out.push(c);
                    i = i + 1;
                }
                proof {
                    lemma_array_view(*items);
                    lemma_array_view(out);
                    assert(json_seq_view(out@) =~= json_seq_view(items@));
                }
                JsonValue::Array(out)
            },
            JsonValue::Object(entries) => {
                let mut out: Vec<(String, JsonValue)> = Vec::new();
                let mut i: usize = 0;
                while i < entries.len()
                    invariant
                        i <= entries.len(),
                        *self == JsonValue::Object(*entries),
                        out@.len() == i,
                        forall|k: int|
                            0 <= k < i ==> #[trigger] out@[k].0@ == entries@[k].0@ && out@[k].1@
                                == entries@[k].1@,
                    decreases entries.len() - i,
                {
                    proof {
                        assert(decreases_to!(*self => (*self)->Object_0@[i as int].1));
                    }
                    let c = entries[i].1.deep_clone();
                    let k = str_to_string(entries[i].0.as_str());
                    out.push((k, c));
                    i = i + 1;
                }
                proof {
                    lemma_object_view(*entries);
                    lemma_object_view(out);
                    assert(json_entries_view(out@) =~= json_entries_view(entries@));
                }
                JsonValue::Object(out)
            },
        }
    }
}


/// A value found in an object is smaller than the object.
pub proof fn lemma_entries_get_decreases(entries: Seq<(Seq<char>, JsonV)>, key: Seq<char>)
    ensures
        entries_get(entries, key) matches Some(x) ==> decreases_to!(entries => x),
{
    lemma_entries_find_bounds(entries, key);
    if let Some(j) = entries_find(entries, key) {
        assert(decreases_to!(entries => entries[j].1));
    }
}

/// The index of the first entry under `key`.
pub fn object_find(entries: &Vec<(String, JsonValue)>, key: &str) -> (r: Option<usize>)
    ensures
        match r {
            Some(j) => entries_find(json_entries_view(entries@), key@) == Some(j as int) && j
                < entries@.len() && entries_get(json_entries_view(entries@), key@) == Some(
                entries@[j as int].1@,
            ),
            None => entries_find(json_entries_view(entries@), key@) is None,
        },
{
    let ghost ev = json_entries_view(entries@);
    let mut i: usize = 0;
    while i < entries.len()
        invariant
            i <= entries.len(),
            ev == json_entries_view(entries@),
            entries_find_from(ev, key@, 0) == entries_find_from(ev, key@, i as int),
        decreases entries.len() - i,
    {
        if str_eq(entries[i].0.as_str(), key) {
            return Some(i);
        }
        i = i + 1;
    }
    None
}

/// The value that an object holds under `key` (the first entry with that key).
pub fn object_get<'a>(entries: &'a Vec<(String, JsonValue)>, key: &str) -> (r: Option<&'a JsonValue>)
    ensures
        match r {
            Some(v) => entries_get(json_entries_view(entries@), key@) == Some(v@),
            None => entries_get(json_entries_view(entries@), key@) is None,
        },
{
    let ghost ev = json_entries_view(entries@);
    let mut i: usize = 0;
    while i < entries.len()
        invariant
            i <= entries.len(),
            ev == json_entries_view(entries@),
            entries_find_from(ev, key@, 0) == entries_find_from(ev, key@, i as int),
        decreases entries.len() - i,
    {
        if str_eq(entries[i].0.as_str(), key) {
            return Some(&entries[i].1);
        }
        i = i + 1;
    }
    None
}

/// Whether an object holds an entry under `key`.
pub fn object_has(entries: &Vec<(String, JsonValue)>, key: &str) -> (r: bool)
    ensures
        r == entries_has(json_entries_view(entries@), key@),
{
    object_get(entries, key).is_some()
}

/// The string held under `key`, if there is one and it is a string.
pub fn object_get_str<'a>(entries: &'a Vec<(String, JsonValue)>, key: &str) -> (r: Option<&'a str>)
    ensures
        match r {
            Some(s) => entries_get_str(json_entries_view(entries@), key@) == Some(s@),
            None => entries_get_str(json_entries_view(entries@), key@) is None,
        },
{
    match object_get(entries, key) {
        Some(v) => v.as_str(),
        None => None,
    }
}

/// The array held under `key`, if there is one and it is an array.
pub fn object_get_array<'a>(entries: &'a Vec<(String, JsonValue)>, key: &str) -> (r: Option<&'a Vec<JsonValue>>)
    ensures
        match r {
            Some(items) => entries_get_array(json_entries_view(entries@), key@) == Some(
                json_seq_view(items@),
            ),
            None => entries_get_array(json_entries_view(entries@), key@) is None,
        },
{
    match object_get(entries, key) {
        Some(v) => v.as_array(),
        None => None,
    }
}

/// The object held under `key`, if there is one and it is an object.
pub fn object_get_object<'a>(entries: &'a Vec<(String, JsonValue)>, key: &str) -> (r: Option<
    &'a Vec<(String, JsonValue)>,
>)
    ensures
        match r {
            Some(inner) => entries_get_object(json_entries_view(entries@), key@) == Some(
                json_entries_view(inner@),
            ),
            None => entries_get_object(json_entries_view(entries@), key@) is None,
        },
{
    match object_get(entries, key) {
        Some(v) => v.as_object(),
        None => None,
    }
}

/// The boolean held under `key`, if there is one and it is a boolean.
pub fn object_get_bool(entries: &Vec<(String, JsonValue)>, key: &str) -> (r: Option<bool>)
    ensures
        r == entries_get_bool(json_entries_view(entries@), key@),
{
    match object_get(entries, key) {
        Some(v) => v.as_bool(),
        None => None,
    }
}

/// The unsigned integer held under `key`, if there is one and it is one.
pub fn object_get_u64(entries: &Vec<(String, JsonValue)>, key: &str) -> (r: Option<u64>)
    ensures
        r == entries_get_u64(json_entries_view(entries@), key@),
{
    match object_get(entries, key) {
        Some(v) => v.as_u64(),
        None => None,
    }
}

/// An object's entries after setting `key` to `value`: the first entry under
/// `key` takes the new value where it stands, or a new entry comes last.
pub open spec fn entries_insert(entries: Seq<(Seq<char>, JsonV)>, key: Seq<char>, value: JsonV) -> Seq<
    (Seq<char>, JsonV),
> {
    match entries_find(entries, key) {
        Some(j) => entries.update(j, (key, value)),
        None => entries.push((key, value)),
    }
}

/// Sets `key` to `value` in an object.
pub fn object_insert(entries: &mut Vec<(String, JsonValue)>, key: String, value: JsonValue)
    ensures
        json_entries_view(final(entries)@) == entries_insert(
            json_entries_view(old(entries)@),
            key@,
            value@,
        ),
{
    let ghost before = json_entries_view(entries@);
    let ghost kv = key@;
    let ghost vv = value@;
    match object_find(entries, key.as_str()) {
        Some(j) => {
            entries.set(j, (key, value));
            proof {
                lemma_entries_find_bounds(before, kv);
                assert(json_entries_view(entries@) =~= before.update(j as int, (kv, vv)));
            }
        },
        None => {
            entries.push((key, value));
            proof {
                assert(json_entries_view(entries@) =~= before.push((kv, vv)));
            }
        },
    }
}

} // verus!
