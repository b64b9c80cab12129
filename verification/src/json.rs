//! A JSON document model that the library's logic reads and builds, and the parser
//! that turns text into it.
use vstd::prelude::*;

verus! {

#[verifier::external_type_specification]
#[verifier::external_body]
pub struct ExSerdeJsonValue(serde_json::Value);

/// A JSON number, as the parser reports it.
#[derive(Debug)]
pub struct JsonNumber {
    /// The number as a `u64`, when it is a non-negative integer that fits.
    pub as_u64: Option<u64>,
    /// The number as an `i64`, when it is an integer that fits.
    pub as_i64: Option<i64>,
    /// The number's text in JSON syntax.
    pub text: String,
}

/// A JSON value. An object keeps its members in order; a lookup finds the first member
/// with the key.
#[derive(Debug)]
pub enum JsonValue {
    Null,
    Bool(bool),
    Number(JsonNumber),
    String(String),
    Array(Vec<JsonValue>),
    Object(Vec<(String, JsonValue)>),
}

/// The value of the first member of `es` whose key is `key`.
pub open spec fn lookup(es: Seq<(String, JsonValue)>, key: Seq<char>) -> Option<JsonValue>
    decreases es.len(),
{
    if es.len() == 0 {
        None
    } else if es[0].0@ == key {
        Some(es[0].1)
    } else {
        lookup(es.drop_first(), key)
    }
}

/// The member found at position `k`: the first one with the key.
pub proof fn lemma_lookup_at(es: Seq<(String, JsonValue)>, key: Seq<char>, k: int)
    requires
        0 <= k < es.len(),
        es[k].0@ == key,
        forall|j: int| 0 <= j < k ==> (#[trigger] es[j]).0@ != key,
    ensures
        lookup(es, key) == Some(es[k].1),
    decreases k,
{
    if k > 0 {
        let rest = es.drop_first();
        assert(es[0].0@ != key);
        assert forall|j: int| 0 <= j < k - 1 implies (#[trigger] rest[j]).0@ != key by {
            assert(rest[j] == es[j + 1]);
        }
        lemma_lookup_at(rest, key, k - 1);
    }
}

/// No member has the key.
pub proof fn lemma_lookup_absent(es: Seq<(String, JsonValue)>, key: Seq<char>)
    requires
        forall|j: int| 0 <= j < es.len() ==> (#[trigger] es[j]).0@ != key,
    ensures
        lookup(es, key) is None,
    decreases es.len(),
{
    if es.len() > 0 {
        let rest = es.drop_first();
        assert(es[0].0@ != key);
        assert forall|j: int| 0 <= j < rest.len() implies (#[trigger] rest[j]).0@ != key by {
            assert(rest[j] == es[j + 1]);
        }
        lemma_lookup_absent(rest, key);
    }
}

/// `v[key]` when `v` is an object that has the member `key`.
pub open spec fn spec_get(v: JsonValue, key: Seq<char>) -> Option<JsonValue> {
    match v {
        JsonValue::Object(es) => lookup(es@, key),
        _ => None,
    }
}

/// The text of `v` when it is a string.
pub open spec fn spec_as_str(v: JsonValue) -> Option<Seq<char>> {
    match v {
        JsonValue::String(s) => Some(s@),
        _ => None,
    }
}

/// The elements of `v` when it is an array.
pub open spec fn spec_as_array(v: JsonValue) -> Option<Seq<JsonValue>> {
    match v {
        JsonValue::Array(a) => Some(a@),
        _ => None,
    }
}

/// `v` as a `u64` when it is a non-negative integer that fits.
pub open spec fn spec_as_u64(v: JsonValue) -> Option<u64> {
    match v {
        JsonValue::Number(n) => n.as_u64,
        _ => None,
    }
}

/// `spec_get` followed by `spec_as_str`, absent at the first step that fails.
pub open spec fn spec_get_str(v: JsonValue, key: Seq<char>) -> Option<Seq<char>> {
    match spec_get(v, key) {
        Some(x) => spec_as_str(x),
        None => None,
    }
}

/// Law: reading a member's text gives the member's string exactly, and nothing when the
/// member is missing, the value is not an object, or the member is not a string.
pub proof fn law_member_text(v: JsonValue, key: Seq<char>)
    ensures
        !(v is Object) ==> spec_get_str(v, key) is None,
        spec_get(v, key) is None ==> spec_get_str(v, key) is None,
        spec_get(v, key) matches Some(JsonValue::String(s)) ==> spec_get_str(v, key) == Some(s@),
        (spec_get(v, key) matches Some(x) && !(x is String)) ==> spec_get_str(v, key) is None,
        v matches JsonValue::Object(es) ==> spec_get(v, key) == lookup(es@, key),
{
}

/// Law: whether `v` is the string `s`: a string value whose text is exactly `s`.
pub proof fn law_is_text(v: JsonValue, s: Seq<char>)
    ensures
        is_text(v, s) <==> (v is String && v->String_0@ == s),
{
}

/// Law: members have the given keys when there are as many as keys and each, in order,
/// bears the key at its position.
pub proof fn law_keys_are(es: Seq<(String, JsonValue)>, keys: Seq<Seq<char>>)
    ensures
        keys_are(es, keys) <==> (es.len() == keys.len() && forall|i: int|
            0 <= i < es.len() ==> #[trigger] es[i].0@ == keys[i]),
{
}

impl JsonValue {
    /// The member `key` of an object (`serde_json::Value::get` with a string key).
    pub fn get(&self, key: &str) -> (r: Option<&JsonValue>)
        ensures
            match r {
                Some(x) => spec_get(*self, key@) == Some(*x),
                None => spec_get(*self, key@) is None,
            },
    {
        match self {
            JsonValue::Object(es) => {
                let k = key.to_owned();
                let mut i: usize = 0;
                assert(es@.subrange(0, es@.len() as int) == es@);
                while i < es.len()
                    invariant
                        i <= es@.len(),
                        k@ == key@,
                        spec_get(*self, key@) == lookup(es@, key@),
                        lookup(es@, key@) == lookup(es@.subrange(i as int, es@.len() as int), key@),
                    decreases es@.len() - i,
                {
                    let ghost rest = es@.subrange(i as int, es@.len() as int);
                    assert(rest[0] == es@[i as int]);
                    if es[i].0 == k {
                        return Some(&es[i].1);
                    }
                    assert(rest.drop_first() == es@.subrange(i + 1, es@.len() as int));
                    i = i + 1;
                }
                None
            },
            _ => None,
        }
    }

    /// The text of a string value.
    pub fn as_str(&self) -> (r: Option<&String>)
        ensures
            match r {
                Some(s) => spec_as_str(*self) == Some(s@),
                None => spec_as_str(*self) is None,
            },
    {
        match self {
            JsonValue::String(s) => Some(s),
            _ => None,
        }
    }

    /// The elements of an array value.
    pub fn as_array(&self) -> (r: Option<&Vec<JsonValue>>)
        ensures
            match r {
                Some(a) => spec_as_array(*self) == Some(a@),
                None => spec_as_array(*self) is None,
            },
    {
        match self {
            JsonValue::Array(a) => Some(a),
            _ => None,
        }
    }

    /// A non-negative integer value that fits in a `u64`.
    pub fn as_u64(&self) -> (r: Option<u64>)
        ensures
            r == spec_as_u64(*self),
    {
        match self {
            JsonValue::Number(n) => n.as_u64,
            _ => None,
        }
    }

    /// The text of the string member `key` of an object.
    pub fn get_str(&self, key: &str) -> (r: Option<String>)
        ensures
            match r {
                Some(s) => spec_get_str(*self, key@) == Some(s@),
                None => spec_get_str(*self, key@) is None,
            },
    {
        match self.get(key) {
            Some(x) => match x.as_str() {
                Some(s) => Some(s.clone()),
                None => None,
            },
            None => None,
        }
    }
}

/// Whether `v` is the string `s`.
pub open spec fn is_text(v: JsonValue, s: Seq<char>) -> bool {
    v matches JsonValue::String(t) && t@ == s
}

/// Whether the members `es` have exactly the keys `keys`, in that order.
pub open spec fn keys_are(es: Seq<(String, JsonValue)>, keys: Seq<Seq<char>>) -> bool {
    &&& es.len() == keys.len()
    &&& forall|i: int| 0 <= i < es.len() ==> (#[trigger] es[i]).0@ == keys[i]
}

/// A string value.
pub fn json_string(s: &str) -> (v: JsonValue)
    ensures
        v matches JsonValue::String(t) && t@ == s@,
{
    JsonValue::String(s.to_owned())
}

/// An object with the single member `key`.
pub fn json_object1(key: &str, value: JsonValue) -> (v: JsonValue)
    ensures
        v matches JsonValue::Object(es) && es@.len() == 1 && es@[0].0@ == key@ && es@[0].1 == value,
        spec_get(v, key@) == Some(value),
{
    let mut es: Vec<(String, JsonValue)> = Vec::new();
    es.push((key.to_owned(), value));
    let v = JsonValue::Object(es);
    proof {
        lemma_lookup_at(es@, key@, 0);
    }
    v
}

/// The document that JSON text denotes, or the parser's message where the text is not
/// JSON: what `serde_json::from_str::<serde_json::Value>` gives for it.
pub uninterp spec fn json_parse(text: Seq<char>) -> Result<JsonValue, Seq<char>>;

/// Converts a parsed `serde_json::Value` into the library's document model, member for
/// member and element for element; nothing is stated of it beyond what `parse_json` states.
#[verifier::external_body]
fn json_from_serde(v: &serde_json::Value) -> JsonValue {
    match v {
        serde_json::Value::Null => JsonValue::Null,
        serde_json::Value::Bool(b) => JsonValue::Bool(*b),
        serde_json::Value::Number(n) => JsonValue::Number(
            JsonNumber { as_u64: n.as_u64(), as_i64: n.as_i64(), text: n.to_string() },
        ),
        serde_json::Value::String(s) => JsonValue::String(s.clone()),
        serde_json::Value::Array(a) => JsonValue::Array(a.iter().map(json_from_serde).collect()),
        serde_json::Value::Object(m) => JsonValue::Object(
            m.iter().map(|(k, x)| (k.clone(), json_from_serde(x))).collect(),
        ),
    }
}

/// Parses JSON text with `serde_json::from_str::<serde_json::Value>`; an error is given as
/// the text of serde_json's error. The contract claims only that the outcome is a function
/// of the text, named `json_parse`.
#[verifier::external_body]
pub fn parse_json(text: &str) -> (r: Result<JsonValue, String>)
    ensures
        match r {
            Ok(v) => json_parse(text@) == Ok::<JsonValue, Seq<char>>(v),
            Err(m) => json_parse(text@) == Err::<JsonValue, Seq<char>>(m@),
        },
{
    match serde_json::from_str::<serde_json::Value>(text) {
        Ok(v) => Ok(json_from_serde(&v)),
        Err(e) => Err(e.to_string()),
    }
}

} // verus!
