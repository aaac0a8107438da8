//! A plain JSON tree the verified code can look inside, and the trusted
//! boundary to `serde_json`, which does the actual text parsing and rendering.
//!
//! The wire protocol only ever carries integer numbers, so the tree has no
//! floating-point variant; a number with a fraction, or one outside `i64`'s
//! range, is outside the protocol and reads as `Int(0)`.
use vstd::prelude::*;

verus! {

/// A JSON document as plain values. An object is an ordered list of
/// key/value pairs; a lookup takes the first binding of a key.
pub enum JsonValue {
    Null,
    Bool(bool),
    Int(i64),
    Str(String),
    Arr(Vec<JsonValue>),
    Obj(Vec<(String, JsonValue)>),
}

/// Declares `serde_json::Value` so the two trusted converters below may name
/// it; verified code never looks inside one.
#[verifier::external_type_specification]
#[verifier::external_body]
pub struct ExSerdeValue(serde_json::Value);

/// The first binding of `key` in an object's field list, if any.
pub open spec fn lookup(fields: Seq<(String, JsonValue)>, key: Seq<char>) -> Option<JsonValue>
    decreases fields.len(),
{
    if fields.len() == 0 {
        None
    } else if fields[0].0@ == key {
        Some(fields[0].1)
    } else {
        lookup(fields.skip(1), key)
    }
}

/// Finds the first binding of `key`, scanning the field list in order.
pub fn obj_get<'a>(fields: &'a Vec<(String, JsonValue)>, key: &str) -> (r: Option<&'a JsonValue>)
    ensures
        match r {
            Some(v) => lookup(fields@, key@) == Some(*v),
            None => lookup(fields@, key@) is None,
        },
{
    let key_owned = key.to_owned();
    let mut i: usize = 0;
    proof {
        assert(fields@.skip(0) =~= fields@);
    }
    while i < fields.len()
        invariant
            i <= fields.len(),
            key_owned@ == key@,
            lookup(fields@.skip(i as int), key@) == lookup(fields@, key@),
        decreases fields.len() - i,
    {
        proof {
            assert(fields@.skip(i as int)[0] == fields@[i as int]);
        }
        if fields[i].0 == key_owned {
            return Some(&fields[i].1);
        }
        proof {
            assert(fields@.skip(i as int).skip(1) =~= fields@.skip(i + 1 as int));
        }
        i = i + 1;
    }
    proof {
        assert(fields@.skip(fields@.len() as int).len() == 0);
    }
    None
}

/// A lookup lands on position `i` when `i` holds the key and no earlier
/// position does.
pub proof fn lemma_lookup_first_match(fields: Seq<(String, JsonValue)>, key: Seq<char>, i: int)
    requires
        0 <= i < fields.len(),
        fields[i].0@ == key,
        forall|j: int| 0 <= j < i ==> (#[trigger] fields[j]).0@ != key,
    ensures
        lookup(fields, key) == Some(fields[i].1),
    decreases i,
{
    if i > 0 {
        lemma_lookup_first_match(fields.skip(1), key, i - 1);
    }
}

/// A lookup misses when no position holds the key.
pub proof fn lemma_lookup_absent(fields: Seq<(String, JsonValue)>, key: Seq<char>)
    requires
        forall|j: int| 0 <= j < fields.len() ==> (#[trigger] fields[j]).0@ != key,
    ensures
        lookup(fields, key) is None,
    decreases fields.len(),
{
    if fields.len() > 0 {
        lemma_lookup_absent(fields.skip(1), key);
    }
}

/// Takes the first binding of `key` out of an object's field list, handing
/// the bound value itself over, not a copy.
pub fn take_field(fields: Vec<(String, JsonValue)>, key: &str) -> (r: Option<JsonValue>)
    ensures
        r == lookup(fields@, key@),
{
    let key_owned = key.to_owned();
    let mut rest = fields;
    while rest.len() > 0
        invariant
            key_owned@ == key@,
            lookup(rest@, key@) == lookup(fields@, key@),
        decreases rest.len(),
    {
        let ghost before = rest@;
        let (k, v) = rest.remove(0);
        if k == key_owned {
            proof {
                assert((k, v) == before[0]);
                assert(lookup(before, key@) == Some(before[0].1));
            }
            return Some(v);
        }
        proof {
            assert(rest@ =~= before.skip(1));
        }
    }
    None
}

/// The unique JSON value that `text` parses to, or `None` where `text` is not
/// well-formed JSON. What a given text parses to is determined by the text
/// alone, on every machine and in every process.
pub uninterp spec fn parse_of(text: Seq<char>) -> Option<JsonValue>;

/// The text a JSON value renders to, determined by the value alone.
pub uninterp spec fn rendered(v: JsonValue) -> Seq<char>;

/// Relies on `serde_json::from_str::<serde_json::Value>`: parses a JSON text,
/// deterministically, into at most one value. The result is carried over into
/// the library's own tree by `of_serde`, variant for variant.
#[verifier::external_body]
pub fn parse_json(text: &str) -> (r: Option<JsonValue>)
    ensures
        r == parse_of(text@),
{
    match serde_json::from_str::<serde_json::Value>(text) {
        Ok(v) => Some(of_serde(&v)),
        Err(_) => None,
    }
}

/// Relies on `serde_json::to_string`: renders a value, deterministically, as
/// JSON text; on `serde_json::Value` input it does not fail. The argument is
/// carried over by `to_serde`, variant for variant.
#[verifier::external_body]
pub fn render_json(v: &JsonValue) -> (r: String)
    ensures
        r@ == rendered(*v),
{
    match serde_json::to_string(&to_serde(v)) {
        Ok(s) => s,
        Err(_) => String::new(),
    }
}

/// Carries a `serde_json::Value` into the library's tree, one variant to one
/// variant. Only called from `parse_json`'s trusted body.
#[verifier::external_body]
fn of_serde(v: &serde_json::Value) -> JsonValue {
    match v {
        serde_json::Value::Null => JsonValue::Null,
        serde_json::Value::Bool(b) => JsonValue::Bool(*b),
        serde_json::Value::Number(n) => JsonValue::Int(n.as_i64().unwrap_or(0)),
        serde_json::Value::String(s) => JsonValue::Str(s.clone()),
        serde_json::Value::Array(a) => JsonValue::Arr(a.iter().map(of_serde).collect()),
        serde_json::Value::Object(m) => JsonValue::Obj(
            m.iter().map(|(k, x)| (k.clone(), of_serde(x))).collect(),
        ),
    }
}

/// Carries the library's tree into a `serde_json::Value`, one variant to one
/// variant. Only called from `render_json`'s trusted body.
#[verifier::external_body]
fn to_serde(v: &JsonValue) -> serde_json::Value {
    match v {
        JsonValue::Null => serde_json::Value::Null,
        JsonValue::Bool(b) => serde_json::Value::Bool(*b),
        JsonValue::Int(n) => serde_json::Value::Number(serde_json::Number::from(*n)),
        JsonValue::Str(s) => serde_json::Value::String(s.clone()),
        JsonValue::Arr(a) => serde_json::Value::Array(a.iter().map(to_serde).collect()),
        JsonValue::Obj(m) => serde_json::Value::Object(
            m.iter().map(|(k, x)| (k.clone(), to_serde(x))).collect(),
        ),
    }
}

} // verus!
