use vstd::prelude::*;

use crate::text::str_eq;

verus! {

/// A decoded JSON document as plain values. Numbers keep the decimal
/// rendering the decoder gives them, so that no numeric precision is gained
/// or lost before an adapter decides how to read them; objects keep the
/// decoder's entry order.
#[derive(Debug, PartialEq)]
pub enum JsonTree {
    Null,
    Bool(bool),
    Num(String),
    Text(String),
    Arr(Vec<JsonTree>),
    Obj(Vec<(String, JsonTree)>),
}

/// Declares serde_json's value type so the decoder below can take it apart.
#[verifier::external_type_specification]
#[verifier::external_body]
pub struct ExValue(serde_json::Value);

/// Relies on serde_json::Value: its six variants map one-to-one onto
/// `JsonTree`; a number is rendered through its `Display`, and an object
/// keeps the map's iteration order.
#[verifier::external_body]
fn tree_of_value(v: serde_json::Value) -> JsonTree {
    match v {
        serde_json::Value::Null => JsonTree::Null,
        serde_json::Value::Bool(b) => JsonTree::Bool(b),
        serde_json::Value::Number(n) => JsonTree::Num(n.to_string()),
        serde_json::Value::String(s) => JsonTree::Text(s),
        serde_json::Value::Array(a) => JsonTree::Arr(a.into_iter().map(tree_of_value).collect()),
        serde_json::Value::Object(m) => JsonTree::Obj(
            m.into_iter().map(|(k, x)| (k, tree_of_value(x))).collect(),
        ),
    }
}

/// What decoding a body yields: the document as a `JsonTree`, or nothing
/// for a body that is not valid JSON; the result depends on the body alone.
pub uninterp spec fn json_of(s: Seq<char>) -> Option<JsonTree>;

/// Relies on serde_json::from_str::<Value>: a syntactically valid JSON
/// document decodes to a value, anything else to an error. Every adapter
/// takes the returned tree apart in verified code, whatever it holds.
#[verifier::external_body]
pub fn decode_json(body: &str) -> (r: Option<JsonTree>)
    ensures
        r == json_of(body@),
{
    match serde_json::from_str::<serde_json::Value>(body) {
        Ok(v) => Some(tree_of_value(v)),
        Err(_) => None,
    }
}

/// The value under the first entry with the given key, if any.
pub open spec fn obj_lookup(entries: Seq<(String, JsonTree)>, key: Seq<char>) -> Option<JsonTree>
    decreases entries.len(),
{
    if entries.len() == 0 {
        None
    } else if entries[0].0@ == key {
        Some(entries[0].1)
    } else {
        obj_lookup(entries.drop_first(), key)
    }
}

/// A lookup skips over entries whose keys do not match.
proof fn lemma_obj_lookup_skip(entries: Seq<(String, JsonTree)>, key: Seq<char>, i: int)
    requires
        0 <= i <= entries.len(),
        forall|k: int| 0 <= k < i ==> (#[trigger] entries[k]).0@ != key,
    ensures
        obj_lookup(entries, key) == obj_lookup(entries.skip(i), key),
    decreases i,
{
    if i == 0 {
        assert(entries.skip(0) =~= entries);
    } else {
        assert(entries[0].0@ != key);
        assert(forall|k: int|
            0 <= k < i - 1 ==> (#[trigger] entries.drop_first()[k]).0@ != key);
        lemma_obj_lookup_skip(entries.drop_first(), key, i - 1);
        assert(entries.drop_first().skip(i - 1) =~= entries.skip(i));
    }
}

/// Finds the first entry of a JSON object with the given key.
pub fn obj_get<'a>(entries: &'a Vec<(String, JsonTree)>, key: &str) -> (r: Option<&'a JsonTree>)
    ensures
        match r {
            Some(t) => obj_lookup(entries@, key@) == Some(*t),
            None => obj_lookup(entries@, key@) is None,
        },
{
    let n = entries.len();
    let mut i: usize = 0;
    while i < n
        invariant
            n == entries@.len(),
            0 <= i <= n,
            forall|k: int| 0 <= k < i ==> (#[trigger] entries@[k]).0@ != key@,
        decreases n - i,
    {
        if str_eq(entries[i].0.as_str(), key) {
            proof {
                lemma_obj_lookup_skip(entries@, key@, i as int);
                assert(entries@.skip(i as int)[0] == entries@[i as int]);
            }
            return Some(&entries[i].1);
        }
        i = i + 1;
    }
    proof {
        lemma_obj_lookup_skip(entries@, key@, n as int);
        assert(entries@.skip(n as int) =~= Seq::<(String, JsonTree)>::empty());
    }
    None
}

} // verus!
