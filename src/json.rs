use vstd::prelude::*;

verus! {

/// A JSON document: numbers keep their text, objects their fields in the parser's order.
pub enum Json {
    Null,
    Bool(bool),
    Number(String),
    Str(String),
    Array(Vec<Json>),
    Object(Vec<(String, Json)>),
}

/// The JSON parser's own document type, which `json_from_value` takes apart.
#[verifier::external_type_specification]
#[verifier::external_body]
pub struct ExJsonValue(serde_json::Value);

/// The document that the JSON parser reads from a body, or `None` when the body is not JSON.
pub uninterp spec fn parsed_json(body: Seq<u8>) -> Option<Json>;

/// Relies on serde_json::from_slice into a `serde_json::Value`: the body is one JSON
/// document with nothing but whitespace after it, or the call fails. The result is a
/// function of the bytes.
#[verifier::external_body]
pub(crate) fn parse_json(body: &[u8]) -> (r: Option<Json>)
    ensures
        r == parsed_json(body@),
{
    serde_json::from_slice::<serde_json::Value>(body).ok().map(|v| json_from_value(&v))
}

/// Rewrites a parsed `serde_json::Value` as a `Json`, variant for variant, keeping the
/// fields of an object in the order in which `serde_json::Map::iter` yields them and the text
/// of a number as `serde_json::Number`'s `to_string` writes it. It states nothing of its
/// own: `parse_json` is the one caller, and its contract covers the result.
#[verifier::external_body]
fn json_from_value(v: &serde_json::Value) -> Json {
    match v {
        serde_json::Value::Null => Json::Null,
        serde_json::Value::Bool(b) => Json::Bool(*b),
        serde_json::Value::Number(n) => Json::Number(n.to_string()),
        serde_json::Value::String(s) => Json::Str(s.clone()),
        serde_json::Value::Array(a) => Json::Array(a.iter().map(json_from_value).collect()),
        serde_json::Value::Object(o) => Json::Object(
            o.iter().map(|(k, x)| (k.clone(), json_from_value(x))).collect(),
        ),
    }
}

/// The value of the first field of `fields` named `key`.
pub open spec fn field_of(fields: Seq<(String, Json)>, key: Seq<char>) -> Option<Json>
    decreases fields.len(),
{
    if fields.len() == 0 {
        None
    } else if fields[0].0@ == key {
        Some(fields[0].1)
    } else {
        field_of(fields.drop_first(), key)
    }
}

/// The text of a JSON string.
pub open spec fn string_of(j: Option<Json>) -> Option<Seq<char>> {
    match j {
        Some(Json::Str(s)) => Some(s@),
        _ => None,
    }
}

/// Decodes every item with `f`; `None` as soon as one item does not decode.
pub open spec fn decode_all<T>(items: Seq<Json>, f: spec_fn(Json) -> Option<T>) -> Option<Seq<T>>
    decreases items.len(),
{
    if items.len() == 0 {
        Some(Seq::empty())
    } else {
        match decode_all(items.drop_last(), f) {
            Some(prev) => match f(items.last()) {
                Some(x) => Some(prev.push(x)),
                None => None,
            },
            None => None,
        }
    }
}

/// Once a prefix of the items fails to decode, so do all items.
pub proof fn lemma_decode_all_fails<T>(items: Seq<Json>, f: spec_fn(Json) -> Option<T>, n: int)
    requires
        0 <= n <= items.len(),
        decode_all(items.subrange(0, n), f) is None,
    ensures
        decode_all(items, f) is None,
    decreases items.len() - n,
{
    if n == items.len() {
        assert(items.subrange(0, n) =~= items);
    } else {
        let next = items.subrange(0, n + 1);
        assert(next.drop_last() =~= items.subrange(0, n));
        lemma_decode_all_fails(items, f, n + 1);
    }
}

/// One more decoded item extends the decoded prefix.
pub proof fn lemma_decode_all_step<T>(items: Seq<Json>, f: spec_fn(Json) -> Option<T>, n: int)
    requires
        0 <= n < items.len(),
    ensures
        decode_all(items.subrange(0, n + 1), f) == match decode_all(items.subrange(0, n), f) {
            Some(prev) => match f(items[n]) {
                Some(x) => Some(prev.push(x)),
                None => None,
            },
            None => None,
        },
{
    assert(items.subrange(0, n + 1).drop_last() =~= items.subrange(0, n));
}

/// The value of the first field named `key`.
pub fn get_field<'a>(fields: &'a Vec<(String, Json)>, key: &String) -> (r: Option<&'a Json>)
    ensures
        match r {
            Some(j) => field_of(fields@, key@) == Some(*j),
            None => field_of(fields@, key@) is None,
        },
{
    let mut i: usize = 0;
    assert(fields@.subrange(0, fields@.len() as int) =~= fields@);
    while i < fields.len()
        invariant
            i <= fields@.len(),
            field_of(fields@, key@) == field_of(fields@.subrange(i as int, fields@.len() as int), key@),
        decreases fields@.len() - i,
    {
        let ghost rest = fields@.subrange(i as int, fields@.len() as int);
        assert(rest.drop_first() =~= fields@.subrange(i + 1, fields@.len() as int));
        if fields[i].0 == *key {
            return Some(&fields[i].1);
        }
        i += 1;
    }
    None
}

/// The text of the string field `key`, if there is one.
pub fn get_string(fields: &Vec<(String, Json)>, key: &String) -> (r: Option<String>)
    ensures
        match r {
            Some(s) => string_of(field_of(fields@, key@)) == Some(s@),
            None => string_of(field_of(fields@, key@)) is None,
        },
{
    match get_field(fields, key) {
        Some(Json::Str(s)) => Some(s.clone()),
        _ => None,
    }
}

} // verus!
