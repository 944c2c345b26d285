use vstd::prelude::*;

verus! {

/// A parsed JSON value, reduced to what a manifest reader inspects: string
/// values and objects. Every other kind of value (number, boolean, array)
/// is kept only as `Other`, since no manifest field may hold one.
pub enum Json {
    /// A JSON `null`.
    Null,
    /// A JSON string.
    Str(String),
    /// A JSON object: its fields in the order the parser hands them out.
    Obj(Vec<(String, Json)>),
    /// Any other JSON value: number, boolean, or array.
    Other,
}

/// The value that parsing a given text yields: `None` when the text is not
/// valid JSON. Parsing depends on the text alone.
pub uninterp spec fn json_parse(s: Seq<char>) -> Option<Json>;

#[verifier::external_type_specification]
#[verifier::external_body]
pub struct ExValue(serde_json::Value);

/// Relies on serde_json::from_str::<serde_json::Value>: deserializes a text
/// into a JSON tree, `Err` exactly when the text is not valid JSON; the
/// result depends on the text alone. The tree is folded variant by variant
/// into `Json` by `json_of_value`.
#[verifier::external_body]
pub fn parse_json(s: &str) -> (r: Result<Json, String>)
    ensures
        r is Ok <==> json_parse(s@) is Some,
        r matches Ok(j) ==> json_parse(s@) == Some(j),
{
    match serde_json::from_str::<serde_json::Value>(s) {
        Ok(v) => Ok(json_of_value(&v)),
        Err(e) => Err(e.to_string()),
    }
}

/// Relies on serde_json::Value (an enum of the six JSON value kinds) and on
/// serde_json::Map iteration, which the crate backs with a B-tree map: fields
/// come out sorted by key, one per distinct key. Each variant is moved to its
/// `Json` counterpart; numbers, booleans and arrays all become `Json::Other`.
#[verifier::external_body]
fn json_of_value(v: &serde_json::Value) -> Json {
    match v {
        serde_json::Value::Null => Json::Null,
        serde_json::Value::String(s) => Json::Str(s.clone()),
        serde_json::Value::Object(m) => Json::Obj(
            m.iter().map(|(k, x)| (k.clone(), json_of_value(x))).collect(),
        ),
        serde_json::Value::Bool(_) => Json::Other,
        serde_json::Value::Number(_) => Json::Other,
        serde_json::Value::Array(_) => Json::Other,
    }
}

/// The value of the first field named `key`, if any.
pub open spec fn lookup(fields: Seq<(String, Json)>, key: Seq<char>) -> Option<Json>
    decreases fields.len(),
{
    if fields.len() == 0 {
        None
    } else if fields[0].0@ == key {
        Some(fields[0].1)
    } else {
        lookup(fields.drop_first(), key)
    }
}

/// Finds the first field named `key` in an object's field list.
pub fn obj_get<'a>(fields: &'a Vec<(String, Json)>, key: &str) -> (r: Option<&'a Json>)
    ensures
        match r {
            Some(j) => lookup(fields@, key@) == Some(*j),
            None => lookup(fields@, key@) is None,
        },
{
    let mut i: usize = 0;
    proof {
        assert(fields@.skip(0) =~= fields@);
    }
    while i < fields.len()
        invariant
            i <= fields@.len(),
            lookup(fields@, key@) == lookup(fields@.skip(i as int), key@),
        decreases fields@.len() - i,
    {
        proof {
            assert(fields@.skip(i as int).len() == fields@.len() - i);
            assert(fields@.skip(i as int)[0] == fields@[i as int]);
        }
        if crate::text::str_eq(fields[i].0.as_str(), key) {
            return Some(&fields[i].1);
        }
        proof {
            assert(fields@.skip(i as int).drop_first() =~= fields@.skip(i as int + 1));
        }
        i = i + 1;
    }
    proof {
        assert(fields@.skip(i as int).len() == 0);
    }
    None
}

} // verus!
