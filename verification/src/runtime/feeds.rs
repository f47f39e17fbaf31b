use vstd::prelude::*;
use crate::runtime::adapters::update_view;
use crate::runtime::value::{Value, ValueView};
use crate::text::str_eq;

verus! {

/// A value of a flat JSON object as the file and HTTP feeds read it: numbers
/// as IEEE-754 double bits; arrays, objects and null are `Other`.
pub enum JsonScalar {
    Number(u64),
    Text(String),
    Bool(bool),
    Other,
}

/// The runtime value a JSON value gives, if it gives one.
pub open spec fn scalar_value(v: JsonScalar) -> Option<ValueView> {
    match v {
        JsonScalar::Number(n) => Some(ValueView::Number(n)),
        JsonScalar::Text(s) => Some(ValueView::Text(s@)),
        JsonScalar::Bool(b) => Some(ValueView::Bool(b)),
        JsonScalar::Other => None,
    }
}

/// The value of the first `id` member, when it is a string.
pub open spec fn json_id(fields: Seq<(String, JsonScalar)>) -> Option<Seq<char>>
    decreases fields.len(),
{
    if fields.len() == 0 {
        None
    } else if fields[0].0@ == "id"@ {
        match fields[0].1 {
            JsonScalar::Text(s) => Some(s@),
            _ => None,
        }
    } else {
        json_id(fields.drop_first())
    }
}

/// The instance an object describes: its string `id`, else `default`.
pub open spec fn json_instance(fields: Seq<(String, JsonScalar)>) -> Seq<char> {
    match json_id(fields) {
        Some(id) => id,
        None => "default"@,
    }
}

/// One update per member other than `id` whose value is a number, a string
/// or a boolean, in the object's order.
pub open spec fn json_updates(fields: Seq<(String, JsonScalar)>, instance: Seq<char>) -> Seq<
    (Seq<char>, Seq<char>, ValueView),
>
    decreases fields.len(),
{
    if fields.len() == 0 {
        Seq::empty()
    } else {
        let rest = json_updates(fields.drop_last(), instance);
        let (k, v) = fields.last();
        if k@ != "id"@ && scalar_value(v) is Some {
            rest.push((instance, k@, scalar_value(v).unwrap()))
        } else {
            rest
        }
    }
}

fn scalar_to_value(v: &JsonScalar) -> (r: Option<Value>)
    ensures
        match r {
            Some(x) => scalar_value(*v) == Some(x@),
            None => scalar_value(*v) is None,
        },
{
    match v {
        JsonScalar::Number(n) => Some(Value::Number(*n)),
        JsonScalar::Text(s) => Some(Value::Text(s.clone())),
        JsonScalar::Bool(b) => Some(Value::Bool(*b)),
        JsonScalar::Other => None,
    }
}

fn instance_of(fields: &Vec<(String, JsonScalar)>) -> (r: String)
    ensures
        r@ == json_instance(fields@),
{
    let n = fields.len();
    let mut i: usize = 0;
    assert(fields@.skip(0) =~= fields@);
    while i < n
        invariant
            n == fields@.len(),
            i <= n,
            json_id(fields@) == json_id(fields@.skip(i as int)),
        decreases n - i,
    {
        assert(fields@.skip(i as int)[0] == fields@[i as int]);
        assert(fields@.skip(i as int).drop_first() =~= fields@.skip(i + 1));
        if str_eq(fields[i].0.as_str(), "id") {
            return match &fields[i].1 {
                JsonScalar::Text(s) => s.clone(),
                _ => String::from_str("default"),
            };
        }
        i += 1;
    }
    String::from_str("default")
}

/// The updates one JSON object read from a feed gives: each scalar member
/// but `id` becomes a field of the instance the object names.
pub fn updates_from_object(fields: &Vec<(String, JsonScalar)>) -> (r: Vec<(String, String, Value)>)
    ensures
        r@.map_values(|u: (String, String, Value)| update_view(u)) == json_updates(
            fields@,
            json_instance(fields@),
        ),
{
    let instance = instance_of(fields);
    let ghost inst = json_instance(fields@);
    let mut out: Vec<(String, String, Value)> = Vec::new();
    let n = fields.len();
    let mut i: usize = 0;
    while i < n
        invariant
            n == fields@.len(),
            i <= n,
            instance@ == inst,
            out@.map_values(|u: (String, String, Value)| update_view(u)) == json_updates(
                fields@.take(i as int),
                inst,
            ),
        decreases n - i,
    {
        let ghost before = out@;
        assert(fields@.take(i + 1).drop_last() =~= fields@.take(i as int));
        assert(fields@.take(i + 1).last() == fields@[i as int]);
        if !str_eq(fields[i].0.as_str(), "id") {
            match scalar_to_value(&fields[i].1) {
                Some(v) => {
                    out.push((instance.clone(), fields[i].0.clone(), v));
                    assert(out@.map_values(|u: (String, String, Value)| update_view(u)) =~= before.map_values(
                        |u: (String, String, Value)| update_view(u),
                    ).push(update_view(out@.last())));
                },
                None => {},
            }
        }
        i += 1;
    }
    assert(fields@.take(n as int) =~= fields@);
    out
}

/// The JSON value a runtime value is published as: numbers, texts and
/// booleans; other values are not published.
pub fn published_scalar(v: &Value) -> (r: Option<JsonScalar>)
    ensures
        match r {
            Some(s) => scalar_value(s) == Some(v@),
            None => !(v@ is Number || v@ is Text || v@ is Bool),
        },
{
    match v {
        Value::Number(n) => Some(JsonScalar::Number(*n)),
        Value::Text(s) => Some(JsonScalar::Text(s.clone())),
        Value::Bool(b) => Some(JsonScalar::Bool(*b)),
        _ => None,
    }
}

} // verus!
