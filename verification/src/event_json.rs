//! Events as JSON values: telling an event's name from its payload.

use vstd::prelude::*;

verus! {

/// `serde_json::Value`, carried through as it is: contracts see nothing of what a
/// value holds.
#[verifier::external_type_specification]
#[verifier::external_body]
pub struct ExJsonValue(serde_json::Value);

/// A JSON value as far as the outermost shape of an event goes: an object with its
/// entries in order, each payload left as it came, or anything else.
#[derive(Debug)]
pub enum Shape<V> {
    Object(Vec<(String, V)>),
    Other,
}

/// Tells an object from the other variants of `serde_json::Value`, and hands an
/// object's entries out in the order that `serde_json::Map::into_iter` gives them.
/// Nothing is claimed of the result: a JSON value is opaque to the contracts here.
#[verifier::external_body]
fn shape_of(value: serde_json::Value) -> (shape: Shape<serde_json::Value>) {
    match value {
        serde_json::Value::Object(map) => Shape::Object(map.into_iter().collect()),
        _ => Shape::Other,
    }
}

/// What the one entry of an event's outermost shape is, or why the shape is no event.
pub open spec fn only_entry_of<V>(shape: Shape<V>, r: Result<(String, V), &'static str>) -> bool {
    match shape {
        Shape::Other => r matches Err(words) && words@ == "event is not an object"@,
        Shape::Object(entries) => if entries.len() == 0 {
            r matches Err(words) && words@ == "event is empty"@
        } else if entries.len() > 1 {
            r matches Err(words) && words@ == "event contains multiple keys"@
        } else {
            r matches Ok(entry) && entry == entries[0]
        },
    }
}

/// The event name and payload of an event's outermost shape: the one entry of an
/// object. Anything but an object, an object without entries and an object with more
/// than one are no events.
pub fn only_entry<V>(shape: Shape<V>) -> (r: Result<(String, V), &'static str>)
    ensures
        only_entry_of(shape, r),
{
    let mut entries = match shape {
        Shape::Object(entries) => entries,
        Shape::Other => {
            return Err("event is not an object");
        },
    };
    if entries.len() > 1 {
        return Err("event contains multiple keys");
    }
    match entries.pop() {
        Some(entry) => Ok(entry),
        None => Err("event is empty"),
    }
}

/// Extracts the event name and payload from an event json value.
/// `{"EventName": {"foo": 1}}` returns `("EventName", {"foo": 1})`.
///
/// The value is taken apart by serde_json; what is handed back is the one entry of
/// the shape that came out of it, as [`only_entry`] finds it.
pub fn extract_event_name_payload(value: serde_json::Value) -> (r: Result<
    (String, serde_json::Value),
    &'static str,
>)
    ensures
        exists|shape: Shape<serde_json::Value>| #[trigger] only_entry_of(shape, r),
{
    only_entry(shape_of(value))
}

} // verus!
