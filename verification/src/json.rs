//! What the engine reads of JSON documents.
use vstd::prelude::*;

verus! {

/// `serde_json::Value`, an opaque JSON value.
#[verifier::external_type_specification]
#[verifier::external_body]
pub struct ExJsonValue(serde_json::Value);

/// `serde_json::Error`, an opaque parse error.
#[verifier::external_type_specification]
#[verifier::external_body]
pub struct ExJsonError(serde_json::Error);

/// What a JSON value holds. Numbers that are not unsigned 64-bit integers are
/// not told apart.
pub enum JsonTree {
    Null,
    Bool(bool),
    Unsigned(u64),
    OtherNumber,
    Text(Seq<char>),
    Array(Seq<JsonTree>),
    Object(Map<Seq<char>, JsonTree>),
}

/// What a `serde_json::Value` holds.
pub uninterp spec fn json_tree(value: serde_json::Value) -> JsonTree;

/// What `serde_json` reads from a text, or nothing where the text is no JSON
/// document.
pub uninterp spec fn json_of(text: Seq<char>) -> Option<JsonTree>;

/// What `serde_json` reads from bytes, or nothing where they are no JSON
/// document.
pub uninterp spec fn json_of_bytes(bytes: Seq<u8>) -> Option<JsonTree>;

/// The member of an object, or nothing where the value is no object or has no
/// such member.
pub open spec fn member(tree: JsonTree, key: Seq<char>) -> Option<JsonTree> {
    match tree {
        JsonTree::Object(members) => if members.contains_key(key) {
            Some(members[key])
        } else {
            None
        },
        _ => None,
    }
}

/// Calls `serde_json::from_str`: the outcome is a function of the text alone,
/// named `json_of`.
#[verifier::external_body]
pub(crate) fn parse_json(text: &str) -> (r: Result<serde_json::Value, serde_json::Error>)
    ensures
        match r {
            Ok(value) => json_of(text@) == Some(json_tree(value)),
            Err(_) => json_of(text@) is None,
        },
{
    serde_json::from_str(text)
}

/// Calls `serde_json::from_slice`: the outcome is a function of the bytes
/// alone, named `json_of_bytes`.
#[verifier::external_body]
pub(crate) fn parse_json_bytes(bytes: &[u8]) -> (r: Result<serde_json::Value, serde_json::Error>)
    ensures
        match r {
            Ok(value) => json_of_bytes(bytes@) == Some(json_tree(value)),
            Err(_) => json_of_bytes(bytes@) is None,
        },
{
    serde_json::from_slice(bytes)
}

/// Calls `serde_json::Value::get` with a string key: the member of an object,
/// nothing for any other value or where the object has no such member.
#[verifier::external_body]
pub(crate) fn json_member<'a>(value: &'a serde_json::Value, key: &str) -> (r: Option<
    &'a serde_json::Value,
>)
    ensures
        match r {
            Some(found) => member(json_tree(*value), key@) == Some(json_tree(*found)),
            None => member(json_tree(*value), key@) is None,
        },
{
    value.get(key)
}

/// Calls `serde_json::Value::as_u64`: the value of a number that is an
/// unsigned 64-bit integer, nothing for anything else.
#[verifier::external_body]
pub(crate) fn json_u64(value: &serde_json::Value) -> (r: Option<u64>)
    ensures
        r == (match json_tree(*value) {
            JsonTree::Unsigned(n) => Some(n),
            _ => None,
        }),
{
    value.as_u64()
}

/// Calls `serde_json::Value::as_bool`: the value of a boolean, nothing for
/// anything else.
#[verifier::external_body]
pub(crate) fn json_bool(value: &serde_json::Value) -> (r: Option<bool>)
    ensures
        r == (match json_tree(*value) {
            JsonTree::Bool(b) => Some(b),
            _ => None,
        }),
{
    value.as_bool()
}

/// Calls `serde_json::Value::as_str`: the text of a string, nothing for
/// anything else.
#[verifier::external_body]
pub(crate) fn json_text(value: &serde_json::Value) -> (r: Option<&str>)
    ensures
        match r {
            Some(text) => json_tree(*value) == JsonTree::Text(text@),
            None => !(json_tree(*value) is Text),
        },
{
    value.as_str()
}

/// Calls `serde_json::Value::as_array`: the elements of an array in order,
/// nothing for anything else.
#[verifier::external_body]
pub(crate) fn json_array(value: &serde_json::Value) -> (r: Option<&Vec<serde_json::Value>>)
    ensures
        match r {
            Some(items) => json_tree(*value) == JsonTree::Array(
                Seq::new(items@.len(), |i: int| json_tree(items@[i])),
            ),
            None => !(json_tree(*value) is Array),
        },
{
    value.as_array()
}

/// The texts of a list of strings.
pub open spec fn texts(items: Seq<String>) -> Seq<Seq<char>> {
    Seq::new(items.len(), |i: int| items[i]@)
}

/// Calls `serde_json::Value::as_object` and `serde_json::Map::keys`: the names
/// of the members of an object, each once, in an order of the map's own;
/// nothing for any other value.
#[verifier::external_body]
pub(crate) fn json_keys(value: &serde_json::Value) -> (r: Option<Vec<String>>)
    ensures
        match r {
            Some(keys) => match json_tree(*value) {
                JsonTree::Object(members) => {
                    &&& texts(keys@).no_duplicates()
                    &&& forall|key: Seq<char>|
                        texts(keys@).contains(key) == #[trigger] members.contains_key(key)
                },
                _ => false,
            },
            None => !(json_tree(*value) is Object),
        },
{
    Some(value.as_object()?.keys().cloned().collect())
}

} // verus!
