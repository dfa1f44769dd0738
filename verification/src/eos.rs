//! The end-of-sequence tokens of a checkpoint.
use vstd::prelude::*;

use crate::json::{json_array, json_member, json_u64, parse_json};

verus! {

/// Why the end-of-sequence tokens cannot be read.
#[derive(Clone, Copy, Debug, PartialEq, Eq, Structural)]
pub enum Glm52EosError {
    /// The document is no JSON.
    Unparsable,
    /// `eos_token_id` is missing.
    Missing,
    /// An entry is not a token id.
    NotATokenId { index: usize },
    /// The list is empty.
    Empty,
}

/// The token id that a JSON value is, if it is one.
pub open spec fn token_id(tree: crate::json::JsonTree) -> Option<u32> {
    match tree {
        crate::json::JsonTree::Unsigned(n) => if n <= u32::MAX {
            Some(n as u32)
        } else {
            None
        },
        _ => None,
    }
}

/// The entries of `eos_token_id`: the elements of an array, or the one value
/// that stands in its place.
pub open spec fn eos_entries(field: crate::json::JsonTree) -> Seq<crate::json::JsonTree> {
    match field {
        crate::json::JsonTree::Array(items) => items,
        other => seq![other],
    }
}

/// Whether an outcome is that of a parsed `generation_config.json`.
pub open spec fn eos_outcome(
    tree: crate::json::JsonTree,
    r: Result<Vec<u32>, Glm52EosError>,
) -> bool {
    match crate::json::member(tree, "eos_token_id"@) {
        None => r == Err::<Vec<u32>, _>(Glm52EosError::Missing),
        Some(field) => {
            let entries = eos_entries(field);
            match r {
                Ok(ids) => {
                    &&& ids.len() == entries.len()
                    &&& ids.len() > 0
                    &&& forall|i: int|
                        0 <= i < ids.len() ==> token_id(#[trigger] entries[i]) == Some(ids@[i])
                },
                Err(Glm52EosError::NotATokenId { index }) => {
                    &&& index < entries.len()
                    &&& token_id(entries[index as int]) is None
                    &&& forall|i: int|
                        0 <= i < index ==> token_id(#[trigger] entries[i]) is Some
                },
                Err(Glm52EosError::Empty) => entries.len() == 0,
                Err(_) => false,
            }
        },
    }
}

/// The token id that a JSON value is.
fn as_token_id(value: &serde_json::Value) -> (r: Option<u32>)
    ensures
        r == token_id(crate::json::json_tree(*value)),
{
    match json_u64(value) {
        Some(n) => if n <= 0xffff_ffff {
            Some(n as u32)
        } else {
            None
        },
        None => None,
    }
}

/// Reads the end-of-sequence tokens of a parsed `generation_config.json`.
/// `eos_token_id` is a number or an array of numbers.
pub fn eos_token_ids(json: &serde_json::Value) -> (r: Result<Vec<u32>, Glm52EosError>)
    ensures
        eos_outcome(crate::json::json_tree(*json), r),
{
    let field = match json_member(json, "eos_token_id") {
        Some(field) => field,
        None => {
            return Err(Glm52EosError::Missing);
        },
    };
    let mut ids: Vec<u32> = Vec::new();
    match json_array(field) {
        Some(items) => {
            let mut i: usize = 0;
            while i < items.len()
                invariant
                    crate::json::member(crate::json::json_tree(*json), "eos_token_id"@) == Some(
                        crate::json::json_tree(*field),
                    ),
                    crate::json::json_tree(*field) == crate::json::JsonTree::Array(
                        Seq::new(items@.len(), |k: int| crate::json::json_tree(items@[k])),
                    ),
                    i <= items@.len(),
                    ids.len() == i,
                    forall|k: int|
                        0 <= k < i ==> token_id(
                            #[trigger] eos_entries(crate::json::json_tree(*field))[k],
                        ) == Some(ids@[k]),
                decreases items@.len() - i,
            {
                match as_token_id(&items[i]) {
                    Some(id) => {
                        ids.push(id);
                    },
                    None => {
                        return Err(Glm52EosError::NotATokenId { index: i });
                    },
                }
                i = i + 1;
            }
            if ids.len() == 0 {
                return Err(Glm52EosError::Empty);
            }
        },
        None => {
            match as_token_id(field) {
                Some(id) => {
                    ids.push(id);
                },
                None => {
                    return Err(Glm52EosError::NotATokenId { index: 0 });
                },
            }
        },
    }
    Ok(ids)
}

/// A number in the place of the list is read like a list of that number, and
/// a list of token ids is read as it stands, whatever its length.
pub proof fn a_list_of_ids_is_read_as_it_stands(
    tree: crate::json::JsonTree,
    numbers: Seq<u64>,
    r: Result<Vec<u32>, Glm52EosError>,
)
    requires
        eos_outcome(tree, r),
        numbers.len() > 0,
        forall|i: int| 0 <= i < numbers.len() ==> #[trigger] numbers[i] <= 0xffff_ffff,
        crate::json::member(tree, "eos_token_id"@) == Some(
            crate::json::JsonTree::Array(
                Seq::new(numbers.len(), |i: int| crate::json::JsonTree::Unsigned(numbers[i])),
            ),
        ) || (numbers.len() == 1 && crate::json::member(tree, "eos_token_id"@) == Some(
            crate::json::JsonTree::Unsigned(numbers[0]),
        )),
    ensures
        r matches Ok(ids) && ids.len() == numbers.len() && forall|i: int|
            0 <= i < ids.len() ==> #[trigger] ids@[i] as int == numbers[i],
{
    let entries = eos_entries(crate::json::member(tree, "eos_token_id"@)->0);
    assert forall|i: int| 0 <= i < numbers.len() implies #[trigger] entries[i]
        == crate::json::JsonTree::Unsigned(numbers[i]) by {}
    if let Err(Glm52EosError::NotATokenId { index }) = r {
        assert(numbers[index as int] <= 0xffff_ffff);
        assert(entries[index as int] == crate::json::JsonTree::Unsigned(numbers[index as int]));
    }
    if let Ok(ids) = r {
        assert forall|i: int| 0 <= i < ids.len() implies #[trigger] ids@[i] as int
            == numbers[i] by {
            assert(numbers[i] <= 0xffff_ffff);
            assert(token_id(entries[i]) == Some(ids@[i]));
        }
    }
}

/// A number that is no token id refuses the list.
pub proof fn a_large_number_refuses_the_list(
    tree: crate::json::JsonTree,
    items: Seq<crate::json::JsonTree>,
    at: int,
    r: Result<Vec<u32>, Glm52EosError>,
)
    requires
        eos_outcome(tree, r),
        crate::json::member(tree, "eos_token_id"@) == Some(crate::json::JsonTree::Array(items)),
        0 <= at < items.len(),
        items[at] matches crate::json::JsonTree::Unsigned(n) ==> n > 0xffff_ffff,
    ensures
        r matches Err(Glm52EosError::NotATokenId { index }) && index <= at,
{
    assert(token_id(items[at]) is None);
}

/// Reads the end-of-sequence tokens from the text of a
/// `generation_config.json`.
pub fn read_eos_token_ids(content: &str) -> (r: Result<Vec<u32>, Glm52EosError>)
    ensures
        match crate::json::json_of(content@) {
            None => r == Err::<Vec<u32>, _>(Glm52EosError::Unparsable),
            Some(tree) => eos_outcome(tree, r),
        },
{
    match parse_json(content) {
        Ok(json) => eos_token_ids(&json),
        Err(_) => Err(Glm52EosError::Unparsable),
    }
}

} // verus!
