//! Reading single tensors out of a sharded checkpoint: the index says which
//! shard holds a tensor, and a shard hands out its bytes.
use vstd::prelude::*;
use vstd::string::*;

use crate::json::{
    json_array, json_keys, json_member, json_text, json_u64, parse_json, parse_json_bytes,
};
use crate::text::{after_prefix, contains_text, same_text};

verus! {

/// `safetensors::SafeTensors`, an opaque parsed shard.
#[verifier::external_type_specification]
#[verifier::external_body]
pub struct ExSafeTensors<'data>(safetensors::SafeTensors<'data>);

/// `safetensors::SafeTensorError`, an opaque error.
#[verifier::external_type_specification]
#[verifier::external_body]
pub struct ExSafeTensorError(safetensors::SafeTensorError);

/// The tensors of a parsed shard: the bytes under each name.
pub uninterp spec fn shard_tensors(shard: safetensors::SafeTensors<'_>) -> Map<Seq<char>, Seq<u8>>;

/// What `safetensors` reads from the bytes of a file, or nothing where they
/// are no shard.
pub uninterp spec fn shard_of(file: Seq<u8>) -> Option<Map<Seq<char>, Seq<u8>>>;

/// The number that eight bytes hold, lowest first.
pub open spec fn le_value(bytes: Seq<u8>) -> nat
    decreases bytes.len(),
{
    if bytes.len() == 0 {
        0
    } else {
        bytes[0] as nat + 256 * le_value(bytes.subrange(1, bytes.len() as int))
    }
}

/// The header of a shard file: it stands behind its eight-byte length. Nothing
/// where the length is over the format's limit or the file too short.
pub open spec fn header_of(file: Seq<u8>) -> Seq<u8> {
    if file.len() < 8 {
        Seq::empty()
    } else {
        let n = le_value(file.subrange(0, 8));
        if n > 100_000_000 || 8 + n > file.len() {
            Seq::empty()
        } else {
            file.subrange(8, 8 + n as int)
        }
    }
}

/// The data offsets of a tensor's entry in a header: the member of that name,
/// or the third field where the entry is written as a list.
pub open spec fn offsets_of(info: crate::json::JsonTree) -> Option<crate::json::JsonTree> {
    match info {
        crate::json::JsonTree::Array(fields) => if fields.len() > 2 {
            Some(fields[2])
        } else {
            None
        },
        _ => crate::json::member(info, "data_offsets"@),
    }
}

/// Whether a number is at most `limit`, where it is a number.
pub open spec fn number_fits(number: crate::json::JsonTree, limit: int) -> bool {
    number matches crate::json::JsonTree::Unsigned(n) ==> n <= limit
}

/// Whether the data offsets of a tensor's entry are at most `limit`.
pub open spec fn info_fits(info: crate::json::JsonTree, limit: int) -> bool {
    offsets_of(info) matches Some(crate::json::JsonTree::Array(numbers)) ==> forall|i: int|
        0 <= i < numbers.len() ==> number_fits(#[trigger] numbers[i], limit)
}

/// Whether the data offsets of all tensors of a header are at most `limit`.
/// The metadata of a header is no tensor.
pub open spec fn header_fits(header: crate::json::JsonTree, limit: int) -> bool {
    header matches crate::json::JsonTree::Object(members) ==> forall|key: Seq<char>| #[trigger]
        members.contains_key(key) && key != "__metadata__"@ ==> info_fits(members[key], limit)
}

/// Whether the sum of each data offset and all that stands before the data
/// fits in the address space.
pub open spec fn offsets_fit(file: Seq<u8>) -> bool {
    crate::json::json_of_bytes(header_of(file)) matches Some(header) ==> header_fits(
        header,
        usize::MAX - 8 - header_of(file).len(),
    )
}

/// Calls `safetensors::SafeTensors::deserialize`: the outcome is a function of
/// the file's bytes alone, named `shard_of`. A data offset at the very end of
/// the address space is left out: the sum of the offset and the header's
/// length would not fit. The sum is only reached with a header that is a JSON
/// document.
#[verifier::external_body]
pub(crate) fn parse_shard(file: &[u8]) -> (r: Result<
    safetensors::SafeTensors<'_>,
    safetensors::SafeTensorError,
>)
    requires
        offsets_fit(file@),
    ensures
        match r {
            Ok(shard) => shard_of(file@) == Some(shard_tensors(shard)),
            Err(_) => shard_of(file@) is None,
        },
{
    safetensors::SafeTensors::deserialize(file)
}

/// Calls `safetensors::SafeTensors::tensor`: a copy of the bytes under a name,
/// an error where the shard has no such tensor.
#[verifier::external_body]
pub(crate) fn tensor_of(shard: &safetensors::SafeTensors<'_>, name: &str) -> (r: Result<
    Vec<u8>,
    safetensors::SafeTensorError,
>)
    ensures
        match r {
            Ok(bytes) => {
                &&& shard_tensors(*shard).contains_key(name@)
                &&& bytes@ == shard_tensors(*shard)[name@]
            },
            Err(_) => !shard_tensors(*shard).contains_key(name@),
        },
{
    Ok(shard.tensor(name)?.data().to_vec())
}

/// Why a tensor cannot be read.
#[derive(Clone, Debug)]
pub enum CheckpointError {
    /// The index is no JSON document.
    IndexNotJson,
    /// The index has no weight map.
    WeightMapMissing,
    /// The weight map says nothing of the tensor, or no file name.
    MissingFromMap { name: String },
    /// A selected tensor's shard is no file name.
    ShardNotText { name: String },
    /// A shard's offsets reach the end of the address space.
    OffsetsTooLarge,
    /// A file is no shard.
    NotAShard,
    /// The shard has no such tensor.
    NotInShard { name: String },
    /// The tensor was not loaded.
    NotLoaded { name: String, indexer: bool },
}

impl CheckpointError {
    /// The refusal in words.
    pub open spec fn wording(self) -> Seq<char> {
        match self {
            CheckpointError::IndexNotJson => "index is no JSON document"@,
            CheckpointError::WeightMapMissing => "weight_map missing"@,
            CheckpointError::MissingFromMap { name } => name@ + " missing from weight map"@,
            CheckpointError::ShardNotText { name } => "shard not a string: "@ + name@,
            CheckpointError::OffsetsTooLarge => "shard offsets exceed the address space"@,
            CheckpointError::NotAShard => "file is no safetensors shard"@,
            CheckpointError::NotInShard { name } => "tensor not in shard: "@ + name@,
            CheckpointError::NotLoaded { name, indexer } => (if indexer {
                "layer-0 indexer tensor "@
            } else {
                "layer-0 tensor "@
            }) + name@ + " not loaded"@,
        }
    }

    /// The refusal in words.
    pub fn message(&self) -> (t: String)
        ensures
            t@ == self.wording(),
    {
        match self {
            CheckpointError::IndexNotJson => String::from_str("index is no JSON document"),
            CheckpointError::WeightMapMissing => String::from_str("weight_map missing"),
            CheckpointError::MissingFromMap { name } => {
                let mut t = String::from_str(name.as_str());
                t.append(" missing from weight map");
                t
            },
            CheckpointError::ShardNotText { name } => {
                let mut t = String::from_str("shard not a string: ");
                t.append(name.as_str());
                t
            },
            CheckpointError::OffsetsTooLarge => String::from_str(
                "shard offsets exceed the address space",
            ),
            CheckpointError::NotAShard => String::from_str("file is no safetensors shard"),
            CheckpointError::NotInShard { name } => {
                let mut t = String::from_str("tensor not in shard: ");
                t.append(name.as_str());
                t
            },
            CheckpointError::NotLoaded { name, indexer } => {
                let mut t = if *indexer {
                    String::from_str("layer-0 indexer tensor ")
                } else {
                    String::from_str("layer-0 tensor ")
                };
                t.append(name.as_str());
                t.append(" not loaded");
                t
            },
        }
    }
}

/// The weight map of an index, if the index has one.
pub open spec fn weight_map(index: crate::json::JsonTree) -> Option<
    Map<Seq<char>, crate::json::JsonTree>,
> {
    match crate::json::member(index, "weight_map"@) {
        Some(crate::json::JsonTree::Object(members)) => Some(members),
        _ => None,
    }
}

/// The shard that an index names for a tensor, if it names one.
pub open spec fn shard_named(index: crate::json::JsonTree, name: Seq<char>) -> Option<Seq<char>> {
    match crate::json::member(index, "weight_map"@) {
        Some(map) => match crate::json::member(map, name) {
            Some(crate::json::JsonTree::Text(shard)) => Some(shard),
            _ => None,
        },
        None => None,
    }
}

/// Finds the shard of a tensor in the text of an index.
pub fn find_shard(index: &str, name: &str) -> (r: Result<String, CheckpointError>)
    ensures
        match r {
            Ok(shard) => {
                &&& crate::json::json_of(index@) is Some
                &&& shard_named(crate::json::json_of(index@)->0, name@) == Some(shard@)
            },
            Err(CheckpointError::IndexNotJson) => crate::json::json_of(index@) is None,
            Err(CheckpointError::MissingFromMap { name: missing }) => {
                &&& crate::json::json_of(index@) is Some
                &&& shard_named(crate::json::json_of(index@)->0, name@) is None
                &&& missing@ == name@
            },
            Err(_) => false,
        },
{
    let json = match parse_json(index) {
        Ok(json) => json,
        Err(_) => {
            return Err(CheckpointError::IndexNotJson);
        },
    };
    match shard_in(&json, name) {
        Some(shard) => Ok(shard),
        None => Err(CheckpointError::MissingFromMap { name: String::from_str(name) }),
    }
}

/// Finds the shard of a tensor in an index.
pub fn shard_in(index: &serde_json::Value, name: &str) -> (r: Option<String>)
    ensures
        match r {
            Some(shard) => shard_named(crate::json::json_tree(*index), name@) == Some(shard@),
            None => shard_named(crate::json::json_tree(*index), name@) is None,
        },
{
    match json_member(index, "weight_map") {
        Some(map) => match json_member(map, name) {
            Some(shard) => match json_text(shard) {
                Some(text) => Some(String::from_str(text)),
                None => None,
            },
            None => None,
        },
        None => None,
    }
}

/// A tensor that is wanted, and the shard that holds it.
#[derive(Clone, Debug)]
pub struct SelectedTensor {
    pub name: String,
    pub shard: String,
}

/// Whether a tensor belongs to the first layer's attention, or to its indexer.
pub open spec fn wanted(name: Seq<char>, indexer: bool) -> bool {
    if indexer {
        crate::text::starts_with(name, "model.layers.0.self_attn.indexer"@)
    } else {
        crate::text::starts_with(name, "model.layers.0.self_attn"@) && !crate::text::holds_text(
            name,
            ".indexer."@,
        )
    }
}

fn is_wanted(name: &str, indexer: bool) -> (r: bool)
    ensures
        r == wanted(name@, indexer),
{
    if indexer {
        after_prefix(name, "model.layers.0.self_attn.indexer").is_some()
    } else {
        after_prefix(name, "model.layers.0.self_attn").is_some() && !contains_text(
            name,
            ".indexer.",
        )
    }
}

/// Whether a selection holds a tensor of this name.
pub open spec fn selects(selected: Seq<SelectedTensor>, name: Seq<char>) -> bool {
    exists|i: int| 0 <= i < selected.len() && (#[trigger] selected[i]).name@ == name
}

/// Whether a selected tensor is wanted and stands in the weight map with its
/// shard.
pub open spec fn comes_from(
    t: SelectedTensor,
    map: Map<Seq<char>, crate::json::JsonTree>,
    indexer: bool,
) -> bool {
    &&& wanted(t.name@, indexer)
    &&& map.contains_key(t.name@)
    &&& map[t.name@] == crate::json::JsonTree::Text(t.shard@)
}

/// Whether a selection has the wanted tensors of a weight map, each once.
pub open spec fn is_selection(
    selected: Seq<SelectedTensor>,
    map: Map<Seq<char>, crate::json::JsonTree>,
    indexer: bool,
) -> bool {
    &&& forall|i: int|
        0 <= i < selected.len() ==> comes_from(#[trigger] selected[i], map, indexer)
    &&& forall|i: int, j: int|
        0 <= i < j < selected.len() ==> (#[trigger] selected[i]).name@ != (
        #[trigger] selected[j]).name@
    &&& forall|name: Seq<char>| #[trigger]
        map.contains_key(name) && wanted(name, indexer) ==> selects(selected, name)
}

/// Selects the first layer's attention tensors, or those of its indexer, from
/// an index.
pub fn select_layer0(index: &serde_json::Value, indexer: bool) -> (r: Result<
    Vec<SelectedTensor>,
    CheckpointError,
>)
    ensures
        match r {
            Ok(selected) => match weight_map(crate::json::json_tree(*index)) {
                Some(map) => is_selection(selected@, map, indexer),
                None => false,
            },
            Err(CheckpointError::WeightMapMissing) => weight_map(
                crate::json::json_tree(*index),
            ) is None,
            Err(CheckpointError::ShardNotText { name }) => match weight_map(
                crate::json::json_tree(*index),
            ) {
                Some(map) => wanted(name@, indexer) && map.contains_key(name@) && !(map[name@] is Text),
                None => false,
            },
            Err(_) => false,
        },
{
    let map = match json_member(index, "weight_map") {
        Some(map) => map,
        None => {
            return Err(CheckpointError::WeightMapMissing);
        },
    };
    let keys: Vec<String> = match json_keys(map) {
        Some(keys) => keys,
        None => {
            return Err(CheckpointError::WeightMapMissing);
        },
    };
    let ghost members = match crate::json::json_tree(*map) {
        crate::json::JsonTree::Object(members) => members,
        _ => Map::empty(),
    };
    let ghost names = crate::json::texts(keys@);
    let mut selected: Vec<SelectedTensor> = Vec::new();
    let mut i: usize = 0;
    while i < keys.len()
        invariant
            i <= keys.len(),
            names == crate::json::texts(keys@),
            names.no_duplicates(),
            crate::json::json_tree(*map) == crate::json::JsonTree::Object(members),
            weight_map(crate::json::json_tree(*index)) == Some(members),
            forall|key: Seq<char>| names.contains(key) == #[trigger] members.contains_key(key),
            forall|m: int|
                0 <= m < selected.len() ==> comes_from(#[trigger] selected@[m], members, indexer),
            forall|m: int|
                0 <= m < selected.len() ==> names.subrange(0, i as int).contains(
                    (#[trigger] selected@[m]).name@,
                ),
            forall|a: int, b: int|
                0 <= a < b < selected.len() ==> (#[trigger] selected@[a]).name@ != (
                #[trigger] selected@[b]).name@,
            forall|j: int|
                0 <= j < i && wanted(#[trigger] names[j], indexer) ==> selects(
                    selected@,
                    names[j],
                ),
        decreases keys.len() - i,
    {
        let name = keys[i].as_str();
        let ghost before = selected@;
        assert(names[i as int] == name@);
        assert(names.contains(name@));
        assert(members.contains_key(name@));
        assert forall|m: int| 0 <= m < before.len() implies (#[trigger] before[m]).name@
            != name@ by {
            assert(names.subrange(0, i as int).contains(before[m].name@));
            let w = choose|w: int|
                0 <= w < i && names.subrange(0, i as int)[w] == before[m].name@;
            assert(names[w] == before[m].name@);
        }
        assert forall|m: int| 0 <= m < before.len() implies names.subrange(0, i + 1).contains(
            (#[trigger] before[m]).name@,
        ) by {
            let w = choose|w: int|
                0 <= w < i && names.subrange(0, i as int)[w] == before[m].name@;
            assert(names.subrange(0, i + 1)[w] == before[m].name@);
        }
        if is_wanted(name, indexer) {
            match json_member(map, name) {
                Some(shard) => match json_text(shard) {
                    Some(text) => {
                        let t = SelectedTensor {
                            name: String::from_str(name),
                            shard: String::from_str(text),
                        };
                        selected.push(t);
                        assert(comes_from(selected@[before.len() as int], members, indexer));
                        assert(names.subrange(0, i + 1)[i as int] == name@);
                    },
                    None => {
                        return Err(
                            CheckpointError::ShardNotText { name: String::from_str(name) },
                        );
                    },
                },
                None => {
                    assert(false);
                },
            }
        }
        assert forall|j: int| 0 <= j < i + 1 && wanted(#[trigger] names[j], indexer) implies selects(
            selected@,
            names[j],
        ) by {
            if j < i {
                assert(selects(before, names[j]));
                let w = choose|w: int|
                    0 <= w < before.len() && (#[trigger] before[w]).name@ == names[j];
                assert(selected@[w].name@ == names[j]);
            } else {
                assert(selected@[before.len() as int].name@ == names[j]);
            }
        }
        i = i + 1;
    }
    assert forall|name: Seq<char>| #[trigger]
        members.contains_key(name) && wanted(name, indexer) implies selects(selected@, name) by {
        assert(names.contains(name));
        let j = choose|j: int| 0 <= j < names.len() && names[j] == name;
        assert(wanted(names[j], indexer));
    }
    Ok(selected)
}

/// Selects from the text of an index.
pub fn read_selection(index: &str, indexer: bool) -> (r: Result<
    Vec<SelectedTensor>,
    CheckpointError,
>)
    ensures
        match r {
            Ok(selected) => match crate::json::json_of(index@) {
                Some(tree) => weight_map(tree) is Some && is_selection(
                    selected@,
                    weight_map(tree)->0,
                    indexer,
                ),
                None => false,
            },
            Err(CheckpointError::IndexNotJson) => crate::json::json_of(index@) is None,
            Err(CheckpointError::WeightMapMissing) => crate::json::json_of(index@) is Some
                && weight_map(crate::json::json_of(index@)->0) is None,
            Err(CheckpointError::ShardNotText { name }) => match crate::json::json_of(index@) {
                Some(tree) => weight_map(tree) is Some && wanted(name@, indexer) && (weight_map(
                    tree,
                )->0).contains_key(name@) && !((weight_map(tree)->0)[name@] is Text),
                None => false,
            },
            Err(_) => false,
        },
{
    match parse_json(index) {
        Ok(json) => select_layer0(&json, indexer),
        Err(_) => Err(CheckpointError::IndexNotJson),
    }
}

/// Whether a selected tensor stands in this shard.
pub open spec fn uses_shard(selected: Seq<SelectedTensor>, shard: Seq<char>) -> bool {
    exists|i: int| 0 <= i < selected.len() && (#[trigger] selected[i]).shard@ == shard
}

/// Whether a list of shards names this one.
pub open spec fn names_shard(shards: Seq<String>, shard: Seq<char>) -> bool {
    exists|i: int| 0 <= i < shards.len() && (#[trigger] shards[i])@ == shard
}

fn find_name(shards: &Vec<String>, shard: &str) -> (r: bool)
    ensures
        r == names_shard(shards@, shard@),
{
    let mut i: usize = 0;
    while i < shards.len()
        invariant
            i <= shards.len(),
            forall|j: int| 0 <= j < i ==> (#[trigger] shards@[j])@ != shard@,
        decreases shards.len() - i,
    {
        if same_text(shards[i].as_str(), shard) {
            assert(shards@[i as int]@ == shard@);
            return true;
        }
        i = i + 1;
    }
    false
}

/// The shards of a selection, each once.
pub fn shards_of(selected: &Vec<SelectedTensor>) -> (r: Vec<String>)
    ensures
        crate::json::texts(r@).no_duplicates(),
        forall|i: int|
            0 <= i < selected.len() ==> names_shard(r@, (#[trigger] selected@[i]).shard@),
        forall|j: int| 0 <= j < r.len() ==> uses_shard(selected@, (#[trigger] r@[j])@),
        forall|shard: Seq<char>|
            (exists|i: int| 0 <= i < selected.len() && (#[trigger] selected@[i]).shard@ == shard)
                <==> #[trigger] crate::json::texts(r@).contains(shard),
{
    let mut shards: Vec<String> = Vec::new();
    let mut i: usize = 0;
    while i < selected.len()
        invariant
            i <= selected.len(),
            crate::json::texts(shards@).no_duplicates(),
            forall|k: int|
                0 <= k < i ==> names_shard(shards@, (#[trigger] selected@[k]).shard@),
            forall|j: int|
                0 <= j < shards.len() ==> uses_shard(selected@, (#[trigger] shards@[j])@),
        decreases selected.len() - i,
    {
        let ghost before = shards@;
        if !find_name(&shards, selected[i].shard.as_str()) {
            shards.push(String::from_str(selected[i].shard.as_str()));
            proof {
                let texts = crate::json::texts(shards@);
                assert forall|a: int, b: int| 0 <= a < b < texts.len() implies texts[a]
                    != texts[b] by {
                    if b < before.len() {
                        assert(crate::json::texts(before)[a] == texts[a]);
                        assert(crate::json::texts(before)[b] == texts[b]);
                    } else {
                        assert(texts[a] == before[a]@);
                    }
                }
                assert forall|j: int| 0 <= j < shards.len() implies uses_shard(
                    selected@,
                    (#[trigger] shards@[j])@,
                ) by {
                    if j < before.len() {
                        assert(shards@[j] == before[j]);
                    } else {
                        assert(selected@[i as int].shard@ == shards@[j]@);
                    }
                }
                assert(shards@[before.len() as int]@ == selected@[i as int].shard@);
                assert forall|k: int| 0 <= k < i implies names_shard(
                    shards@,
                    (#[trigger] selected@[k]).shard@,
                ) by {
                    let w = choose|w: int|
                        0 <= w < before.len() && (#[trigger] before[w])@
                            == selected@[k].shard@;
                    assert(shards@[w]@ == selected@[k].shard@);
                }
            }
        }
        i = i + 1;
    }
    proof {
        let names = crate::json::texts(shards@);
        assert forall|shard: Seq<char>|
            (exists|k: int| 0 <= k < selected.len() && (#[trigger] selected@[k]).shard@ == shard)
                <==> #[trigger] names.contains(shard) by {
            if exists|k: int|
                0 <= k < selected.len() && (#[trigger] selected@[k]).shard@ == shard {
                let k = choose|k: int|
                    0 <= k < selected.len() && (#[trigger] selected@[k]).shard@ == shard;
                assert(names_shard(shards@, selected@[k].shard@));
                let w = choose|w: int|
                    0 <= w < shards.len() && (#[trigger] shards@[w])@ == shard;
                assert(names[w] == shard);
            }
            if names.contains(shard) {
                let w = choose|w: int| 0 <= w < names.len() && names[w] == shard;
                assert(uses_shard(selected@, shards@[w]@));
            }
        }
    }
    shards
}

fn read_le(file: &[u8]) -> (r: u64)
    requires
        file@.len() >= 8,
    ensures
        r == le_value(file@.subrange(0, 8)),
{
    let mut i: usize = 8;
    let mut value: u64 = 0;
    let ghost mut bound: nat = 1;
    let ghost head = file@.subrange(0, 8);
    proof {
        assert(head.subrange(8, 8) =~= Seq::<u8>::empty());
    }
    while i > 0
        invariant
            i <= 8,
            file@.len() >= 8,
            head == file@.subrange(0, 8),
            value == le_value(head.subrange(i as int, 8)),
            value < bound,
            i == 8 ==> bound == 1,
            i == 7 ==> bound == 0x100,
            i == 6 ==> bound == 0x1_0000,
            i == 5 ==> bound == 0x100_0000,
            i == 4 ==> bound == 0x1_0000_0000,
            i == 3 ==> bound == 0x100_0000_0000,
            i == 2 ==> bound == 0x1_0000_0000_0000,
            i == 1 ==> bound == 0x100_0000_0000_0000,
            i == 0 ==> bound == 0x1_0000_0000_0000_0000,
        decreases i,
    {
        i = i - 1;
        proof {
            bound = 256 * bound;
            assert(head.subrange(i as int, 8).subrange(1, 8 - i) =~= head.subrange(i + 1, 8));
        }
        value = file[i] as u64 + 256 * value;
    }
    assert(head.subrange(0, 8) =~= head);
    value
}

/// Tests whether the data offsets of a tensor's entry are at most `limit`.
fn check_info(info: &serde_json::Value, limit: usize) -> (r: bool)
    ensures
        r == info_fits(crate::json::json_tree(*info), limit as int),
{
    let offsets: &serde_json::Value = match json_array(info) {
        Some(fields) => {
            if fields.len() > 2 {
                &fields[2]
            } else {
                return true;
            }
        },
        None => match json_member(info, "data_offsets") {
            Some(offsets) => offsets,
            None => {
                return true;
            },
        },
    };
    assert(offsets_of(crate::json::json_tree(*info)) == Some(crate::json::json_tree(*offsets)));
    let numbers: &Vec<serde_json::Value> = match json_array(offsets) {
        Some(numbers) => numbers,
        None => {
            return true;
        },
    };
    let ghost trees = Seq::new(numbers@.len(), |i: int| crate::json::json_tree(numbers@[i]));
    assert(crate::json::json_tree(*offsets) == crate::json::JsonTree::Array(trees));
    let mut i: usize = 0;
    while i < numbers.len()
        invariant
            i <= numbers.len(),
            trees == Seq::new(numbers@.len(), |i: int| crate::json::json_tree(numbers@[i])),
            offsets_of(crate::json::json_tree(*info)) == Some(
                crate::json::JsonTree::Array(trees),
            ),
            forall|j: int| 0 <= j < i ==> number_fits(#[trigger] trees[j], limit as int),
        decreases numbers.len() - i,
    {
        let number: Option<u64> = json_u64(&numbers[i]);
        assert(trees[i as int] == crate::json::json_tree(numbers@[i as int]));
        if let Some(n) = number {
            if n > limit as u64 {
                proof {
                    let tree = crate::json::json_tree(*info);
                    assert(trees[i as int] == crate::json::JsonTree::Unsigned(n));
                    assert(!number_fits(trees[i as int], limit as int));
                    assert(offsets_of(tree)->0->Array_0 == trees);
                    assert(!info_fits(tree, limit as int));
                }
                return false;
            }
        }
        i = i + 1;
    }
    true
}

/// Tests whether the sum of each data offset of a shard file and all that
/// stands before the data fits in the address space.
pub fn check_offsets(file: &[u8]) -> (r: bool)
    ensures
        r == offsets_fit(file@),
{
    let len: usize = file.len();
    let mut stop: usize = 8;
    if len >= 8 {
        let n: u64 = read_le(file);
        if n <= 100_000_000 && n <= (len - 8) as u64 {
            stop = 8 + n as usize;
        }
    }
    let header: &[u8] = if len >= 8 {
        vstd::slice::slice_subrange(file, 8, stop)
    } else {
        vstd::slice::slice_subrange(file, 0, 0)
    };
    assert(header@ =~= header_of(file@));
    let limit: usize = usize::MAX - stop;
    let value: serde_json::Value = match parse_json_bytes(header) {
        Ok(value) => value,
        Err(_) => {
            return true;
        },
    };
    let keys: Vec<String> = match json_keys(&value) {
        Some(keys) => keys,
        None => {
            return true;
        },
    };
    let ghost tree = crate::json::json_tree(value);
    let ghost members = tree->Object_0;
    let mut i: usize = 0;
    while i < keys.len()
        invariant
            i <= keys.len(),
            tree == crate::json::json_tree(value),
            tree == crate::json::JsonTree::Object(members),
            forall|key: Seq<char>|
                crate::json::texts(keys@).contains(key) == #[trigger] members.contains_key(key),
            forall|j: int|
                0 <= j < i && (#[trigger] keys@[j])@ != "__metadata__"@ ==> info_fits(
                    members[keys@[j]@],
                    limit as int,
                ),
            crate::json::json_of_bytes(header_of(file@)) == Some(tree),
            limit == usize::MAX - 8 - header_of(file@).len(),
        decreases keys.len() - i,
    {
        let key: &str = keys[i].as_str();
        proof {
            assert(crate::json::texts(keys@)[i as int] == key@);
            assert(crate::json::texts(keys@).contains(key@));
            assert(members.contains_key(key@));
        }
        if !same_text(key, "__metadata__") {
            if let Some(info) = json_member(&value, key) {
                if !check_info(info, limit) {
                    assert(!info_fits(members[key@], limit as int));
                    return false;
                }
            }
        }
        i = i + 1;
    }
    proof {
        assert forall|key: Seq<char>| #[trigger]
            members.contains_key(key) && key != "__metadata__"@ implies info_fits(
            members[key],
            limit as int,
        ) by {
            assert(crate::json::texts(keys@).contains(key));
            let j = choose|j: int|
                0 <= j < keys@.len() && crate::json::texts(keys@)[j] == key;
            assert(keys@[j]@ == key);
        }
    }
    true
}

/// Reads the bytes of one tensor out of a shard file.
pub fn read_tensor(file: &[u8], name: &str) -> (r: Result<Vec<u8>, CheckpointError>)
    ensures
        match r {
            Ok(bytes) => {
                &&& offsets_fit(file@)
                &&& shard_of(file@) is Some
                &&& (shard_of(file@)->0).contains_key(name@)
                &&& bytes@ == (shard_of(file@)->0)[name@]
            },
            Err(CheckpointError::OffsetsTooLarge) => !offsets_fit(file@),
            Err(CheckpointError::NotAShard) => offsets_fit(file@) && shard_of(file@) is None,
            Err(CheckpointError::NotInShard { name: missing }) => {
                &&& offsets_fit(file@)
                &&& shard_of(file@) is Some
                &&& !(shard_of(file@)->0).contains_key(name@)
                &&& missing@ == name@
            },
            Err(_) => false,
        },
{
    if !check_offsets(file) {
        return Err(CheckpointError::OffsetsTooLarge);
    }
    match parse_shard(file) {
        Ok(shard) => match tensor_of(&shard, name) {
            Ok(bytes) => Ok(bytes),
            Err(_) => Err(CheckpointError::NotInShard { name: String::from_str(name) }),
        },
        Err(_) => Err(CheckpointError::NotAShard),
    }
}

/// Tensors held in memory, in the order in which they were loaded.
#[derive(Clone, Debug)]
pub struct TensorStore {
    pub entries: Vec<(String, Vec<u8>)>,
}

/// What the first `k` entries hold: a later one replaces an earlier one of the
/// same name.
pub open spec fn held(entries: Seq<(String, Vec<u8>)>, k: int) -> Map<Seq<char>, Seq<u8>>
    decreases k,
{
    if k <= 0 {
        Map::empty()
    } else {
        held(entries, k - 1).insert(entries[k - 1].0@, entries[k - 1].1@)
    }
}

proof fn lemma_held_prefix(a: Seq<(String, Vec<u8>)>, b: Seq<(String, Vec<u8>)>, k: int)
    requires
        0 <= k <= a.len(),
        k <= b.len(),
        forall|i: int| 0 <= i < k ==> a[i] == b[i],
    ensures
        held(a, k) == held(b, k),
    decreases k,
{
    if k > 0 {
        lemma_held_prefix(a, b, k - 1);
    }
}

proof fn lemma_not_held(entries: Seq<(String, Vec<u8>)>, k: int, name: Seq<char>)
    requires
        0 <= k <= entries.len(),
        forall|i: int| 0 <= i < k ==> (#[trigger] entries[i]).0@ != name,
    ensures
        !held(entries, k).contains_key(name),
    decreases k,
{
    if k > 0 {
        lemma_not_held(entries, k - 1, name);
    }
}

proof fn lemma_last_held(entries: Seq<(String, Vec<u8>)>, at: int, k: int)
    requires
        0 <= at < k <= entries.len(),
        forall|i: int| at < i < k ==> (#[trigger] entries[i]).0@ != entries[at].0@,
    ensures
        held(entries, k).contains_key(entries[at].0@),
        held(entries, k)[entries[at].0@] == entries[at].1@,
    decreases k,
{
    if at < k - 1 {
        lemma_last_held(entries, at, k - 1);
    }
}

/// The first of the first `k` selected tensors of a shard that the shard does
/// not hold.
pub open spec fn first_missing(
    tensors: Map<Seq<char>, Seq<u8>>,
    selected: Seq<SelectedTensor>,
    shard: Seq<char>,
    k: int,
) -> Option<Seq<char>>
    decreases k,
{
    if k <= 0 {
        None
    } else {
        match first_missing(tensors, selected, shard, k - 1) {
            Some(name) => Some(name),
            None => if selected[k - 1].shard@ == shard && !tensors.contains_key(
                selected[k - 1].name@,
            ) {
                Some(selected[k - 1].name@)
            } else {
                None
            },
        }
    }
}

/// What is held after the first `k` selected tensors of a shard were loaded.
pub open spec fn with_shard(
    before: Map<Seq<char>, Seq<u8>>,
    tensors: Map<Seq<char>, Seq<u8>>,
    selected: Seq<SelectedTensor>,
    shard: Seq<char>,
    k: int,
) -> Map<Seq<char>, Seq<u8>>
    decreases k,
{
    if k <= 0 {
        before
    } else {
        let rest = with_shard(before, tensors, selected, shard, k - 1);
        if selected[k - 1].shard@ == shard {
            rest.insert(selected[k - 1].name@, tensors[selected[k - 1].name@])
        } else {
            rest
        }
    }
}

proof fn lemma_missing_stays(
    tensors: Map<Seq<char>, Seq<u8>>,
    selected: Seq<SelectedTensor>,
    shard: Seq<char>,
    k: int,
    n: int,
)
    requires
        k <= n,
        first_missing(tensors, selected, shard, k) is Some,
    ensures
        first_missing(tensors, selected, shard, n) == first_missing(tensors, selected, shard, k),
    decreases n - k,
{
    if k < n {
        lemma_missing_stays(tensors, selected, shard, k, n - 1);
    }
}

impl View for TensorStore {
    type V = Map<Seq<char>, Seq<u8>>;

    open spec fn view(&self) -> Map<Seq<char>, Seq<u8>> {
        held(self.entries@, self.entries@.len() as int)
    }
}

impl TensorStore {
    /// A store that holds nothing.
    pub fn new() -> (r: Self)
        ensures
            r@ == Map::<Seq<char>, Seq<u8>>::empty(),
    {
        TensorStore { entries: Vec::new() }
    }

    fn insert(&mut self, name: &str, bytes: Vec<u8>)
        ensures
            final(self)@ == old(self)@.insert(name@, bytes@),
    {
        let ghost before = self.entries@;
        self.entries.push((String::from_str(name), bytes));
        proof {
            lemma_held_prefix(before, self.entries@, before.len() as int);
        }
    }

    /// The bytes of a tensor.
    pub fn get(&self, name: &str) -> (r: Option<&Vec<u8>>)
        ensures
            match r {
                Some(bytes) => self@.contains_key(name@) && self@[name@] == bytes@,
                None => !self@.contains_key(name@),
            },
    {
        let mut i: usize = self.entries.len();
        while i > 0
            invariant
                i <= self.entries.len(),
                forall|j: int|
                    i <= j < self.entries.len() ==> (#[trigger] self.entries@[j]).0@ != name@,
            decreases i,
        {
            i = i - 1;
            if same_text(self.entries[i].0.as_str(), name) {
                proof {
                    lemma_last_held(self.entries@, i as int, self.entries@.len() as int);
                }
                return Some(&self.entries[i].1);
            }
        }
        proof {
            lemma_not_held(self.entries@, self.entries@.len() as int, name@);
        }
        None
    }

    /// Loads the selected tensors of one shard from the shard's file.
    pub fn add_shard(&mut self, selected: &Vec<SelectedTensor>, shard: &str, file: &[u8]) -> (r:
        Result<(), CheckpointError>)
        ensures
            match r {
                Ok(_) => {
                    &&& offsets_fit(file@)
                    &&& shard_of(file@) is Some
                    &&& first_missing(
                        shard_of(file@)->0,
                        selected@,
                        shard@,
                        selected@.len() as int,
                    ) is None
                    &&& final(self)@ == with_shard(
                        old(self)@,
                        shard_of(file@)->0,
                        selected@,
                        shard@,
                        selected@.len() as int,
                    )
                },
                Err(CheckpointError::OffsetsTooLarge) => !offsets_fit(file@),
                Err(CheckpointError::NotAShard) => offsets_fit(file@) && shard_of(file@) is None,
                Err(CheckpointError::NotInShard { name }) => {
                    &&& offsets_fit(file@)
                    &&& shard_of(file@) is Some
                    &&& first_missing(
                        shard_of(file@)->0,
                        selected@,
                        shard@,
                        selected@.len() as int,
                    ) == Some(name@)
                },
                Err(_) => false,
            },
    {
        if !check_offsets(file) {
            return Err(CheckpointError::OffsetsTooLarge);
        }
        let parsed = match parse_shard(file) {
            Ok(parsed) => parsed,
            Err(_) => {
                return Err(CheckpointError::NotAShard);
            },
        };
        let ghost tensors = shard_tensors(parsed);
        let mut i: usize = 0;
        while i < selected.len()
            invariant
                i <= selected.len(),
                offsets_fit(file@),
                shard_of(file@) == Some(tensors),
                tensors == shard_tensors(parsed),
                first_missing(tensors, selected@, shard@, i as int) is None,
                self@ == with_shard(old(self)@, tensors, selected@, shard@, i as int),
            decreases selected.len() - i,
        {
            if same_text(selected[i].shard.as_str(), shard) {
                match tensor_of(&parsed, selected[i].name.as_str()) {
                    Ok(bytes) => {
                        self.insert(selected[i].name.as_str(), bytes);
                    },
                    Err(_) => {
                        proof {
                            lemma_missing_stays(
                                tensors,
                                selected@,
                                shard@,
                                i + 1,
                                selected@.len() as int,
                            );
                        }
                        return Err(
                            CheckpointError::NotInShard {
                                name: String::from_str(selected[i].name.as_str()),
                            },
                        );
                    },
                }
            }
            i = i + 1;
        }
        Ok(())
    }
}

/// A shard lacks a selected tensor exactly where one of the tensors that are
/// selected from it is not in it, and what it is refused for is such a one.
pub proof fn a_missing_tensor_is_selected_and_absent(
    tensors: Map<Seq<char>, Seq<u8>>,
    selected: Seq<SelectedTensor>,
    shard: Seq<char>,
    k: int,
)
    requires
        0 <= k <= selected.len(),
    ensures
        first_missing(tensors, selected, shard, k) is None <==> forall|i: int|
            0 <= i < k && (#[trigger] selected[i]).shard@ == shard ==> tensors.contains_key(
                selected[i].name@,
            ),
        first_missing(tensors, selected, shard, k) matches Some(name) ==> !tensors.contains_key(
            name,
        ) && exists|i: int|
            0 <= i < k && (#[trigger] selected[i]).shard@ == shard && selected[i].name@ == name,
    decreases k,
{
    if k > 0 {
        a_missing_tensor_is_selected_and_absent(tensors, selected, shard, k - 1);
        let last = selected[k - 1];
        if first_missing(tensors, selected, shard, k - 1) is Some {
            let name = first_missing(tensors, selected, shard, k - 1)->0;
            let i = choose|i: int|
                0 <= i < k - 1 && (#[trigger] selected[i]).shard@ == shard && selected[i].name@
                    == name;
            assert(selected[i].shard@ == shard && !tensors.contains_key(selected[i].name@));
        } else if last.shard@ == shard && !tensors.contains_key(last.name@) {
            assert(selected[k - 1].shard@ == shard);
        }
    }
}

/// What is selected is of the first layer's attention, and what is selected
/// without the indexer holds nothing of it. Every tensor under the indexer's
/// name is selected with it.
pub proof fn a_selection_is_of_the_first_layer(name: Seq<char>, rest: Seq<char>)
    ensures
        wanted(name, true) || wanted(name, false) ==> crate::text::starts_with(
            name,
            "model.layers.0.self_attn"@,
        ),
        wanted(name, false) ==> !crate::text::holds_text(name, ".indexer."@),
        wanted("model.layers.0.self_attn.indexer"@ + rest, true),
        crate::text::starts_with(name, "model.layers.0.self_attn"@) && !crate::text::holds_text(
            name,
            ".indexer."@,
        ) ==> wanted(name, false),
        !wanted("model.layers.0.self_attn.indexer."@ + rest, false),
{
    reveal_strlit("model.layers.0.self_attn");
    reveal_strlit("model.layers.0.self_attn.indexer");
    reveal_strlit("model.layers.0.self_attn.indexer.");
    reveal_strlit(".indexer.");
    let short = "model.layers.0.self_attn"@;
    let long = "model.layers.0.self_attn.indexer"@;
    assert(long.subrange(0, 24) =~= short);
    assert((long + rest).subrange(0, 32) =~= long);
    if wanted(name, true) {
        assert(name.subrange(0, 24) =~= name.subrange(0, 32).subrange(0, 24));
    }
    let full = "model.layers.0.self_attn.indexer."@ + rest;
    assert(full.subrange(24, 33) =~= ".indexer."@);
    assert(crate::text::stands_at(full, ".indexer."@, 24));
}

/// A shard file's header is the bytes behind the first eight, as many as those
/// eight say, lowest byte first.
pub proof fn a_header_is_as_long_as_the_file_says(file: Seq<u8>, n: nat)
    requires
        file.len() >= 8,
        file[0] + 0x100 * file[1] + 0x1_0000 * file[2] + 0x100_0000 * file[3] == n,
        file[4] == 0 && file[5] == 0 && file[6] == 0 && file[7] == 0,
        n <= 100_000_000,
        8 + n <= file.len(),
    ensures
        header_of(file) == file.subrange(8, 8 + n as int),
{
    let head = file.subrange(0, 8);
    let s1 = head.subrange(1, 8);
    let s2 = s1.subrange(1, 7);
    let s3 = s2.subrange(1, 6);
    let s4 = s3.subrange(1, 5);
    let s5 = s4.subrange(1, 4);
    let s6 = s5.subrange(1, 3);
    let s7 = s6.subrange(1, 2);
    reveal_with_fuel(le_value, 9);
    assert(le_value(s7.subrange(1, 1)) == 0);
    assert(le_value(s4) == 0);
    assert(le_value(head) == n);
}

/// After the shard of a selected tensor was loaded, the tensor's bytes are
/// those that the shard holds under its name.
pub proof fn a_loaded_tensor_is_held(
    before: Map<Seq<char>, Seq<u8>>,
    tensors: Map<Seq<char>, Seq<u8>>,
    selected: Seq<SelectedTensor>,
    shard: Seq<char>,
    at: int,
    k: int,
)
    requires
        0 <= at < k <= selected.len(),
        selected[at].shard@ == shard,
    ensures
        with_shard(before, tensors, selected, shard, k).contains_key(selected[at].name@),
        with_shard(before, tensors, selected, shard, k)[selected[at].name@]
            == tensors[selected[at].name@],
    decreases k,
{
    if at < k - 1 {
        a_loaded_tensor_is_held(before, tensors, selected, shard, at, k - 1);
    }
}

/// Loading a shard leaves what came from the other shards of the selection as
/// it was.
pub proof fn other_shards_are_kept(
    before: Map<Seq<char>, Seq<u8>>,
    tensors: Map<Seq<char>, Seq<u8>>,
    selected: Seq<SelectedTensor>,
    shard: Seq<char>,
    at: int,
    k: int,
)
    requires
        0 <= k <= selected.len(),
        0 <= at < selected.len(),
        selected[at].shard@ != shard,
        forall|i: int, j: int|
            0 <= i < j < selected.len() ==> (#[trigger] selected[i]).name@ != (
            #[trigger] selected[j]).name@,
        before.contains_key(selected[at].name@),
    ensures
        with_shard(before, tensors, selected, shard, k).contains_key(selected[at].name@),
        with_shard(before, tensors, selected, shard, k)[selected[at].name@]
            == before[selected[at].name@],
    decreases k,
{
    if k > 0 {
        other_shards_are_kept(before, tensors, selected, shard, at, k - 1);
        if selected[k - 1].shard@ == shard {
            assert(selected[k - 1].name@ != selected[at].name@);
        }
    }
}

/// The weight and scale bytes of a projection, with its shape.
#[derive(Debug)]
pub struct ProjBytes<'a> {
    pub weight: &'a Vec<u8>,
    pub scale: &'a Vec<u8>,
    pub n: usize,
    pub k: usize,
}

/// The name of a projection's weight.
pub open spec fn weight_name(stem: Seq<char>) -> Seq<char> {
    stem + ".weight"@
}

/// The name of a projection's scales.
pub open spec fn scale_name(stem: Seq<char>) -> Seq<char> {
    stem + ".weight_scale_inv"@
}

/// What a look-up of one tensor gives.
pub open spec fn bytes_outcome(
    held: Map<Seq<char>, Seq<u8>>,
    name: Seq<char>,
    indexer: bool,
    r: Result<&Vec<u8>, CheckpointError>,
) -> bool {
    match r {
        Ok(bytes) => held.contains_key(name) && held[name] == bytes@,
        Err(CheckpointError::NotLoaded { name: missing, indexer: which }) => !held.contains_key(
            name,
        ) && missing@ == name && which == indexer,
        Err(_) => false,
    }
}

/// What a look-up of one projection gives: the weight is looked up first.
pub open spec fn proj_outcome(
    held: Map<Seq<char>, Seq<u8>>,
    stem: Seq<char>,
    n: usize,
    k: usize,
    indexer: bool,
    r: Result<ProjBytes<'_>, CheckpointError>,
) -> bool {
    match r {
        Ok(p) => {
            &&& held.contains_key(weight_name(stem))
            &&& held[weight_name(stem)] == p.weight@
            &&& held.contains_key(scale_name(stem))
            &&& held[scale_name(stem)] == p.scale@
            &&& p.n == n
            &&& p.k == k
        },
        Err(CheckpointError::NotLoaded { name, indexer: which }) => which == indexer && (
        if !held.contains_key(weight_name(stem)) {
            name@ == weight_name(stem)
        } else {
            !held.contains_key(scale_name(stem)) && name@ == scale_name(stem)
        }),
        Err(_) => false,
    }
}

fn look_up<'a>(store: &'a TensorStore, name: &str, indexer: bool) -> (r: Result<
    &'a Vec<u8>,
    CheckpointError,
>)
    ensures
        bytes_outcome(store@, name@, indexer, r),
{
    match store.get(name) {
        Some(bytes) => Ok(bytes),
        None => Err(CheckpointError::NotLoaded { name: String::from_str(name), indexer }),
    }
}

fn look_up_proj<'a>(store: &'a TensorStore, stem: &str, n: usize, k: usize, indexer: bool) -> (r:
    Result<ProjBytes<'a>, CheckpointError>)
    ensures
        proj_outcome(store@, stem@, n, k, indexer, r),
{
    let mut weight_key = String::from_str(stem);
    weight_key.append(".weight");
    let weight = match look_up(store, weight_key.as_str(), indexer) {
        Ok(bytes) => bytes,
        Err(e) => {
            return Err(e);
        },
    };
    let mut scale_key = String::from_str(stem);
    scale_key.append(".weight_scale_inv");
    match look_up(store, scale_key.as_str(), indexer) {
        Ok(scale) => Ok(ProjBytes { weight, scale, n, k }),
        Err(e) => Err(e),
    }
}

/// The first layer's attention tensors.
#[derive(Clone, Debug)]
pub struct Layer0Tensors {
    pub by_name: TensorStore,
}

impl Layer0Tensors {
    /// The bytes of a tensor.
    pub fn bytes(&self, name: &str) -> (r: Result<&Vec<u8>, CheckpointError>)
        ensures
            bytes_outcome(self.by_name@, name@, false, r),
            match r {
                Ok(bytes) => self.by_name@.contains_key(name@) && bytes@ == self.by_name@[name@],
                Err(_) => !self.by_name@.contains_key(name@),
            },
    {
        look_up(&self.by_name, name, false)
    }

    /// The bytes of a projection.
    pub fn proj(&self, stem: &str, n: usize, k: usize) -> (r: Result<
        ProjBytes<'_>,
        CheckpointError,
    >)
        ensures
            proj_outcome(self.by_name@, stem@, n, k, false, r),
            r is Ok <==> self.by_name@.contains_key(stem@ + ".weight"@)
                && self.by_name@.contains_key(stem@ + ".weight_scale_inv"@),
            r matches Ok(p) ==> p.weight@ == self.by_name@[stem@ + ".weight"@] && p.scale@
                == self.by_name@[stem@ + ".weight_scale_inv"@] && p.n == n && p.k == k,
    {
        look_up_proj(&self.by_name, stem, n, k, false)
    }
}

/// The first layer's indexer tensors.
#[derive(Clone, Debug)]
pub struct Layer0IndexerTensors {
    pub by_name: TensorStore,
}

impl Layer0IndexerTensors {
    /// The bytes of a tensor.
    pub fn bytes(&self, name: &str) -> (r: Result<&Vec<u8>, CheckpointError>)
        ensures
            bytes_outcome(self.by_name@, name@, true, r),
            match r {
                Ok(bytes) => self.by_name@.contains_key(name@) && bytes@ == self.by_name@[name@],
                Err(_) => !self.by_name@.contains_key(name@),
            },
    {
        look_up(&self.by_name, name, true)
    }

    /// The bytes of a projection.
    pub fn proj(&self, stem: &str, n: usize, k: usize) -> (r: Result<
        ProjBytes<'_>,
        CheckpointError,
    >)
        ensures
            proj_outcome(self.by_name@, stem@, n, k, true, r),
            r is Ok <==> self.by_name@.contains_key(stem@ + ".weight"@)
                && self.by_name@.contains_key(stem@ + ".weight_scale_inv"@),
            r matches Ok(p) ==> p.weight@ == self.by_name@[stem@ + ".weight"@] && p.scale@
                == self.by_name@[stem@ + ".weight_scale_inv"@] && p.n == n && p.k == k,
    {
        look_up_proj(&self.by_name, stem, n, k, true)
    }
}

} // verus!
