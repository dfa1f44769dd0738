use openinfer_glm52::checkpoint::{
    check_offsets, find_shard, read_selection, read_tensor, shards_of, CheckpointError,
    Layer0IndexerTensors, Layer0Tensors, SelectedTensor, TensorStore,
};
use openinfer_glm52::oracle::{
    bf16_bits, bf16_bytes, bf16_digest, check_topk_overlap, digest_text, i32_digest,
    seeded_token_ids, seeded_uniform,
};
use sha2::{Digest, Sha256};

fn reference_uniform(seed: u64, i: u64) -> f64 {
    let mut z = seed.wrapping_add((i + 1).wrapping_mul(0x9E37_79B9_7F4A_7C15));
    z = (z ^ (z >> 30)).wrapping_mul(0xBF58_476D_1CE4_E5B9);
    z = (z ^ (z >> 27)).wrapping_mul(0x94D0_49BB_1331_11EB);
    z ^= z >> 31;
    (z >> 11) as f64 / (1u64 << 53) as f64
}

fn seeded_hidden(seed: u64, count: usize) -> Vec<u16> {
    seeded_uniform(seed, count)
        .iter()
        .map(|&bits| {
            let u = bits as f64 / (1u64 << 53) as f64;
            half::bf16::from_f32(((u - 0.5) * 4.0) as f32).to_bits()
        })
        .collect()
}

#[test]
fn the_seeded_hidden_state_has_its_digest() {
    assert_eq!(bf16_digest(&seeded_hidden(0x5eed_604d, 200 * 6144)), "922e6646a688905e");
}

#[test]
fn uniform_numbers_come_from_the_generator() {
    for (i, bits) in seeded_uniform(0x5eed_604d, 1000).into_iter().enumerate() {
        assert!(bits < 1 << 53);
        assert_eq!(bits as f64 / (1u64 << 53) as f64, reference_uniform(0x5eed_604d, i as u64));
    }
}

#[test]
fn token_ids_are_scaled_as_in_double_precision() {
    for vocab in [1usize, 7, 154_880, 1 << 20, (1 << 32) - 1, 1 << 32] {
        let ids = seeded_token_ids(0x5eed_604d, 5000, vocab);
        for (i, &id) in ids.iter().enumerate() {
            let u = reference_uniform(0x5eed_604d ^ 0xB00C, i as u64);
            let expected = ((u * vocab as f64) as u64).min(vocab as u64 - 1) as u32;
            assert_eq!(id, expected);
            assert!((id as usize) < vocab);
        }
    }
}

#[test]
fn digests_are_hash_prefixes_in_hexadecimal() {
    let hash = Sha256::digest([0x80u8, 0x3f, 0x00, 0xc0]);
    let expected: String = hash[..8].iter().map(|b| format!("{b:02x}")).collect();
    assert_eq!(bf16_digest(&vec![0x3f80, 0xc000]), expected);
    let hash = Sha256::digest([0xffu8, 0xff, 0xff, 0xff, 0x01, 0x02, 0x00, 0x00]);
    let expected: String = hash[..8].iter().map(|b| format!("{b:02x}")).collect();
    assert_eq!(i32_digest(&vec![-1, 0x201]), expected);
    assert_eq!(bf16_digest(&vec![]), "e3b0c44298fc1c14");
    assert_eq!(digest_text(&vec![0, 1, 0xab, 0xff, 0x10, 9, 10, 16, 99]), "0001abff10090a10");
}

#[test]
fn halves_are_written_lowest_byte_first_and_read_back() {
    let bits = vec![0x3f80, 0x0001, 0xfffe];
    assert_eq!(bf16_bytes(&bits), vec![0x80, 0x3f, 0x01, 0x00, 0xfe, 0xff]);
    assert_eq!(bf16_bits(&bf16_bytes(&bits)), bits);
    assert_eq!(bf16_bits(&vec![1, 2, 3]), vec![0x0201]);
}

#[test]
fn one_tie_may_be_broken_either_way() {
    let o = check_topk_overlap(&vec![1, 2, 3, -1, -1, 3], &vec![3, 2, 9]).unwrap();
    assert_eq!((o.overlap, o.selected, o.reference, o.required), (2, 3, 3, 2));
    let o = check_topk_overlap(&vec![1, 2, 3], &vec![3, 8, 9]).unwrap_err();
    assert_eq!((o.overlap, o.required), (1, 2));
    assert!(check_topk_overlap(&vec![-1], &vec![]).is_ok());
    assert!(check_topk_overlap(&vec![], &vec![4]).is_ok());
    let o = check_topk_overlap(&vec![-4], &vec![-4, 5]).unwrap_err();
    assert_eq!((o.overlap, o.selected, o.reference), (0, 0, 2));
}

/// A shard file that holds these tensors of bytes.
fn shard(tensors: &[(&str, &[u8])]) -> Vec<u8> {
    let mut header = String::from("{");
    let mut at = 0;
    for (i, (name, bytes)) in tensors.iter().enumerate() {
        if i > 0 {
            header.push(',');
        }
        let end = at + bytes.len();
        header += &format!(
            "\"{name}\":{{\"dtype\":\"U8\",\"shape\":[{}],\"data_offsets\":[{at}, {end}]}}",
            bytes.len()
        );
        at = end;
    }
    header.push('}');
    let mut file = (header.len() as u64).to_le_bytes().to_vec();
    file.extend(header.as_bytes());
    for (_, bytes) in tensors {
        file.extend(*bytes);
    }
    file
}

const INDEX: &str = r#"{"weight_map": {
    "model.layers.0.self_attn.q_a_proj.weight": "a.safetensors",
    "model.layers.0.self_attn.q_a_proj.weight_scale_inv": "b.safetensors",
    "model.layers.0.self_attn.indexer.wk.weight": "a.safetensors",
    "model.layers.0.self_attn.indexer.k_norm.bias": "b.safetensors",
    "model.layers.1.self_attn.q_a_proj.weight": "a.safetensors",
    "model.norm.weight": "c.safetensors"
}}"#;

#[test]
fn the_index_names_a_tensors_shard() {
    assert_eq!(find_shard(INDEX, "model.norm.weight").unwrap(), "c.safetensors");
    assert!(matches!(
        find_shard(INDEX, "lm_head.weight"),
        Err(CheckpointError::MissingFromMap { name }) if name == "lm_head.weight"
    ));
    assert!(matches!(find_shard("{", "x"), Err(CheckpointError::IndexNotJson)));
    let error = find_shard(r#"{"weight_map": {"x": 1}}"#, "x").unwrap_err();
    assert_eq!(error.message(), "x missing from weight map");
}

fn names(selected: &[SelectedTensor]) -> Vec<&str> {
    let mut names: Vec<&str> = selected.iter().map(|t| t.name.as_str()).collect();
    names.sort();
    names
}

#[test]
fn the_first_layers_tensors_are_selected() {
    let attention = read_selection(INDEX, false).unwrap();
    assert_eq!(
        names(&attention),
        vec![
            "model.layers.0.self_attn.q_a_proj.weight",
            "model.layers.0.self_attn.q_a_proj.weight_scale_inv",
        ]
    );
    let indexer = read_selection(INDEX, true).unwrap();
    assert_eq!(
        names(&indexer),
        vec![
            "model.layers.0.self_attn.indexer.k_norm.bias",
            "model.layers.0.self_attn.indexer.wk.weight",
        ]
    );
    let mut shards = shards_of(&attention);
    shards.sort();
    assert_eq!(shards, vec!["a.safetensors", "b.safetensors"]);
}

#[test]
fn a_selection_is_refused_with_a_reason() {
    assert!(matches!(read_selection("nope", false), Err(CheckpointError::IndexNotJson)));
    for index in ["{}", r#"{"weight_map": []}"#, "3"] {
        let error = read_selection(index, false).unwrap_err();
        assert_eq!(error.message(), "weight_map missing", "{index}");
    }
    let index = r#"{"weight_map": {"model.layers.0.self_attn.x": 3, "other": 4}}"#;
    assert!(matches!(
        read_selection(index, false),
        Err(CheckpointError::ShardNotText { name }) if name == "model.layers.0.self_attn.x"
    ));
}

#[test]
fn a_tensor_is_read_out_of_its_shard() {
    let file = shard(&[("x", &[1, 2, 3]), ("y", &[9])]);
    assert_eq!(read_tensor(&file, "x").unwrap(), vec![1, 2, 3]);
    assert_eq!(read_tensor(&file, "y").unwrap(), vec![9]);
    assert!(matches!(
        read_tensor(&file, "z"),
        Err(CheckpointError::NotInShard { name }) if name == "z"
    ));
    assert!(matches!(read_tensor(&[], "x"), Err(CheckpointError::NotAShard)));
    assert!(matches!(read_tensor(&file[..file.len() - 1], "x"), Err(CheckpointError::NotAShard)));
}

#[test]
fn offsets_at_the_end_of_the_address_space_are_refused() {
    let header = format!(
        "{{\"x\":{{\"dtype\":\"U8\",\"shape\":[1],\"data_offsets\":[0,{}]}}}}",
        usize::MAX
    );
    let mut file = (header.len() as u64).to_le_bytes().to_vec();
    file.extend(header.as_bytes());
    assert!(!check_offsets(&file));
    assert!(matches!(read_tensor(&file, "x"), Err(CheckpointError::OffsetsTooLarge)));
    assert!(check_offsets(&shard(&[("x99999999999999999999999999", &[1])])));
}

fn with_header(header: &str, data: &[u8]) -> Vec<u8> {
    let mut file = (header.len() as u64).to_le_bytes().to_vec();
    file.extend(header.as_bytes());
    file.extend(data);
    file
}

#[test]
fn only_data_offsets_are_held_to_the_address_space() {
    let max = usize::MAX;
    let noted = format!(
        "{{\"__metadata__\":{{\"note\":\"[{max},{max}]\"}},\"x[{max}\":{{\"dtype\":\"U8\",\"shape\":[1],\"data_offsets\":[0,1]}}}}"
    );
    let file = with_header(&noted, &[7]);
    assert!(check_offsets(&file));
    assert_eq!(read_tensor(&file, &format!("x[{max}")).unwrap(), vec![7]);
    let empty = format!(
        "{{\"x\":{{\"dtype\":\"U8\",\"shape\":[0,{max}],\"data_offsets\":[0,0]}}}}"
    );
    let file = with_header(&empty, &[]);
    assert!(check_offsets(&file));
    assert!(read_tensor(&file, "x").unwrap().is_empty());
    for entry in [
        format!("{{\"dtype\":\"U8\",\"shape\":[{max}],\"data\\u005foffsets\":[0,{max}]}}"),
        format!("[\"U8\",[{max}],[0,{max}]]"),
    ] {
        let file = with_header(&format!("{{\"x\":{entry}}}"), &[]);
        assert!(!check_offsets(&file), "{entry}");
        assert!(matches!(read_tensor(&file, "x"), Err(CheckpointError::OffsetsTooLarge)));
    }
    let listed = with_header("{\"x\":[\"U8\",[2],[0,2]]}", &[5, 6]);
    assert_eq!(read_tensor(&listed, "x").unwrap(), vec![5, 6]);
    for header in ["", "nope", "[1]", "{\"x\":3}"] {
        let file = with_header(header, &[]);
        assert!(check_offsets(&file));
        assert!(matches!(read_tensor(&file, "x"), Err(CheckpointError::NotAShard)), "{header}");
    }
}

fn loaded() -> TensorStore {
    let selected = read_selection(INDEX, false).unwrap();
    let mut store = TensorStore::new();
    let a = shard(&[
        ("model.layers.0.self_attn.q_a_proj.weight", &[5, 6]),
        ("model.layers.1.self_attn.q_a_proj.weight", &[7]),
    ]);
    let b = shard(&[("model.layers.0.self_attn.q_a_proj.weight_scale_inv", &[8])]);
    store.add_shard(&selected, "a.safetensors", &a).unwrap();
    store.add_shard(&selected, "b.safetensors", &b).unwrap();
    store
}

#[test]
fn loaded_tensors_are_looked_up_by_name() {
    let tensors = Layer0Tensors { by_name: loaded() };
    assert_eq!(*tensors.bytes("model.layers.0.self_attn.q_a_proj.weight").unwrap(), vec![5, 6]);
    let proj = tensors.proj("model.layers.0.self_attn.q_a_proj", 1, 2).unwrap();
    assert_eq!((proj.weight.clone(), proj.scale.clone()), (vec![5, 6], vec![8]));
    assert_eq!((proj.n, proj.k), (1, 2));
    let error = tensors.bytes("model.layers.1.self_attn.q_a_proj.weight").unwrap_err();
    assert_eq!(
        error.message(),
        "layer-0 tensor model.layers.1.self_attn.q_a_proj.weight not loaded"
    );
    assert!(matches!(
        tensors.proj("x", 1, 2),
        Err(CheckpointError::NotLoaded { name, indexer: false }) if name == "x.weight"
    ));
}

#[test]
fn loaded_indexer_tensors_are_looked_up_by_name() {
    let tensors = Layer0IndexerTensors { by_name: loaded() };
    assert!(tensors.bytes("model.layers.0.self_attn.q_a_proj.weight").is_ok());
    let error = tensors.bytes("wk").unwrap_err();
    assert_eq!(error.message(), "layer-0 indexer tensor wk not loaded");
    assert!(tensors.proj("model.layers.0.self_attn.q_a_proj", 3, 4).is_ok());
    assert!(matches!(
        tensors.proj("y", 3, 4),
        Err(CheckpointError::NotLoaded { name, indexer: true }) if name == "y.weight"
    ));
}

#[test]
fn a_selected_tensor_must_be_in_its_shard() {
    let selected = read_selection(INDEX, false).unwrap();
    let mut store = TensorStore::new();
    assert!(matches!(
        store.add_shard(&selected, "a.safetensors", &shard(&[("other", &[1])])),
        Err(CheckpointError::NotInShard { name }) if name == "model.layers.0.self_attn.q_a_proj.weight"
    ));
    assert!(matches!(
        store.add_shard(&selected, "a.safetensors", &[1, 2]),
        Err(CheckpointError::NotAShard)
    ));
}

#[test]
fn a_later_tensor_replaces_an_earlier_one() {
    let selected = read_selection(INDEX, false).unwrap();
    let mut store = loaded();
    let again = shard(&[("model.layers.0.self_attn.q_a_proj.weight", &[1])]);
    store.add_shard(&selected, "a.safetensors", &again).unwrap();
    assert_eq!(store.get("model.layers.0.self_attn.q_a_proj.weight").cloned(), Some(vec![1]));
    assert_eq!(store.get("absent"), None);
}
