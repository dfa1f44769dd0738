use openinfer_glm52::eos::{eos_token_ids, read_eos_token_ids, Glm52EosError};

#[test]
fn a_single_eos_token_is_read() {
    assert_eq!(read_eos_token_ids(r#"{"eos_token_id": 154820}"#), Ok(vec![154_820]));
}

#[test]
fn a_list_of_eos_tokens_keeps_its_order() {
    assert_eq!(
        read_eos_token_ids(r#"{"eos_token_id": [154829, 154820, 154827]}"#),
        Ok(vec![154_829, 154_820, 154_827])
    );
}

#[test]
fn an_unparsable_config_has_no_eos_tokens() {
    assert_eq!(read_eos_token_ids("{"), Err(Glm52EosError::Unparsable));
    assert_eq!(read_eos_token_ids(""), Err(Glm52EosError::Unparsable));
}

#[test]
fn a_config_must_name_its_eos_tokens() {
    for content in ["{}", r#"{"eos": 2}"#, "[1]"] {
        assert_eq!(read_eos_token_ids(content), Err(Glm52EosError::Missing), "{content}");
    }
}

#[test]
fn an_empty_list_of_eos_tokens_is_refused() {
    assert_eq!(read_eos_token_ids(r#"{"eos_token_id": []}"#), Err(Glm52EosError::Empty));
}

#[test]
fn an_eos_token_must_be_a_token_id() {
    assert_eq!(
        read_eos_token_ids(r#"{"eos_token_id": [1, -2, 3]}"#),
        Err(Glm52EosError::NotATokenId { index: 1 })
    );
    assert_eq!(
        read_eos_token_ids(r#"{"eos_token_id": [4294967296]}"#),
        Err(Glm52EosError::NotATokenId { index: 0 })
    );
    for content in [r#"{"eos_token_id": null}"#, r#"{"eos_token_id": "2"}"#] {
        assert_eq!(
            read_eos_token_ids(content),
            Err(Glm52EosError::NotATokenId { index: 0 }),
            "{content}"
        );
    }
    let json: serde_json::Value = serde_json::from_str(r#"{"eos_token_id": [4294967295]}"#).unwrap();
    assert_eq!(eos_token_ids(&json), Ok(vec![u32::MAX]));
}
