use openinfer_glm52::arith::{align_up, div_ceil};
use openinfer_glm52::config::{
    bucket_index, decode_buckets, full_indexer_layers, glm52_layer_has_full_indexer, GLM52_LAYERS,
};
use openinfer_glm52::text::{
    after_prefix, contains_text, decimal_text, first_position, format_bytes, last_position,
    number_list_text, pair_list_text, parse_u64, parse_usize, same_text, signed_text, trim,
    usize_list_text,
};

#[test]
fn blocks_cover_a_length() {
    assert_eq!(div_ceil(0, 64), 0);
    assert_eq!(div_ceil(1, 64), 1);
    assert_eq!(div_ceil(64, 64), 1);
    assert_eq!(div_ceil(65, 64), 2);
    assert_eq!(div_ceil(usize::MAX, 1), usize::MAX);
    assert_eq!(align_up(0, 128), 0);
    assert_eq!(align_up(1, 128), 128);
    assert_eq!(align_up(128, 128), 128);
    assert_eq!(align_up(129, 128), 256);
}

#[test]
fn more_blocks_for_more_tokens() {
    for a in 0..300 {
        assert!(div_ceil(a, 64) <= div_ceil(a + 1, 64));
        assert!(align_up(a, 64) >= a && align_up(a, 64) < a + 64);
    }
}

#[test]
fn buckets_are_found_by_their_rows() {
    assert_eq!(decode_buckets(), [1, 2, 4, 8]);
    for (at, rows) in decode_buckets().into_iter().enumerate() {
        assert_eq!(bucket_index(rows), Some(at));
    }
    for rows in [0, 3, 5, 7, 9, 16] {
        assert_eq!(bucket_index(rows), None);
    }
}

#[test]
fn every_fourth_layer_selects_for_itself() {
    let full: Vec<usize> = (0..GLM52_LAYERS).filter(|&l| glm52_layer_has_full_indexer(l)).collect();
    assert_eq!(&full[..6], &[0, 1, 2, 6, 10, 14]);
    assert_eq!(full.len(), full_indexer_layers(GLM52_LAYERS));
    assert_eq!(full.len(), 21);
    for layer in 0..GLM52_LAYERS {
        assert!((layer.saturating_sub(3)..=layer).any(glm52_layer_has_full_indexer));
    }
}

#[test]
fn numbers_are_written_and_read_back() {
    for n in [0u64, 7, 10, 99, 154_880, u64::MAX] {
        assert_eq!(decimal_text(n), n.to_string());
        assert_eq!(parse_u64(&decimal_text(n)), Some(n));
    }
    assert_eq!(signed_text(i32::MIN as i64), "-2147483648");
    assert_eq!(signed_text(i64::MIN), "-9223372036854775808");
    assert_eq!(signed_text(42), "42");
    assert_ne!(decimal_text(12), decimal_text(21));
}

#[test]
fn numbers_are_read_as_the_standard_library_reads_them() {
    for text in ["", "+", "-1", "+7", "007", " 7", "7 ", "1_000", "18446744073709551616", "0x10"] {
        assert_eq!(parse_u64(text), text.parse::<u64>().ok(), "{text}");
        assert_eq!(parse_usize(text), text.parse::<usize>().ok(), "{text}");
    }
    assert_eq!(parse_usize("++7"), None);
    assert_eq!(parse_u64("18446744073709551615"), Some(u64::MAX));
}

#[test]
fn positions_are_found_from_both_ends() {
    assert_eq!(first_position("a=b=c", '='), Some(1));
    assert_eq!(last_position("a=b=c", '='), Some(3));
    assert_eq!(first_position("abc", '='), None);
    assert_eq!(last_position("", '='), None);
}

#[test]
fn texts_are_held_against_each_other() {
    assert!(same_text("glm52", "glm52"));
    assert!(!same_text("glm52", "glm5"));
    assert_eq!(after_prefix("glm52.L3", "glm52.L"), Some("3"));
    assert_eq!(after_prefix("glm52.L3", "glm52.L3"), Some(""));
    assert_eq!(after_prefix("glm", "glm52"), None);
    assert!(contains_text("a.indexer.wk", ".indexer."));
    assert!(!contains_text("a.indexer", ".indexer."));
    assert!(contains_text("abc", ""));
    assert!(!contains_text("", "a"));
}

#[test]
fn white_space_is_dropped_as_the_standard_library_drops_it() {
    for text in ["", " ", " 12 ", "\t\n12\r", "1 2", "\u{a0}x\u{3000}", "\u{200b}x", "\u{85}y\u{2028}"] {
        assert_eq!(trim(text), text.trim(), "{text:?}");
    }
}

#[test]
fn white_space_is_that_of_unicode() {
    let mut spaces = 0;
    for code in 0..=0x10_ffffu32 {
        if let Some(c) = char::from_u32(code) {
            let text = c.to_string();
            assert_eq!(trim(&text).is_empty(), c.is_whitespace(), "{code:x}");
            spaces += usize::from(c.is_whitespace());
        }
    }
    assert_eq!(spaces, 25);
}

#[test]
fn byte_sizes_are_shown_in_units() {
    let sizes = vec![0u64, 1024, 5_368_709_120];
    let texts = format_bytes(&sizes);
    assert_eq!(texts.len(), 3);
    for (text, bytes) in texts.iter().zip(&sizes) {
        assert_eq!(*text, bytesize::ByteSize(*bytes).to_string());
    }
    assert_eq!(texts[1], "1.0 KiB");
    assert_eq!(texts[2], "5.0 GiB");
}

#[test]
fn lists_are_written_in_brackets() {
    assert_eq!(number_list_text(&vec![]), "[]");
    assert_eq!(number_list_text(&vec![7]), "[7]");
    assert_eq!(number_list_text(&vec![1, 20, 300]), "[1, 20, 300]");
    assert_eq!(usize_list_text(&vec![4, 0]), format!("{:?}", vec![4usize, 0]));
    assert_eq!(pair_list_text(&vec![]), "[]");
    let pairs = vec![(11u64, 6u64), (22, 71)];
    assert_eq!(pair_list_text(&pairs), format!("{pairs:?}"));
}
