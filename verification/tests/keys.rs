//! The encodings of a group id.

use mdk_snapshot_bug::key::encode_group_id;
use mdk_snapshot_bug::text::{
    byte_list_text, decimal_text, joined_text, listed_text, padded_text, signed_decimal_text,
};

/// The two encodings of one id are different bytes.
#[test]
fn format_mismatch_between_raw_bytes_and_json_codec() {
    let keys = encode_group_id(&[82, 64, 138, 27, 85, 184, 25, 110]);
    let raw = keys.raw_bytes;
    let json = keys.json_key;

    assert_ne!(
        raw,
        json.as_slice(),
        "raw bytes and JsonCodec output must differ (this IS the bug)"
    );

    let json_str = String::from_utf8(json).unwrap();
    assert!(json_str.starts_with("{\"value\":{\"vec\":["));
}

#[test]
fn sixteen_bytes_become_seventy_six() {
    let id = [82, 64, 138, 27, 85, 184, 25, 110, 23, 239, 172, 120, 237, 167, 242, 87];
    let keys = encode_group_id(&id);
    assert_eq!(keys.raw_bytes, id);
    assert_eq!(keys.raw_bytes.len(), 16);
    assert_eq!(keys.json_key.len(), 76);
    assert_eq!(
        String::from_utf8(keys.json_key).unwrap(),
        "{\"value\":{\"vec\":[82,64,138,27,85,184,25,110,23,239,172,120,237,167,242,87]}}"
    );
}

#[test]
fn empty_id_has_an_empty_list() {
    let keys = encode_group_id(&[]);
    assert!(keys.raw_bytes.is_empty());
    assert_eq!(String::from_utf8(keys.json_key).unwrap(), "{\"value\":{\"vec\":[]}}");
}

#[test]
fn json_key_ends_with_its_brackets() {
    assert!(encode_group_id(&[]).json_key.ends_with(b"]}}"));
    assert!(encode_group_id(&[255, 0]).json_key.ends_with(b",0]}}"));
}

#[test]
fn json_key_length_stays_in_its_bounds() {
    assert_eq!(encode_group_id(&[0, 9, 5]).json_key.len(), 19 + 2 * 3);
    assert_eq!(encode_group_id(&[100, 255, 128]).json_key.len(), 19 + 4 * 3);
    assert_eq!(encode_group_id(&[]).json_key.len(), 20);
}

#[test]
fn json_keys_of_different_ids_differ() {
    let keys = |id: &[u8]| encode_group_id(id).json_key;
    assert_ne!(keys(&[1, 23]), keys(&[12, 3]));
    assert_ne!(keys(&[1]), keys(&[1, 1]));
    assert_ne!(keys(&[]), keys(&[0]));
    assert_eq!(keys(&[7, 8]), keys(&[7, 8]));
}

#[test]
fn every_byte_is_written_in_decimal() {
    for b in 0..=255u8 {
        let keys = encode_group_id(&[b]);
        let expected = format!("{{\"value\":{{\"vec\":[{}]}}}}", b);
        assert_eq!(String::from_utf8(keys.json_key).unwrap(), expected);
    }
}

#[test]
fn decimals_have_no_leading_zeros() {
    assert_eq!(decimal_text(0), "0");
    assert_eq!(decimal_text(10), "10");
    assert_eq!(decimal_text(1002003), "1002003");
    assert_eq!(decimal_text(u64::MAX), "18446744073709551615");
    assert_eq!(signed_decimal_text(-1), "-1");
    assert_eq!(signed_decimal_text(i64::MAX), "9223372036854775807");
    assert_eq!(signed_decimal_text(i64::MIN), "-9223372036854775808");
}

#[test]
fn byte_lists_are_written_as_debug_writes_them() {
    assert_eq!(byte_list_text(&[]), "[]");
    assert_eq!(byte_list_text(&[7]), "[7]");
    assert_eq!(byte_list_text(&[82, 64, 138]), "[82, 64, 138]");
    let bytes: [u8; 5] = [0, 1, 10, 100, 255];
    assert_eq!(byte_list_text(&bytes), format!("{:?}", bytes));
    assert_eq!(joined_text(&bytes, "--"), "0--1--10--100--255");
}

#[test]
fn lists_are_joined_by_commas() {
    assert_eq!(listed_text(&[]), "");
    assert_eq!(listed_text(&["a"]), "a");
    assert_eq!(listed_text(&["a", "", "bc"]), "a, , bc");
}

#[test]
fn padding_counts_characters() {
    assert_eq!(padded_text("ab", 4), "ab  ");
    assert_eq!(padded_text("abcd", 4), "abcd");
    assert_eq!(padded_text("abcde", 4), "abcde");
    assert_eq!(padded_text("é", 3), "é  ");
    assert_eq!(padded_text("groups", 40), format!("{:40}", "groups"));
}
