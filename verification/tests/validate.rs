use noetive::semantik::limits::{
    MAX_METADATA_KEYS, MAX_METADATA_KEY_LEN, MAX_METADATA_VALUE_LEN, MAX_TEXT_BYTES,
    MAX_VECTOR_DIM,
};
use noetive::semantik::validate::{
    api_key_non_empty, validate_dimensions, validate_metadata, validate_publish_item,
    validate_target, validate_vector_matches_dimensions,
};
use noetive::semantik::{Error, Float32, Metadata};

fn md(pairs: &[(&str, &str)]) -> Metadata {
    let mut m = Metadata::new();
    for (k, v) in pairs {
        m.insert(k.to_string(), v.to_string());
    }
    m
}

fn floats(v: &[f32]) -> Vec<Float32> {
    v.iter().map(|f| Float32::from_bits(f.to_bits())).collect()
}

fn message(r: Result<(), Error>) -> String {
    r.unwrap_err().text()
}

#[test]
fn api_key_non_empty_accepts_any_non_blank() {
    assert!(api_key_non_empty("keyu_abc"));
    assert!(api_key_non_empty("keyt_abc"));
    assert!(api_key_non_empty("some_new_format_key"));
    assert!(api_key_non_empty("sk-foo"));
    assert!(!api_key_non_empty(""));
    assert!(!api_key_non_empty("   "));
    assert!(!api_key_non_empty("\t\n"));
}

#[test]
fn dimensions_bounds() {
    assert!(validate_dimensions(0).is_err());
    assert!(validate_dimensions(1).is_ok());
    assert!(validate_dimensions(MAX_VECTOR_DIM).is_ok());
    assert!(validate_dimensions(MAX_VECTOR_DIM + 1).is_err());
}

#[test]
fn target_requires_all_three_fields() {
    // All present: ok.
    assert!(validate_target("global", "Qwen3-Embedding-4B", 1024).is_ok());
    // Each missing field is rejected: no silent default.
    assert!(validate_target("", "m", 1024).is_err());
    assert!(validate_target("global", "", 1024).is_err());
    assert!(validate_target("global", "m", 0).is_err());
}

#[test]
fn metadata_empty_is_ok() {
    let m = Metadata::new();
    assert!(validate_metadata(&m).is_ok());
}

#[test]
fn metadata_too_many_keys() {
    let mut m = Metadata::new();
    for i in 0..(MAX_METADATA_KEYS + 1) {
        m.insert(format!("k{i}"), "v".to_string());
    }
    assert!(validate_metadata(&m).is_err());
}

#[test]
fn metadata_key_too_long() {
    let m = md(&[(&"k".repeat(MAX_METADATA_KEY_LEN + 1), "v")]);
    assert!(validate_metadata(&m).is_err());
}

#[test]
fn metadata_value_too_long() {
    let m = md(&[("k", &"v".repeat(MAX_METADATA_VALUE_LEN + 1))]);
    assert!(validate_metadata(&m).is_err());
}

#[test]
fn metadata_control_char_rejected() {
    let m = md(&[("k\x01", "v")]);
    assert!(validate_metadata(&m).is_err());
    let m = md(&[("k", "v\x7f")]);
    assert!(validate_metadata(&m).is_err());
}

#[test]
fn metadata_total_size_capped() {
    let mut m = Metadata::new();
    // 16 keys, 256 B value each: over 4 KiB in total.
    for i in 0..16 {
        m.insert(format!("key{i:02}"), "v".repeat(MAX_METADATA_VALUE_LEN));
    }
    assert!(validate_metadata(&m).is_err());
}

#[test]
fn publish_item_requires_at_least_one() {
    assert!(validate_publish_item("", &[]).is_err());
    // Text and vector together is allowed: the server keeps the text for
    // retrieval and uses the supplied vector verbatim.
    assert!(validate_publish_item("hello", &floats(&[1.0])).is_ok());
    assert!(validate_publish_item("hello", &[]).is_ok());
    assert!(validate_publish_item("", &floats(&[1.0])).is_ok());
}

#[test]
fn validate_vector_matches_dimensions_accepts_match() {
    assert!(validate_vector_matches_dimensions(&floats(&[1.0, 2.0, 3.0]), 3).is_ok());
}

#[test]
fn validate_vector_matches_dimensions_rejects_mismatch() {
    assert!(validate_vector_matches_dimensions(&floats(&[1.0, 2.0]), 3).is_err());
    assert!(validate_vector_matches_dimensions(&floats(&[1.0, 2.0, 3.0, 4.0]), 3).is_err());
}

#[test]
fn validate_vector_matches_dimensions_skips_when_empty() {
    // Empty vector means this publish item is text-only; the
    // dimensions check is irrelevant.
    assert!(validate_vector_matches_dimensions(&[], 1024).is_ok());
}

#[test]
fn publish_text_byte_cap() {
    let big = "a".repeat(MAX_TEXT_BYTES + 1);
    assert!(validate_publish_item(&big, &[]).is_err());
    let max = "a".repeat(MAX_TEXT_BYTES);
    assert!(validate_publish_item(&max, &[]).is_ok());
}

#[test]
fn publish_vector_dim_cap() {
    let big = floats(&vec![0.0; (MAX_VECTOR_DIM as usize) + 1]);
    assert!(validate_publish_item("", &big).is_err());
}

#[test]
fn publish_vector_rejects_nan_inf() {
    assert!(validate_publish_item("", &floats(&[1.0, f32::NAN])).is_err());
    assert!(validate_publish_item("", &floats(&[1.0, f32::INFINITY])).is_err());
    assert!(validate_publish_item("", &floats(&[1.0, f32::NEG_INFINITY])).is_err());
}

#[test]
fn finite_is_what_floats_say() {
    for bits in [
        0u32,
        1,
        0x7f7f_ffff,
        0x7f80_0000,
        0x7f80_0001,
        0x7fc0_0000,
        0x8000_0000,
        0xff7f_ffff,
        0xff80_0000,
        0xffff_ffff,
        0x3f80_0000,
    ] {
        assert_eq!(
            Float32::from_bits(bits).is_finite(),
            f32::from_bits(bits).is_finite(),
            "bits {bits:#x}"
        );
    }
}

#[test]
fn rejections_say_what_is_wrong() {
    assert_eq!(
        message(validate_dimensions(0)),
        "semantik: invalid_request: dimensions must be greater than 0"
    );
    assert_eq!(
        message(validate_dimensions(5000)),
        "semantik: invalid_request: dimensions 5000 exceeds maximum 4096"
    );
    assert_eq!(
        message(validate_target("", "", 0)),
        "semantik: invalid_request: namespace must not be empty"
    );
    assert_eq!(
        message(validate_target("n", "", 0)),
        "semantik: invalid_request: model must not be empty"
    );
    assert_eq!(
        message(validate_publish_item("", &[])),
        "semantik: invalid_request: publish item must have at least one of text or vector"
    );
    assert_eq!(
        message(validate_publish_item("", &floats(&[0.0, f32::NAN]))),
        "semantik: invalid_request: publish vector index 1 is NaN or Inf"
    );
    assert_eq!(
        message(validate_vector_matches_dimensions(&floats(&[0.0]), 2)),
        "semantik: invalid_request: publish vector dim 1 does not match request dimensions 2"
    );
    let long = "k".repeat(65);
    assert_eq!(
        message(validate_metadata(&md(&[(&long, "v")]))),
        format!("semantik: invalid_request: metadata key {long:?} exceeds 64 bytes")
    );
}

#[test]
fn lengths_are_counted_in_bytes() {
    // Two bytes each in UTF-8.
    assert!(validate_publish_item(&"é".repeat(MAX_TEXT_BYTES / 2), &[]).is_ok());
    assert!(validate_publish_item(&"é".repeat(MAX_TEXT_BYTES / 2 + 1), &[]).is_err());
    assert!(validate_metadata(&md(&[(&"é".repeat(32), "v")])).is_ok());
    assert!(validate_metadata(&md(&[(&"é".repeat(33), "v")])).is_err());
}

#[test]
fn metadata_keeps_one_value_per_key() {
    let mut m = md(&[("a", "1"), ("b", "2")]);
    m.insert("a".to_string(), "3".to_string());
    assert_eq!(m.len(), 2);
    assert_eq!((m.key(0), m.value(0)), ("a", "3"));
    assert_eq!((m.key(1), m.value(1)), ("b", "2"));
    assert!(!m.is_empty());
    assert_eq!(m.clone().len(), 2);
}

#[test]
fn metadata_of_exactly_the_total_passes() {
    let mut m = Metadata::new();
    // 16 keys of 4 bytes with 252 bytes each: 4096 bytes.
    for i in 0..16 {
        m.insert(format!("ke{i:02}"), "v".repeat(252));
    }
    assert!(validate_metadata(&m).is_ok());
}
