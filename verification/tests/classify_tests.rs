use ring_codegen::classify::{classify, get_number_cast, is_number_type, is_recognized_type, is_string_type};
use ring_codegen::model::TypeCategory;

#[test]
fn recognizes_fixed_width_numbers() {
    for name in [
        "i8", "i16", "i32", "i64", "i128", "isize", "u8", "u16", "u32", "u64", "u128", "usize",
        "f32", "f64",
    ] {
        assert!(is_number_type(name), "{} should be a number type", name);
    }
    assert!(!is_number_type("bool"));
    assert!(!is_number_type("String"));
    assert!(!is_number_type("Counter"));
}

/// Surrounding whitespace does not change a classification: expressions
/// are trimmed before matching.
#[test]
fn whitespace_is_trimmed_before_matching() {
    assert!(is_number_type("i64 "));
    assert!(is_number_type(" f32 "));
    assert!(is_number_type("\tu8\n"));
    assert!(is_string_type(" & str "));
    assert!(is_string_type(" String"));
    assert_eq!(classify(b" i64 "), TypeCategory::Integer { bits: 64, signed: true });
    assert_eq!(classify(b" bool "), TypeCategory::Boolean);
    assert_eq!(get_number_cast(b" u16 "), TypeCategory::Integer { bits: 16, signed: false });
    // Interior whitespace still distinguishes expressions.
    assert!(!is_number_type("i 64"));
}

#[test]
fn recognizes_string_types() {
    assert!(is_string_type("String"));
    assert!(is_string_type("str"));
    assert!(is_string_type("& str"));
    assert!(is_string_type("&str"));
    assert!(is_string_type("& 'a str"));
    assert!(is_string_type("&'a str"));
    assert!(!is_string_type("i64"));
    assert!(!is_string_type("bool"));
}

/// Only genuine textual-string types classify as text: an identifier that
/// merely ends in the letters of the token is not one, and neither is a
/// generic type over the slice.
#[test]
fn near_misses_are_not_string_types() {
    assert!(!is_string_type("Abstract"));
    assert!(!is_string_type("mystr"));
    assert!(!is_string_type("str0"));
    assert!(!is_string_type("Cow < str >"));
    assert!(!is_string_type(""));
    assert_eq!(classify(b"Abstract"), TypeCategory::Integer { bits: 64, signed: true });
    assert_eq!(classify(b"Cow < str >"), TypeCategory::Integer { bits: 64, signed: true });
}

#[test]
fn classifies_by_priority() {
    assert_eq!(classify(b"i32"), TypeCategory::Integer { bits: 32, signed: true });
    assert_eq!(classify(b"u64"), TypeCategory::Integer { bits: 64, signed: false });
    assert_eq!(classify(b"f32"), TypeCategory::Float { bits: 32 });
    assert_eq!(classify(b"f64"), TypeCategory::Float { bits: 64 });
    assert_eq!(classify(b"bool"), TypeCategory::Boolean);
    assert_eq!(classify(b"String"), TypeCategory::Text);
    assert_eq!(classify(b"& str"), TypeCategory::Text);
    assert_eq!(classify(b"& 'a str"), TypeCategory::Text);
}

#[test]
fn unrecognized_types_fall_back_to_numeric_cast_target() {
    assert_eq!(classify(b"Counter"), TypeCategory::Integer { bits: 64, signed: true });
    assert_eq!(classify(b"Vec < u8 >"), TypeCategory::Integer { bits: 64, signed: true });
    assert_eq!(classify(b""), TypeCategory::Integer { bits: 64, signed: true });
}

/// Strict classification recognizes exactly the numbers, the boolean, and
/// the genuine string types.
#[test]
fn recognition_for_strict_mode() {
    assert!(is_recognized_type(b"i64"));
    assert!(is_recognized_type(b"bool"));
    assert!(is_recognized_type(b"String"));
    assert!(is_recognized_type(b"& str"));
    assert!(!is_recognized_type(b"Abstract"));
    assert!(!is_recognized_type(b"Cow < str >"));
    assert!(!is_recognized_type(b"Widget"));
}

#[test]
fn number_casts_carry_width_and_signedness() {
    assert_eq!(get_number_cast(b"i8"), TypeCategory::Integer { bits: 8, signed: true });
    assert_eq!(get_number_cast(b"u16"), TypeCategory::Integer { bits: 16, signed: false });
    assert_eq!(get_number_cast(b"isize"), TypeCategory::Integer { bits: 64, signed: true });
    assert_eq!(get_number_cast(b"u128"), TypeCategory::Integer { bits: 128, signed: false });
    assert_eq!(get_number_cast(b"f32"), TypeCategory::Float { bits: 32 });
}
