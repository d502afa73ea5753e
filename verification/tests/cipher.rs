use caesar::caesar::{shift, unshift};
use caesar::CaesarError;

#[test]
fn round_trip_simple() {
    let original = b"Hello, World!".to_vec();
    let mut text = original.clone();
    shift(&mut text, 5).unwrap();
    assert_ne!(text, original);
    unshift(&mut text, 5).unwrap();
    assert_eq!(text, original);
}

#[test]
fn round_trip_negative_and_large_keys() {
    let original = b"the quick brown fox jumps over the lazy dog".to_vec();
    for key in [-60i16, -27, -26, -25, -1, 0, 1, 13, 25, 26, 27, 52, 1000, -1000] {
        let mut text = original.clone();
        shift(&mut text, key).unwrap();
        unshift(&mut text, key).unwrap();
        assert_eq!(text, original, "round trip failed for key {}", key);
    }
}

#[test]
fn round_trip_extreme_keys() {
    let original = b"Attack at dawn.".to_vec();
    for key in [i16::MIN, i16::MIN + 1, i16::MAX, i16::MAX - 1] {
        let mut text = original.clone();
        shift(&mut text, key).unwrap();
        unshift(&mut text, key).unwrap();
        assert_eq!(text, original, "round trip failed for key {}", key);
    }
}

#[test]
fn shift_exact_values() {
    let mut text = b"abc xyz ABC XYZ".to_vec();
    shift(&mut text, 3).unwrap();
    assert_eq!(text, b"def abc DEF ABC".to_vec());
}

#[test]
fn unshift_exact_values() {
    let mut text = b"def abc DEF ABC".to_vec();
    unshift(&mut text, 3).unwrap();
    assert_eq!(text, b"abc xyz ABC XYZ".to_vec());
}

#[test]
fn non_alphabetic_passthrough() {
    let mut text = b"a1b2! ?c-d'e_ [3]".to_vec();
    shift(&mut text, 11).unwrap();
    assert_eq!(text[1], b'1');
    assert_eq!(text[3], b'2');
    assert_eq!(text[4], b'!');
    assert_eq!(text[5], b' ');
    assert_eq!(text[6], b'?');
    assert_eq!(text[8], b'-');
    assert_eq!(text[10], b'\'');
    assert_eq!(text[12], b'_');
    assert_eq!(text[13], b' ');
    assert_eq!(text[14], b'[');
    assert_eq!(text[15], b'3');
    assert_eq!(text[16], b']');
    let mut digits = b"0123456789".to_vec();
    shift(&mut digits, 19).unwrap();
    assert_eq!(digits, b"0123456789".to_vec());
}

#[test]
fn key_normalization() {
    let original = b"Veni, vidi, vici.".to_vec();
    let mut a = original.clone();
    let mut b = original.clone();
    let mut c = original.clone();
    shift(&mut a, 7).unwrap();
    shift(&mut b, 7 + 26).unwrap();
    shift(&mut c, 7 - 26).unwrap();
    assert_eq!(a, b);
    assert_eq!(a, c);
}

#[test]
fn key_normalization_minimum_key() {
    // i16::MIN is 18 modulo 26, so both keys shift identically.
    let original = b"carthago delenda est".to_vec();
    let mut a = original.clone();
    let mut b = original.clone();
    shift(&mut a, i16::MIN).unwrap();
    shift(&mut b, 18).unwrap();
    assert_eq!(a, b);
}

#[test]
fn non_ascii_rejected_text_unchanged() {
    let original = "café".as_bytes().to_vec();
    let mut text = original.clone();
    let res = shift(&mut text, 3);
    assert_eq!(res, Err(CaesarError::NonAscii));
    assert_eq!(text, original);
}

#[test]
fn non_ascii_rejected_by_unshift() {
    let original = "naïve".as_bytes().to_vec();
    let mut text = original.clone();
    let res = unshift(&mut text, 9);
    assert_eq!(res, Err(CaesarError::NonAscii));
    assert_eq!(text, original);
}

#[test]
fn zero_key_is_identity() {
    let original = b"Nothing moves.".to_vec();
    let mut text = original.clone();
    shift(&mut text, 0).unwrap();
    assert_eq!(text, original);
}

#[test]
fn empty_text_shifts_to_empty() {
    let mut text: Vec<u8> = Vec::new();
    shift(&mut text, 13).unwrap();
    assert_eq!(text, Vec::<u8>::new());
}
