//! Key tables.

use self_kvm::keys::{is_printable, key, key_id_from_char, KEY_NONE};

#[test]
fn char_roundtrip() {
    assert_eq!(key_id_from_char('A'), Some(0x41));
    assert_eq!(key_id_from_char('a'), Some(0x61));
    assert_eq!(key_id_from_char(' '), Some(0x20));
}

#[test]
fn function_keys_are_contiguous() {
    assert_eq!(key::f(1), key::F1);
    assert_eq!(key::f(12), key::F1 + 11);
}

#[test]
fn printable_classification() {
    assert!(is_printable(0x41)); // 'A'
    assert!(!is_printable(key::RETURN));
    assert!(!is_printable(KEY_NONE));
}

#[test]
fn characters_beyond_the_plane_have_no_id() {
    assert_eq!(key_id_from_char('\u{FFFF}'), Some(0xFFFF));
    assert_eq!(key_id_from_char('\u{10000}'), None);
}

#[test]
fn special_blocks_are_not_printable() {
    assert!(is_printable(0xDFFF));
    assert!(!is_printable(0xE000));
    assert!(!is_printable(0xEFFF));
    assert!(is_printable(0xF000));
}
