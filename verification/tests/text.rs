//! Text helpers.

use self_kvm::text::{
    chars_of, is_control, is_white_space, push_decimal, push_hex, push_signed_decimal, same_bytes,
    same_text, text_of, to_ascii_upper, trim,
};

#[test]
fn character_classes_agree_with_the_language() {
    for c in '\0'..=char::MAX {
        assert_eq!(is_control(c), c.is_control(), "{c:?}");
        assert_eq!(is_white_space(c), c.is_whitespace(), "{c:?}");
        assert_eq!(to_ascii_upper(c), c.to_ascii_uppercase(), "{c:?}");
    }
}

#[test]
fn equality_is_by_content() {
    assert!(same_text("lap", "lap"));
    assert!(!same_text("lap", "Lap"));
    assert!(!same_text("lap", "laptop"));
    assert!(same_bytes(&[1, 2], &[1, 2]));
    assert!(!same_bytes(&[1, 2], &[1, 3]));
}

#[test]
fn characters_and_text_convert() {
    let chars = chars_of("aß∂");
    assert_eq!(chars, vec!['a', 'ß', '∂']);
    assert_eq!(text_of(&chars), "aß∂");
}

#[test]
fn trimming_agrees_with_the_language() {
    for s in ["", " ", "a", "  a b\t", "\u{3000}x\u{85}", "\r\n"] {
        assert_eq!(text_of(trim(&chars_of(s))), s.trim());
    }
}

#[test]
fn numbers_are_written_out() {
    for n in [0u64, 7, 10, 24800, 1_000_000_007, u64::MAX] {
        let mut s = String::from("n=");
        push_decimal(&mut s, n);
        assert_eq!(s, format!("n={n}"));
    }
    for n in [0i64, -1, 32767, -32768] {
        let mut s = String::new();
        push_signed_decimal(&mut s, n);
        assert_eq!(s, format!("{n}"));
    }
    for b in 0..=255u8 {
        let mut s = String::new();
        push_hex(&mut s, b);
        assert_eq!(s, format!("{b:02x}"));
    }
}
