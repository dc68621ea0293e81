//! Wire primitives.

use self_kvm::codec::{Reader, Writer};
use self_kvm::error::ProtoError;

#[test]
fn roundtrip_primitives() {
    let mut w = Writer::new();
    w.u8(0xAB)
        .i8(-5)
        .u16(0x1234)
        .i16(-1000)
        .u32(0xDEADBEEF)
        .i32(-123456)
        .u64(0x0102_0304_0506_0708);
    let buf = w.into_vec();

    let mut r = Reader::new(&buf);
    assert_eq!(r.u8().unwrap(), 0xAB);
    assert_eq!(r.i8().unwrap(), -5);
    assert_eq!(r.u16().unwrap(), 0x1234);
    assert_eq!(r.i16().unwrap(), -1000);
    assert_eq!(r.u32().unwrap(), 0xDEADBEEF);
    assert_eq!(r.i32().unwrap(), -123456);
    assert_eq!(r.u64().unwrap(), 0x0102_0304_0506_0708);
    assert!(r.is_empty());
}

#[test]
fn big_endian_layout() {
    let mut w = Writer::new();
    w.u32(0x01020304);
    assert_eq!(w.into_vec(), vec![0x01, 0x02, 0x03, 0x04]);
}

#[test]
fn roundtrip_string_and_vec() {
    let mut w = Writer::new();
    w.string("hello").i32_vec(&[1, -2, 3]);
    let buf = w.into_vec();

    // "hello" => 4-byte len (5) + 5 bytes; vec => 4-byte count (3) + 3 i32.
    assert_eq!(&buf[0..4], &[0, 0, 0, 5]);

    let mut r = Reader::new(&buf);
    assert_eq!(r.string().unwrap(), "hello");
    assert_eq!(r.i32_vec().unwrap(), vec![1, -2, 3]);
    assert!(r.is_empty());
}

#[test]
fn eof_is_reported() {
    let buf = [0u8, 1];
    let mut r = Reader::new(&buf);
    assert!(matches!(
        r.u32(),
        Err(ProtoError::UnexpectedEof { needed: 4, had: 2 })
    ));
}

#[test]
fn oversized_field_rejected() {
    // declares a 1 GiB string but provides nothing
    let buf = [0x40, 0, 0, 0];
    let mut r = Reader::new(&buf);
    assert!(matches!(r.bytes(), Err(ProtoError::TooLong { .. })));
}

#[test]
fn truncated_vector_consumes_whole_numbers() {
    // Three numbers are declared; two whole ones and three stray bytes follow.
    let buf = [0u8, 0, 0, 3, 0, 0, 0, 1, 0, 0, 0, 2, 9, 9, 9];
    let mut r = Reader::new(&buf);
    assert_eq!(
        r.i32_vec(),
        Err(ProtoError::UnexpectedEof { needed: 4, had: 3 })
    );
    assert_eq!(r.remaining(), 3);
}

#[test]
fn declared_vector_length_is_capped() {
    let buf = [0u8, 0x10, 0, 1];
    let mut r = Reader::new(&buf);
    assert_eq!(
        r.i32_vec(),
        Err(ProtoError::TooLong {
            declared: 0x10_0001,
            max: 0x10_0000
        })
    );
}

#[test]
fn truncated_bytes_report_what_is_missing() {
    let buf = [0u8, 0, 0, 5, b'a', b'b'];
    let mut r = Reader::new(&buf);
    assert_eq!(
        r.bytes(),
        Err(ProtoError::UnexpectedEof { needed: 5, had: 2 })
    );
    assert_eq!(r.remaining(), 2);
}

#[test]
fn text_must_be_utf8() {
    let buf = [0u8, 0, 0, 2, 0xC3, 0x28];
    assert_eq!(Reader::new(&buf).string(), Err(ProtoError::InvalidUtf8));
    let mut w = Writer::new();
    w.string("grüße");
    let buf = w.into_vec();
    assert_eq!(buf[3], 7);
    assert_eq!(Reader::new(&buf).string(), Ok("grüße".to_string()));
}

#[test]
fn fixed_fields_are_raw() {
    let buf = [1u8, 2, 3];
    let mut r = Reader::new(&buf);
    assert_eq!(r.fixed(2), Ok(&[1u8, 2][..]));
    assert_eq!(
        r.fixed(2),
        Err(ProtoError::UnexpectedEof { needed: 2, had: 1 })
    );
    assert!(!r.is_empty());
    assert_eq!(Writer::with_code(b"CALV").into_vec(), b"CALV".to_vec());
    assert_eq!(Writer::default().into_vec(), Vec::<u8>::new());
}

#[test]
fn signed_extremes_survive() {
    let mut w = Writer::new();
    w.i8(i8::MIN).i16(i16::MIN).i32(i32::MIN).i8(i8::MAX).u64(u64::MAX);
    let buf = w.into_vec();
    assert_eq!(&buf[0..3], &[0x80, 0x80, 0x00]);
    let mut r = Reader::new(&buf);
    assert_eq!(r.i8(), Ok(i8::MIN));
    assert_eq!(r.i16(), Ok(i16::MIN));
    assert_eq!(r.i32(), Ok(i32::MIN));
    assert_eq!(r.i8(), Ok(i8::MAX));
    assert_eq!(r.u64(), Ok(u64::MAX));
}
