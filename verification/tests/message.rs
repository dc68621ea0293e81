//! Messages on the wire.

use self_kvm::error::ProtoError;
use self_kvm::message::Message;

fn roundtrip(m: Message) {
    let bytes = m.encode();
    let back = Message::decode(&bytes).expect("decode");
    assert_eq!(m, back, "roundtrip mismatch for {m:?}");
}

#[test]
fn roundtrip_all_variants() {
    roundtrip(Message::Hello {
        major: 1,
        minor: 8,
    });
    roundtrip(Message::HelloBack {
        major: 1,
        minor: 8,
        name: "laptop".into(),
    });
    roundtrip(Message::QueryInfo);
    roundtrip(Message::DeviceInfo {
        x: 0,
        y: 0,
        w: 1920,
        h: 1080,
        warp: 0,
        mx: 100,
        my: 200,
    });
    roundtrip(Message::InfoAck);
    roundtrip(Message::ResetOptions);
    roundtrip(Message::SetOptions {
        opts: vec![1, 2, 3, 4],
    });
    roundtrip(Message::KeepAlive);
    roundtrip(Message::NoOp);
    roundtrip(Message::Close);
    roundtrip(Message::ScreenSaver { on: true });
    roundtrip(Message::Enter {
        x: 10,
        y: 20,
        seq: 42,
        modifiers: 0x0003,
    });
    roundtrip(Message::Leave);
    roundtrip(Message::KeyDown {
        id: 0x41,
        mask: 0x0001,
        button: 30,
    });
    roundtrip(Message::KeyUp {
        id: 0x41,
        mask: 0,
        button: 30,
    });
    roundtrip(Message::KeyRepeat {
        id: 0x61,
        mask: 0,
        count: 3,
        button: 30,
    });
    roundtrip(Message::MouseDown { button: 1 });
    roundtrip(Message::MouseUp { button: 3 });
    roundtrip(Message::MouseMove { x: -5, y: 600 });
    roundtrip(Message::MouseRelMove { dx: -2, dy: 4 });
    roundtrip(Message::MouseWheel { x: 0, y: 120 });
    roundtrip(Message::ClipboardGrab { id: 0, seq: 7 });
    roundtrip(Message::ClipboardData {
        id: 1,
        seq: 7,
        mark: 0,
        data: b"copied text".to_vec(),
    });
    roundtrip(Message::FileOffer {
        id: 42,
        name: "report.pdf".into(),
        size: 5_000_000_000, // > 4 GiB exercises the u64 field
    });
    roundtrip(Message::FileChunk {
        id: 42,
        seq: 3,
        data: vec![0xABu8; 1024],
    });
    roundtrip(Message::FileEnd { id: 42, count: 17 });
    roundtrip(Message::FileAccept {
        id: 42,
        accept: true,
    });
    roundtrip(Message::ErrIncompatible {
        major: 1,
        minor: 6,
    });
    roundtrip(Message::ErrBusy);
    roundtrip(Message::ErrUnknown);
    roundtrip(Message::ErrBad);
}

#[test]
fn hello_and_helloback_are_distinguished() {
    let hello = Message::Hello { major: 1, minor: 8 }.encode();
    assert!(matches!(
        Message::decode(&hello),
        Ok(Message::Hello { .. })
    ));
    // Hello payload is exactly magic(7) + 2*i16 = 11 bytes.
    assert_eq!(hello.len(), 11);
}

#[test]
fn unknown_code_is_rejected() {
    let bogus = b"ZZZZ".to_vec();
    assert!(matches!(
        Message::decode(&bogus),
        Err(ProtoError::UnknownCode(_))
    ));
}

#[test]
fn enter_layout_is_exact() {
    // CINN + i16 x + i16 y + u32 seq + u16 modifiers = 4 + 2 + 2 + 4 + 2 = 14
    let bytes = Message::Enter {
        x: 1,
        y: 2,
        seq: 3,
        modifiers: 4,
    }
    .encode();
    assert_eq!(&bytes[0..4], b"CINN");
    assert_eq!(bytes.len(), 14);
}

#[test]
fn trailing_bytes_are_ignored() {
    let mut bytes = Message::MouseMove { x: 3, y: -4 }.encode();
    bytes.extend_from_slice(&[1, 2, 3]);
    assert_eq!(
        Message::decode(&bytes),
        Ok(Message::MouseMove { x: 3, y: -4 })
    );
}

#[test]
fn short_payloads_are_rejected() {
    assert_eq!(
        Message::decode(b"CA"),
        Err(ProtoError::UnexpectedEof { needed: 4, had: 2 })
    );
    assert_eq!(
        Message::decode(b"DMMV\x00\x01\x00"),
        Err(ProtoError::UnexpectedEof { needed: 2, had: 1 })
    );
    assert_eq!(
        Message::decode(b"SelfKVM\x00\x01"),
        Err(ProtoError::UnexpectedEof { needed: 2, had: 0 })
    );
}

#[test]
fn unknown_code_is_given_back() {
    assert_eq!(
        Message::decode(b"ZZZZ rest"),
        Err(ProtoError::UnknownCode(*b"ZZZZ"))
    );
}

#[test]
fn any_set_byte_is_true() {
    assert_eq!(
        Message::decode(b"CSEC\x07"),
        Ok(Message::ScreenSaver { on: true })
    );
    assert_eq!(
        Message::decode(b"CSEC\x00"),
        Ok(Message::ScreenSaver { on: false })
    );
}

#[test]
fn hello_back_carries_the_name() {
    let bytes = Message::HelloBack {
        major: 1,
        minor: 9,
        name: String::new(),
    }
    .encode();
    assert_eq!(bytes.len(), 15);
    assert_eq!(
        Message::decode(&bytes),
        Ok(Message::HelloBack {
            major: 1,
            minor: 9,
            name: String::new()
        })
    );
}

#[test]
fn input_messages_are_told_apart() {
    assert!(Message::MouseWheel { x: 0, y: 1 }.is_input());
    assert!(Message::KeyUp {
        id: 1,
        mask: 0,
        button: 2
    }
    .is_input());
    assert!(!Message::Leave.is_input());
    assert!(!Message::KeepAlive.is_input());
}

#[test]
fn fields_are_written_big_endian() {
    assert_eq!(
        Message::Enter {
            x: -2,
            y: 0x0102,
            seq: 0x0304_0506,
            modifiers: 0x0708
        }
        .encode(),
        vec![
            b'C', b'I', b'N', b'N', 0xFF, 0xFE, 1, 2, 3, 4, 5, 6, 7, 8
        ]
    );
    assert_eq!(
        Message::SetOptions { opts: vec![-1] }.encode(),
        vec![b'D', b'S', b'O', b'P', 0, 0, 0, 1, 0xFF, 0xFF, 0xFF, 0xFF]
    );
}
