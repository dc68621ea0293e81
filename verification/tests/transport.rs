//! Framing.

use self_kvm::error::ProtoError;
use self_kvm::message::Message;
use self_kvm::transport::{
    frame, FramedReader, FramedWriter, NetError, ReadOutcome, MAX_FRAME_LEN,
};

/// Reads the next message off a byte slice as a connection would.
fn recv(reader: &mut FramedReader<&[u8]>) -> Result<Message, NetError> {
    let mut prefix = [0u8; 4];
    let outcome = fill(reader.parts().0, &mut prefix);
    reader.begin_frame(outcome, prefix)?;
    let outcome = {
        let (stream, buf) = reader.parts();
        fill(stream, buf)
    };
    reader.end_frame(outcome)
}

fn fill(stream: &mut &[u8], buf: &mut [u8]) -> ReadOutcome {
    if stream.len() < buf.len() {
        return ReadOutcome::Eof;
    }
    let (head, tail) = stream.split_at(buf.len());
    buf.copy_from_slice(head);
    *stream = tail;
    ReadOutcome::Filled
}

#[test]
fn frames_are_read_back_in_order() {
    let sent = vec![
        Message::Hello { major: 1, minor: 8 },
        Message::MouseMove { x: 123, y: -45 },
        Message::ClipboardData {
            id: 0,
            seq: 1,
            mark: 0,
            data: vec![7u8; 5000],
        },
    ];
    let mut bytes = Vec::new();
    for m in &sent {
        bytes.extend_from_slice(&frame(m));
    }
    let mut reader = FramedReader::new(&bytes[..]);
    for m in &sent {
        assert_eq!(recv(&mut reader), Ok(m.clone()));
    }
    assert_eq!(recv(&mut reader), Err(NetError::Closed));
}

#[test]
fn frame_layout_is_exact() {
    assert_eq!(
        frame(&Message::KeepAlive),
        vec![0, 0, 0, 4, b'C', b'A', b'L', b'V']
    );
}

#[test]
fn frame_over_the_cap_is_rejected() {
    let prefix = (MAX_FRAME_LEN as u32 + 1).to_be_bytes();
    let mut reader = FramedReader::new(());
    assert_eq!(
        reader.begin_frame(ReadOutcome::Filled, prefix),
        Err(NetError::FrameTooLarge(MAX_FRAME_LEN + 1))
    );
    assert_eq!(
        reader.begin_frame(ReadOutcome::Filled, (MAX_FRAME_LEN as u32).to_be_bytes()),
        Ok(MAX_FRAME_LEN)
    );
}

#[test]
fn endings_and_failures_are_told_apart() {
    let mut reader = FramedReader::new(());
    assert_eq!(
        reader.begin_frame(ReadOutcome::Eof, [0; 4]),
        Err(NetError::Closed)
    );
    assert_eq!(
        reader.begin_frame(ReadOutcome::Failed("reset".to_string()), [0; 4]),
        Err(NetError::Io("reset".to_string()))
    );
    assert_eq!(reader.begin_frame(ReadOutcome::Filled, [0, 0, 0, 4]), Ok(4));
    assert_eq!(reader.end_frame(ReadOutcome::Eof), Err(NetError::Closed));
    assert_eq!(
        reader.end_frame(ReadOutcome::Failed("reset".to_string())),
        Err(NetError::Io("reset".to_string()))
    );
    assert_eq!(
        reader.end_frame(ReadOutcome::Filled),
        Err(NetError::Proto(ProtoError::UnknownCode([0; 4])))
    );
}

#[test]
fn writer_hands_out_its_stream() {
    let mut writer = FramedWriter::new(Vec::<u8>::new());
    let bytes = frame(&Message::Leave);
    writer.stream_mut().extend_from_slice(&bytes);
    assert_eq!(writer.stream_mut().len(), 8);
}
