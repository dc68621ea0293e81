//! The two ends of the bulk channel.

use self_kvm::bulk::{
    publish_name, receive_offer, receive_step, temp_name, BlockFiller, FileSender, FillStep,
    OfferOutcome, SendError, TransferStep,
};
use self_kvm::file_transfer::{plan_messages, FileError, MAX_CHUNK_SIZE};
use self_kvm::message::Message;
use self_kvm::transport::{frame, MAX_FRAME_LEN};

/// Streams `data` in reads of at most `read` bytes, and returns the messages.
fn stream(name: &str, data: &[u8], chunk: usize, read: usize) -> Vec<Message> {
    let (mut sender, offer) = FileSender::begin(7, name, data.len() as u64, chunk);
    let mut msgs = vec![offer];
    let mut filler = BlockFiller::new(sender.chunk_size());
    let mut rest = data;
    loop {
        let n = rest.len().min(read).min(filler.wanted());
        let (head, tail) = rest.split_at(n);
        rest = tail;
        match filler.take(head) {
            FillStep::More => {}
            FillStep::Block(block) => {
                let len = block.len();
                msgs.push(sender.chunk(block));
                sender.chunk_sent(len).unwrap();
            }
            FillStep::End => break,
        }
    }
    msgs.push(sender.finish().unwrap());
    msgs
}

/// Receives messages as a receiver would, and returns the bytes and the name of the file.
fn receive(msgs: Vec<Message>, limit: u64) -> Result<(Vec<u8>, String), String> {
    let mut msgs = msgs.into_iter();
    let mut transfer = match receive_offer(msgs.next().unwrap(), limit) {
        OfferOutcome::Accepted { transfer, .. } => transfer,
        OfferOutcome::Declined { error, .. } => return Err(format!("{error:?}")),
        OfferOutcome::ExpectedFileOffer => return Err("no offer".to_string()),
    };
    let mut out = Vec::new();
    for msg in msgs {
        match receive_step(&mut transfer, msg) {
            TransferStep::Write(bytes) => out.extend_from_slice(&bytes),
            TransferStep::Complete => return Ok((out, transfer.filename().to_string())),
            TransferStep::Rejected(e) => return Err(format!("{e:?}")),
            TransferStep::Unexpected => return Err("unexpected".to_string()),
        }
    }
    Err("truncated".to_string())
}

#[test]
fn streaming_follows_the_plan() {
    for size in [0usize, 1, 255, 256, 257, 512, 5000] {
        let data: Vec<u8> = (0..size).map(|i| (i % 251) as u8).collect();
        for read in [1usize, 7, 256, 10_000] {
            let msgs = stream("out.bin", &data, 256, read);
            assert_eq!(msgs, plan_messages(7, "out.bin", &data, 256));
            assert_eq!(
                receive(msgs, u64::MAX),
                Ok((data.clone(), "out.bin".to_string()))
            );
        }
    }
}

#[test]
fn hostile_name_is_contained() {
    let msgs = stream("../../escape.bin", b"payload", 4096, 4096);
    assert_eq!(
        receive(msgs, u64::MAX),
        Ok((b"payload".to_vec(), "escape.bin".to_string()))
    );
}

#[test]
fn offers_are_answered() {
    let offer = |name: &str, size| Message::FileOffer {
        id: 5,
        name: name.to_string(),
        size,
    };
    match receive_offer(offer("big.bin", 10_000), 1024) {
        OfferOutcome::Declined { error, reply } => {
            assert_eq!(
                error,
                FileError::TooLarge {
                    size: 10_000,
                    limit: 1024
                }
            );
            assert_eq!(
                reply,
                Message::FileAccept {
                    id: 5,
                    accept: false
                }
            );
        }
        other => panic!("expected a decline, got {other:?}"),
    }
    match receive_offer(offer("..", 1), 1024) {
        OfferOutcome::Declined { error, .. } => {
            assert_eq!(error, FileError::InvalidName("..".to_string()));
        }
        other => panic!("expected a decline, got {other:?}"),
    }
    match receive_offer(offer("a", 1024), 1024) {
        OfferOutcome::Accepted { transfer, reply } => {
            assert_eq!(transfer.declared_size(), 1024);
            assert_eq!(
                reply,
                Message::FileAccept {
                    id: 5,
                    accept: true
                }
            );
        }
        other => panic!("expected an accept, got {other:?}"),
    }
    assert!(matches!(
        receive_offer(Message::KeepAlive, 1024),
        OfferOutcome::ExpectedFileOffer
    ));
}

#[test]
fn broken_transfers_are_rejected() {
    let mut msgs = stream("x.bin", &[1; 20], 10, 10);
    msgs.remove(1);
    assert_eq!(
        receive(msgs, u64::MAX),
        Err(format!(
            "{:?}",
            FileError::OutOfOrder {
                expected: 0,
                got: 1
            }
        ))
    );
    let mut msgs = stream("x.bin", &[1; 20], 10, 10);
    msgs.remove(2);
    assert_eq!(
        receive(msgs, u64::MAX),
        Err(format!(
            "{:?}",
            FileError::CountMismatch {
                expected: 1,
                got: 2
            }
        ))
    );
    let mut msgs = stream("x.bin", &[1; 20], 10, 10);
    msgs.insert(1, Message::KeepAlive);
    assert_eq!(receive(msgs, u64::MAX), Err("unexpected".to_string()));
}

#[test]
fn sender_checks_the_verdict_and_the_size() {
    let (mut sender, offer) = FileSender::begin(1, "a.bin", 5, 0);
    assert_eq!(
        offer,
        Message::FileOffer {
            id: 1,
            name: "a.bin".to_string(),
            size: 5
        }
    );
    assert_eq!(sender.chunk_size(), 1);
    assert_eq!(
        sender.on_verdict(Message::FileAccept {
            id: 9,
            accept: true
        }),
        Ok(())
    );
    assert_eq!(
        sender.on_verdict(Message::FileAccept {
            id: 1,
            accept: false
        }),
        Err(SendError::Declined)
    );
    assert_eq!(
        sender.on_verdict(Message::NoOp),
        Err(SendError::ExpectedFileAccept)
    );
    assert_eq!(
        sender.chunk(vec![7]),
        Message::FileChunk {
            id: 1,
            seq: 0,
            data: vec![7]
        }
    );
    assert_eq!(sender.chunk_sent(1), Ok(()));
    assert_eq!(
        sender.finish(),
        Err(SendError::FileChanged {
            declared: 5,
            read: 1
        })
    );
    let (sender, _) = FileSender::begin(1, "a", 0, usize::MAX);
    assert_eq!(sender.chunk_size(), MAX_CHUNK_SIZE);
    assert_eq!(sender.finish(), Ok(Message::FileEnd { id: 1, count: 0 }));
}

#[test]
fn largest_chunk_fits_a_frame() {
    let msg = Message::FileChunk {
        id: 1,
        seq: 2,
        data: vec![0; MAX_CHUNK_SIZE],
    };
    let bytes = frame(&msg);
    assert_eq!(bytes.len(), 4 + 16 + MAX_CHUNK_SIZE);
    assert!(bytes.len() - 4 <= MAX_FRAME_LEN);
    assert_eq!(Message::decode(&bytes[4..]), Ok(msg));
}

#[test]
fn files_are_named() {
    assert_eq!(temp_name(0), ".incoming-0.part");
    assert_eq!(temp_name(1234), ".incoming-1234.part");
    assert_eq!(publish_name("a.bin", 3, false), "a.bin");
    assert_eq!(publish_name("a.bin", 3, true), "3-a.bin");
}
