//! One outbound transfer.

use self_kvm::bulk::SendError;
use self_kvm::file_transfer::{plan_messages, MAX_CHUNK_SIZE};
use self_kvm::message::Message;
use self_kvm::sending::{FileSending, SendAction, SendFailure, SendReport};

fn accept(yes: bool) -> Message {
    Message::FileAccept {
        id: 1,
        accept: yes,
    }
}

/// Drives a sender against a peer that gives one verdict, with reads of at most `read` bytes.
fn drive(
    name: &str,
    size: u64,
    data: &[u8],
    chunk: usize,
    read: usize,
    verdict: Message,
) -> (Vec<Message>, Result<(), SendFailure>) {
    let (mut sending, mut action) = FileSending::begin(1, name, size, chunk);
    let mut verdict = Some(verdict);
    let mut sent = Vec::new();
    let mut at = 0;
    loop {
        let report = match action {
            SendAction::Send(msg) => {
                sent.push(msg);
                SendReport::Done
            }
            SendAction::Await => SendReport::Got(verdict.take().unwrap()),
            SendAction::Read(n) => {
                let n = n.min(read).min(data.len() - at);
                at += n;
                SendReport::Read(data[at - n..at].to_vec())
            }
            SendAction::Finish => return (sent, Ok(())),
            SendAction::Fail(e) => return (sent, Err(e)),
        };
        action = sending.next(report);
    }
}

#[test]
fn short_reads_send_the_planned_messages() {
    let data: Vec<u8> = (0..1000u32).map(|i| (i % 251) as u8).collect();
    for read in [1, 7, 64, 5000] {
        for chunk in [1, 10, 64, 1000, 4096] {
            let (sent, r) = drive("a.bin", 1000, &data, chunk, read, accept(true));
            assert_eq!(r, Ok(()));
            assert_eq!(sent, plan_messages(1, "a.bin", &data, chunk));
        }
    }
}

#[test]
fn an_empty_file_is_offer_and_end() {
    let (sent, r) = drive("a.bin", 0, &[], 10, 10, accept(true));
    assert_eq!(r, Ok(()));
    assert_eq!(sent, plan_messages(1, "a.bin", &[], 10));
    assert_eq!(sent.len(), 2);
}

#[test]
fn a_refused_offer_ends_the_transfer() {
    let (sent, r) = drive("a.bin", 3, b"abc", 10, 10, accept(false));
    assert_eq!(r, Err(SendFailure::Refused(SendError::Declined)));
    assert_eq!(sent.len(), 1);
    let (_, r) = drive("a.bin", 3, b"abc", 10, 10, Message::NoOp);
    assert_eq!(r, Err(SendFailure::Refused(SendError::ExpectedFileAccept)));
}

#[test]
fn a_file_that_changed_is_noticed() {
    let (sent, r) = drive("a.bin", 5, b"abc", 2, 10, accept(true));
    assert_eq!(
        r,
        Err(SendFailure::Refused(SendError::FileChanged {
            declared: 5,
            read: 3
        }))
    );
    // The end is never sent.
    assert_eq!(sent.len(), 3);
}

#[test]
fn chunk_sizes_are_clamped() {
    let (mut sending, _) = FileSending::begin(1, "a", 1, usize::MAX);
    assert_eq!(sending.next(SendReport::Done), SendAction::Await);
    assert_eq!(
        sending.next(SendReport::Got(accept(true))),
        SendAction::Read(MAX_CHUNK_SIZE)
    );
    let (mut sending, _) = FileSending::begin(1, "a", 1, 0);
    sending.next(SendReport::Done);
    assert_eq!(
        sending.next(SendReport::Got(accept(true))),
        SendAction::Read(1)
    );
    // More than was asked for is not taken.
    assert_eq!(
        sending.next(SendReport::Read(vec![1, 2])),
        SendAction::Fail(SendFailure::OutOfTurn)
    );
}

#[test]
fn failures_are_passed_on() {
    let (mut sending, _) = FileSending::begin(1, "a", 1, 10);
    assert_eq!(
        sending.next(SendReport::Failed("broken pipe".to_string())),
        SendAction::Fail(SendFailure::Failed("broken pipe".to_string()))
    );
    assert_eq!(
        sending.next(SendReport::Done),
        SendAction::Fail(SendFailure::OutOfTurn)
    );
}
