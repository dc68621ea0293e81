//! One inbound transfer against a disk in memory.

use std::collections::{HashMap, VecDeque};

use self_kvm::bulk::{BlockFiller, FileSender, FillStep};
use self_kvm::file_transfer::{plan_messages, FileError};
use self_kvm::message::Message;
use self_kvm::receiving::{FileReceiver, ReceiveAction, ReceiveError, Report};
use self_kvm::transport::{frame, FramedReader, NetError, ReadOutcome};

/// What a driven transfer left behind.
struct Run {
    outcome: Result<String, ReceiveError>,
    replies: Vec<Message>,
    disk: HashMap<String, Vec<u8>>,
}

/// Drives a receiver with the messages of a peer that then falls silent or hangs up.
fn drive(
    peer: VecDeque<Message>,
    hangs_up: bool,
    limit: u64,
    token: u64,
    taken: &[&str],
) -> Run {
    drive_on(peer, hangs_up, limit, token, taken, None)
}

/// Drives a receiver on a disk that may fail to do one thing.
fn drive_on(
    mut peer: VecDeque<Message>,
    hangs_up: bool,
    limit: u64,
    token: u64,
    taken: &[&str],
    broken: Option<&str>,
) -> Run {
    let broken_disk = |what: &str| broken == Some(what);
    let mut disk: HashMap<String, Vec<u8>> = HashMap::new();
    for name in taken {
        disk.insert(name.to_string(), b"precious".to_vec());
    }
    let mut replies = Vec::new();
    let mut open = String::new();
    let mut receiver = FileReceiver::new(limit, token);
    let mut action = ReceiveAction::Await;
    loop {
        let report = match action {
            ReceiveAction::Await => match peer.pop_front() {
                Some(msg) => Report::Got(msg),
                None if hangs_up => Report::Failed("connection closed by peer".to_string()),
                None => Report::TimedOut,
            },
            ReceiveAction::Reply(msg) => {
                replies.push(msg);
                Report::Done
            }
            ReceiveAction::MakeDirectory if broken_disk("directory") => failed(),
            ReceiveAction::CreateTemporary(_) if broken_disk("create") => failed(),
            ReceiveAction::Write(bytes) if broken_disk("write") => {
                let half = &bytes[..bytes.len() / 2];
                disk.get_mut(&open).unwrap().extend(half);
                failed()
            }
            ReceiveAction::Flush if broken_disk("flush") => failed(),
            ReceiveAction::Reserve(_) if broken_disk("reserve") => failed(),
            ReceiveAction::Publish { .. } if broken_disk("move") => failed(),
            ReceiveAction::MakeDirectory | ReceiveAction::Flush => Report::Done,
            ReceiveAction::CreateTemporary(name) => {
                if disk.contains_key(&name) {
                    Report::Taken
                } else {
                    disk.insert(name.clone(), Vec::new());
                    open = name;
                    Report::Done
                }
            }
            ReceiveAction::Write(bytes) => {
                disk.get_mut(&open).unwrap().extend(bytes);
                Report::Done
            }
            ReceiveAction::Reserve(name) => {
                if disk.contains_key(&name) {
                    Report::Taken
                } else {
                    disk.insert(name, Vec::new());
                    Report::Done
                }
            }
            ReceiveAction::Publish { from, to } => {
                let bytes = disk.remove(&from).unwrap();
                disk.insert(to, bytes);
                Report::Done
            }
            ReceiveAction::RemoveReserved(name) => {
                assert_eq!(disk.remove(&name), Some(Vec::new()));
                Report::Done
            }
            ReceiveAction::RemoveTemporary(name) => {
                disk.remove(&name);
                Report::Done
            }
            ReceiveAction::Finish(name) => {
                return Run {
                    outcome: Ok(name),
                    replies,
                    disk,
                }
            }
            ReceiveAction::Fail(e) => {
                return Run {
                    outcome: Err(e),
                    replies,
                    disk,
                }
            }
        };
        action = receiver.next(report);
    }
}

fn failed() -> Report {
    Report::Failed("disk error".to_string())
}

/// The messages of a sender that reads a file in short reads, carried over the wire.
fn sent(name: &str, data: &[u8], chunk: usize, read: usize) -> VecDeque<Message> {
    let (mut sender, offer) = FileSender::begin(1, name, data.len() as u64, chunk);
    let mut stream = frame(&offer);
    assert_eq!(
        sender.on_verdict(Message::FileAccept {
            id: 1,
            accept: true
        }),
        Ok(())
    );
    let mut filler = BlockFiller::new(sender.chunk_size());
    let mut at = 0;
    loop {
        let n = read.min(filler.wanted()).min(data.len() - at);
        match filler.take(&data[at..at + n]) {
            FillStep::More => {}
            FillStep::Block(block) => {
                let len = block.len();
                stream.extend(frame(&sender.chunk(block)));
                sender.chunk_sent(len).unwrap();
            }
            FillStep::End => break,
        }
        at += n;
    }
    stream.extend(frame(&sender.finish().unwrap()));

    let mut reader = FramedReader::new(());
    let mut rest = stream.as_slice();
    let mut messages = VecDeque::new();
    while !rest.is_empty() {
        let prefix: [u8; 4] = rest[..4].try_into().unwrap();
        let len = reader.begin_frame(ReadOutcome::Filled, prefix).unwrap();
        reader.parts().1.copy_from_slice(&rest[4..4 + len]);
        messages.push_back(reader.end_frame(ReadOutcome::Filled).unwrap());
        rest = &rest[4 + len..];
    }
    assert_eq!(
        reader.begin_frame(ReadOutcome::Eof, [0; 4]),
        Err(NetError::Closed)
    );
    messages
}

#[test]
fn many_chunks_arrive_exactly() {
    let data: Vec<u8> = (0..50_000u32).map(|i| (i % 251) as u8).collect();
    let messages = sent("out.bin", &data, 4096, 1000);
    assert_eq!(
        messages,
        VecDeque::from(plan_messages(1, "out.bin", &data, 4096))
    );
    let run = drive(messages, true, u64::MAX, 0, &[]);
    assert_eq!(run.outcome, Ok("out.bin".to_string()));
    assert_eq!(
        run.replies,
        [Message::FileAccept {
            id: 1,
            accept: true
        }]
    );
    assert_eq!(run.disk, HashMap::from([("out.bin".to_string(), data)]));
}

#[test]
fn an_empty_file_arrives() {
    let run = drive(sent("empty.bin", &[], 4096, 10), true, 0, 3, &[]);
    assert_eq!(run.outcome, Ok("empty.bin".to_string()));
    assert_eq!(
        run.disk,
        HashMap::from([("empty.bin".to_string(), Vec::new())])
    );
}

#[test]
fn a_traversing_name_is_contained() {
    let run = drive(
        sent("../../escape.bin", b"payload", 4096, 10),
        true,
        100,
        0,
        &[],
    );
    assert_eq!(run.outcome, Ok("escape.bin".to_string()));
    assert_eq!(
        run.disk,
        HashMap::from([("escape.bin".to_string(), b"payload".to_vec())])
    );
}

#[test]
fn an_oversized_offer_is_declined() {
    let run = drive(sent("big.bin", &[7; 10_000], 4096, 999), true, 1024, 0, &[]);
    assert_eq!(
        run.outcome,
        Err(ReceiveError::Declined(FileError::TooLarge {
            size: 10_000,
            limit: 1024
        }))
    );
    assert_eq!(
        run.replies,
        [Message::FileAccept {
            id: 1,
            accept: false
        }]
    );
    assert!(run.disk.is_empty());
}

#[test]
fn a_hidden_name_is_declined() {
    let run = drive(sent(".profile", b"x", 4096, 10), true, 1024, 0, &[]);
    assert_eq!(
        run.outcome,
        Err(ReceiveError::Declined(FileError::InvalidName(
            ".profile".to_string()
        )))
    );
    assert!(run.disk.is_empty());
}

#[test]
fn a_peer_that_hangs_up_leaves_no_file() {
    let mut messages = sent("half.bin", &[1; 100], 10, 10);
    messages.truncate(2);
    let run = drive(messages, true, 1024, 0, &[]);
    assert_eq!(
        run.outcome,
        Err(ReceiveError::Failed("connection closed by peer".to_string()))
    );
    assert!(run.disk.is_empty());
}

#[test]
fn a_silent_peer_leaves_no_file() {
    assert_eq!(
        drive(VecDeque::new(), false, 1024, 0, &[]).outcome,
        Err(ReceiveError::NoOffer)
    );
    let mut messages = sent("half.bin", &[1; 100], 10, 10);
    messages.pop_back();
    let run = drive(messages, false, 1024, 0, &[]);
    assert_eq!(run.outcome, Err(ReceiveError::Stalled));
    assert!(run.disk.is_empty());
}

#[test]
fn a_chunk_out_of_order_leaves_no_file() {
    let mut messages = sent("x.bin", &[1; 20], 10, 10);
    messages.remove(1);
    let run = drive(messages, true, 1024, 0, &[]);
    assert_eq!(
        run.outcome,
        Err(ReceiveError::Rejected(FileError::OutOfOrder {
            expected: 0,
            got: 1
        }))
    );
    assert!(run.disk.is_empty());
}

#[test]
fn a_strange_message_leaves_no_file() {
    let run = drive(VecDeque::from([Message::NoOp]), true, 1024, 0, &[]);
    assert_eq!(run.outcome, Err(ReceiveError::ExpectedFileOffer));
    let mut messages = sent("x.bin", &[1; 20], 10, 10);
    messages.insert(2, Message::KeepAlive);
    let run = drive(messages, true, 1024, 0, &[]);
    assert_eq!(run.outcome, Err(ReceiveError::UnexpectedMessage));
    assert!(run.disk.is_empty());
}

#[test]
fn an_existing_file_is_never_touched() {
    let run = drive(
        sent("notes.txt", b"new", 10, 10),
        true,
        1024,
        12,
        &["notes.txt"],
    );
    assert_eq!(run.outcome, Ok("12-notes.txt".to_string()));
    assert_eq!(run.disk["notes.txt"], b"precious");
    assert_eq!(run.disk["12-notes.txt"], b"new");
    assert_eq!(run.disk.len(), 2);

    let run = drive(
        sent("notes.txt", b"new", 10, 10),
        true,
        1024,
        12,
        &["notes.txt", "12-notes.txt"],
    );
    assert_eq!(run.outcome, Err(ReceiveError::NamesTaken));
    assert_eq!(run.disk["notes.txt"], b"precious");
    assert_eq!(run.disk["12-notes.txt"], b"precious");
    assert_eq!(run.disk.len(), 2);
}

#[test]
fn reports_out_of_turn_end_the_transfer() {
    let mut receiver = FileReceiver::new(10, 0);
    assert_eq!(
        receiver.next(Report::Done),
        ReceiveAction::Fail(ReceiveError::OutOfTurn)
    );
    assert_eq!(
        receiver.next(Report::Got(Message::NoOp)),
        ReceiveAction::Fail(ReceiveError::OutOfTurn)
    );
}

#[test]
fn a_failing_disk_leaves_the_directory_as_it_was() {
    for broken in ["directory", "create", "write", "flush", "reserve", "move"] {
        for taken in [&["other.txt"][..], &["other.txt", "x.bin"][..]] {
            let before: HashMap<String, Vec<u8>> = taken
                .iter()
                .map(|name| (name.to_string(), b"precious".to_vec()))
                .collect();
            let run = drive_on(
                sent("x.bin", &[1; 20], 10, 10),
                true,
                1024,
                4,
                taken,
                Some(broken),
            );
            assert_eq!(
                run.outcome,
                Err(ReceiveError::Failed("disk error".to_string())),
                "{broken}"
            );
            assert_eq!(run.disk, before, "{broken}");
        }
    }
}

#[test]
fn both_files_go_when_the_file_cannot_be_moved() {
    let mut receiver = FileReceiver::new(1024, 4);
    let mut action = ReceiveAction::Await;
    for msg in sent("x.bin", b"ab", 10, 10) {
        while action != ReceiveAction::Await {
            action = receiver.next(Report::Done);
        }
        action = receiver.next(Report::Got(msg));
    }
    assert_eq!(action, ReceiveAction::Flush);
    assert_eq!(
        receiver.next(Report::Done),
        ReceiveAction::Reserve("x.bin".to_string())
    );
    assert_eq!(
        receiver.next(Report::Done),
        ReceiveAction::Publish {
            from: ".incoming-4.part".to_string(),
            to: "x.bin".to_string()
        }
    );
    assert_eq!(
        receiver.next(failed()),
        ReceiveAction::RemoveReserved("x.bin".to_string())
    );
    assert_eq!(
        receiver.next(Report::Done),
        ReceiveAction::RemoveTemporary(".incoming-4.part".to_string())
    );
    assert_eq!(
        receiver.next(Report::Done),
        ReceiveAction::Fail(ReceiveError::Failed("disk error".to_string()))
    );
}

#[test]
fn a_file_under_the_temporary_name_is_left_alone() {
    let run = drive(
        sent("x.bin", b"ab", 10, 10),
        true,
        1024,
        4,
        &[".incoming-4.part"],
    );
    assert_eq!(run.outcome, Err(ReceiveError::TemporaryTaken));
    assert_eq!(
        run.disk,
        HashMap::from([(".incoming-4.part".to_string(), b"precious".to_vec())])
    );
}

#[test]
fn a_good_transfer_takes_two_steps_a_chunk_and_eight_others() {
    let mut peer = sent("x.bin", &[7; 25], 10, 10);
    let mut receiver = FileReceiver::new(1024, 4);
    let mut action = ReceiveAction::Await;
    for _ in 0..2 * 3 + 8 {
        action = receiver.next(match action {
            ReceiveAction::Await => Report::Got(peer.pop_front().unwrap()),
            _ => Report::Done,
        });
    }
    assert_eq!(action, ReceiveAction::Finish("x.bin".to_string()));
}
