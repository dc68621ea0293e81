//! Chunking and reassembly.

use self_kvm::file_transfer::{
    chunk_count, plan_messages, sanitize_filename, FileError, FileReassembler, Result,
};
use self_kvm::message::Message;

/// Drive a full transfer through plan + reassemble and return the bytes the
/// receiver would have written.
fn run_transfer(data: &[u8], chunk_size: usize, limit: u64) -> Result<Vec<u8>> {
    let msgs = plan_messages(7, "payload.bin", data, chunk_size);
    let mut out = Vec::new();
    let mut re: Option<FileReassembler> = None;
    for m in msgs {
        match m {
            Message::FileOffer { id, name, size } => {
                re = Some(FileReassembler::begin(id, &name, size, limit)?);
            }
            Message::FileChunk { id, seq, data } => {
                let bytes = re.as_mut().unwrap().accept(id, seq, &data)?;
                out.extend_from_slice(bytes);
            }
            Message::FileEnd { id, count } => {
                re.as_ref().unwrap().complete(id, count)?;
            }
            other => panic!("unexpected message in plan: {other:?}"),
        }
    }
    Ok(out)
}

#[test]
fn roundtrip_various_sizes() {
    // Boundaries around the chunk size, plus empty and many-chunk cases.
    for &size in &[0usize, 1, 255, 256, 257, 512, 1000, 4096, 100_000] {
        let data: Vec<u8> = (0..size).map(|i| (i % 251) as u8).collect();
        let got = run_transfer(&data, 256, u64::MAX).unwrap();
        assert_eq!(got, data, "size {size}");
    }
}

#[test]
fn empty_file_is_zero_chunks() {
    let msgs = plan_messages(1, "e", &[], 256);
    assert_eq!(msgs.len(), 2); // offer + end, no chunks
    assert!(matches!(msgs[1], Message::FileEnd { count: 0, .. }));
}

#[test]
fn chunk_count_matches_plan() {
    assert_eq!(chunk_count(0, 256), 0);
    assert_eq!(chunk_count(1, 256), 1);
    assert_eq!(chunk_count(256, 256), 1);
    assert_eq!(chunk_count(257, 256), 2);
    assert_eq!(chunk_count(100_000, 256), 391);
}

#[test]
fn out_of_order_chunk_rejected() {
    let mut re = FileReassembler::begin(1, "f", 10, u64::MAX).unwrap();
    re.accept(1, 0, &[0u8; 4]).unwrap();
    assert_eq!(
        re.accept(1, 2, &[0u8; 4]),
        Err(FileError::OutOfOrder {
            expected: 1,
            got: 2
        })
    );
}

#[test]
fn wrong_id_rejected() {
    let mut re = FileReassembler::begin(5, "f", 4, u64::MAX).unwrap();
    assert_eq!(
        re.accept(6, 0, &[0u8; 4]),
        Err(FileError::IdMismatch {
            expected: 5,
            got: 6
        })
    );
}

#[test]
fn overflow_beyond_declared_size_rejected() {
    let mut re = FileReassembler::begin(1, "f", 4, u64::MAX).unwrap();
    assert_eq!(
        re.accept(1, 0, &[0u8; 8]),
        Err(FileError::SizeOverflow {
            got: 8,
            declared: 4
        })
    );
}

#[test]
fn truncated_transfer_rejected_at_complete() {
    // Declared 8 bytes but only one 4-byte chunk delivered.
    let mut re = FileReassembler::begin(1, "f", 8, u64::MAX).unwrap();
    re.accept(1, 0, &[0u8; 4]).unwrap();
    assert_eq!(
        re.complete(1, 1),
        Err(FileError::SizeMismatch {
            declared: 8,
            received: 4
        })
    );
}

#[test]
fn wrong_chunk_count_rejected_at_complete() {
    let mut re = FileReassembler::begin(1, "f", 8, u64::MAX).unwrap();
    re.accept(1, 0, &[0u8; 8]).unwrap();
    assert_eq!(
        re.complete(1, 5),
        Err(FileError::CountMismatch {
            expected: 1,
            got: 5
        })
    );
}

#[test]
fn oversized_offer_rejected() {
    assert_eq!(
        FileReassembler::begin(1, "f", 10_000, 4096).map(|_| ()),
        Err(FileError::TooLarge {
            size: 10_000,
            limit: 4096
        })
    );
}

#[test]
fn filename_sanitisation() {
    assert_eq!(sanitize_filename("report.pdf").unwrap(), "report.pdf");
    // Path traversal / drive prefixes reduce to the bare base name.
    assert_eq!(sanitize_filename("../../etc/passwd").unwrap(), "passwd");
    assert_eq!(sanitize_filename("/abs/path/x.bin").unwrap(), "x.bin");
    assert_eq!(sanitize_filename("..\\..\\windows\\sysfile").unwrap(), "sysfile");
    assert_eq!(sanitize_filename("C:evil.txt").unwrap(), "evil.txt");
    // Rejected: traversal, empty, dotfiles, trailing dot/space, control
    // chars, reserved device names, whitespace-only.
    for bad in [
        "", ".", "..", "foo/", "a/..", ".hidden", "name.", "name ", " ", "\t",
        "a\nb", "CON", "nul.txt", "LPT1",
    ] {
        assert!(
            matches!(sanitize_filename(bad), Err(FileError::InvalidName(_))),
            "expected reject for {bad:?}"
        );
    }
}

#[test]
fn empty_chunk_rejected() {
    let mut re = FileReassembler::begin(1, "f", 4, u64::MAX).unwrap();
    assert_eq!(
        re.accept(1, 0, &[]),
        Err(FileError::EmptyChunk { seq: 0 })
    );
}

#[test]
fn refused_chunk_changes_nothing() {
    let mut re = FileReassembler::begin(1, "dir/f", 8, u64::MAX).unwrap();
    assert_eq!(re.filename(), "f");
    assert_eq!(re.declared_size(), 8);
    assert_eq!(re.accept(1, 0, b"abcd"), Ok(&b"abcd"[..]));
    assert!(re.accept(1, 1, &[0; 5]).is_err());
    assert!(re.accept(2, 1, b"efgh").is_err());
    assert_eq!(re.received(), 4);
    assert_eq!(re.accept(1, 1, b"efgh"), Ok(&b"efgh"[..]));
    assert_eq!(re.complete(1, 2), Ok(()));
    assert_eq!(
        re.complete(3, 2),
        Err(FileError::IdMismatch {
            expected: 1,
            got: 3
        })
    );
}

#[test]
fn oversized_chunk_rejected() {
    let limit = self_kvm::file_transfer::MAX_CHUNK_SIZE;
    let mut re = FileReassembler::begin(1, "f", u64::MAX, u64::MAX).unwrap();
    assert_eq!(
        re.accept(1, 0, &vec![0; limit + 1]),
        Err(FileError::ChunkTooLarge {
            size: limit + 1,
            limit
        })
    );
    assert!(re.accept(1, 0, &vec![0; limit]).is_ok());
    assert_eq!(re.received(), limit as u64);
    assert_eq!(re.clone().received(), limit as u64);
}

#[test]
fn sanitised_names_are_stable() {
    for name in ["a/b c.txt", "x:y\\z", "münze.tar.gz", " lead", "con.fig.con"] {
        if let Ok(base) = sanitize_filename(name) {
            assert_eq!(sanitize_filename(&base), Ok(base.clone()));
            assert!(!base.contains(['/', '\\', ':', '\0']));
        }
    }
    assert_eq!(sanitize_filename(" lead"), Ok(" lead".to_string()));
    assert_eq!(
        sanitize_filename("con.fig"),
        Err(FileError::InvalidName("con.fig".to_string()))
    );
    assert_eq!(sanitize_filename("com10"), Ok("com10".to_string()));
    assert_eq!(
        sanitize_filename("dir/\u{85}"),
        Err(FileError::InvalidName("dir/\u{85}".to_string()))
    );
    assert_eq!(
        sanitize_filename("\u{3000}"),
        Err(FileError::InvalidName("\u{3000}".to_string()))
    );
}

#[test]
fn zero_chunk_size_counts_as_one() {
    assert_eq!(chunk_count(3, 0), 3);
    assert_eq!(plan_messages(1, "f", b"abc", 0).len(), 5);
    assert_eq!(chunk_count(u64::MAX, 1), u32::MAX);
}
