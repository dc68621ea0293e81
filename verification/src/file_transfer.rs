//! File-transfer logic without I/O.
//!
//! The wire side (`FileOffer`, `FileChunk`, `FileEnd`) is plain framing; this module gives it
//! integrity:
//!
//! * [`sanitize_filename`] reduces a peer-supplied name to a safe base name, so that a sender
//!   cannot write outside the receiver's download directory;
//! * [`plan_messages`] and [`chunk_count`] split a byte stream into the exact message sequence that
//!   the sender emits;
//! * [`FileReassembler`] is the receive-side validator. It enforces in-order delivery, the declared
//!   total size, and the final chunk count; the caller writes each accepted chunk to its own sink.

use crate::message::{Message, MessageView};
use crate::text;
use crate::text::{chars_of, is_control, is_white_space, same_text, text_of, to_ascii_upper};
use vstd::prelude::*;

verus! {

/// Default chunk payload size: 256 KiB, comfortably under the 4 MiB frame cap while keeping
/// per-chunk overhead low.
pub const DEFAULT_CHUNK_SIZE: usize = 256 * 1024;

/// Hard ceiling that a receiver tolerates for a single chunk's payload, just under the transport's
/// frame cap with header headroom.
pub const MAX_CHUNK_SIZE: usize = 4 * 1024 * 1024 - 1024;

/// Default ceiling on a single received file (10 GiB). Without a finite one a sender could declare
/// an enormous size and stream chunks until the receiver's disk fills.
pub const DEFAULT_MAX_FILE_SIZE: u64 = 10 * 1024 * 1024 * 1024;

#[derive(Debug, PartialEq, Eq)]
#[allow(inconsistent_fields)]
pub enum FileError {
    InvalidName(String),
    TooLarge { size: u64, limit: u64 },
    Declined,
    EmptyChunk { seq: u32 },
    TooManyChunks,
    IdMismatch { expected: u32, got: u32 },
    OutOfOrder { expected: u32, got: u32 },
    ChunkTooLarge { size: usize, limit: usize },
    SizeOverflow { got: u64, declared: u64 },
    CountMismatch { expected: u32, got: u32 },
    SizeMismatch { declared: u64, received: u64 },
}

pub type Result<T> = std::result::Result<T, FileError>;

/// Whether the character separates path components: a slash, a backslash or a drive colon.
pub open spec fn separator(c: char) -> bool {
    c == '/' || c == '\\' || c == ':'
}

/// What stands behind the last separator.
pub open spec fn base_name(name: Seq<char>) -> Seq<char>
    decreases name.len(),
{
    if name.len() == 0 || separator(name.last()) {
        Seq::empty()
    } else {
        base_name(name.drop_last()).push(name.last())
    }
}

/// What stands before the first dot.
pub open spec fn stem(name: Seq<char>) -> Seq<char>
    decreases name.len(),
{
    if name.len() == 0 || name[0] == '.' {
        Seq::empty()
    } else {
        seq![name[0]] + stem(name.drop_first())
    }
}

/// Whether Windows reserves the name for a device.
pub open spec fn reserved(name: Seq<char>) -> bool {
    ||| name == "CON"@
    ||| name == "PRN"@
    ||| name == "AUX"@
    ||| name == "NUL"@
    ||| name == "COM1"@
    ||| name == "COM2"@
    ||| name == "COM3"@
    ||| name == "COM4"@
    ||| name == "COM5"@
    ||| name == "COM6"@
    ||| name == "COM7"@
    ||| name == "COM8"@
    ||| name == "COM9"@
    ||| name == "LPT1"@
    ||| name == "LPT2"@
    ||| name == "LPT3"@
    ||| name == "LPT4"@
    ||| name == "LPT5"@
    ||| name == "LPT6"@
    ||| name == "LPT7"@
    ||| name == "LPT8"@
    ||| name == "LPT9"@
}

/// Whether a single path component is fit to name a received file: it is not blank, holds no
/// control character, has no dot at either end and no space at the end, and names no device, with
/// or without an extension.
pub open spec fn safe_name(base: Seq<char>) -> bool {
    &&& exists|i: int| 0 <= i < base.len() && !text::white_space(#[trigger] base[i])
    &&& forall|i: int| 0 <= i < base.len() ==> !text::control(#[trigger] base[i])
    &&& base[0] != '.'
    &&& base.last() != '.'
    &&& base.last() != ' '
    &&& !reserved(stem(base).map_values(|c: char| text::ascii_upper(c)))
}

proof fn lemma_base_name(name: Seq<char>, start: int)
    requires
        0 <= start <= name.len(),
        start == 0 || separator(name[start - 1]),
        forall|i: int| start <= i < name.len() ==> !separator(#[trigger] name[i]),
    ensures
        base_name(name) == name.skip(start),
    decreases name.len(),
{
    if start < name.len() {
        lemma_base_name(name.drop_last(), start);
        assert(!separator(name[name.len() - 1]));
        assert(name.skip(start) =~= name.drop_last().skip(start).push(name.last()));
    } else {
        assert(name.skip(start) =~= Seq::empty());
    }
}

proof fn lemma_stem(name: Seq<char>, dot: int)
    requires
        0 <= dot <= name.len(),
        dot == name.len() || name[dot] == '.',
        forall|i: int| 0 <= i < dot ==> #[trigger] name[i] != '.',
    ensures
        stem(name) == name.take(dot),
    decreases name.len(),
{
    if dot == 0 {
        assert(name.take(dot) =~= Seq::empty());
    } else {
        assert(name[0] != '.');
        lemma_stem(name.drop_first(), dot - 1);
        assert(name.take(dot) =~= seq![name[0]] + name.drop_first().take(dot - 1));
    }
}

fn is_separator(c: char) -> (yes: bool)
    ensures
        yes == separator(c),
{
    c == '/' || c == '\\' || c == ':'
}

fn is_reserved(name: &str) -> (yes: bool)
    ensures
        yes == reserved(name@),
{
    same_text(name, "CON")
        || same_text(name, "PRN")
        || same_text(name, "AUX")
        || same_text(name, "NUL")
        || same_text(name, "COM1")
        || same_text(name, "COM2")
        || same_text(name, "COM3")
        || same_text(name, "COM4")
        || same_text(name, "COM5")
        || same_text(name, "COM6")
        || same_text(name, "COM7")
        || same_text(name, "COM8")
        || same_text(name, "COM9")
        || same_text(name, "LPT1")
        || same_text(name, "LPT2")
        || same_text(name, "LPT3")
        || same_text(name, "LPT4")
        || same_text(name, "LPT5")
        || same_text(name, "LPT6")
        || same_text(name, "LPT7")
        || same_text(name, "LPT8")
        || same_text(name, "LPT9")
}

/// The upper-cased stem of a file name.
fn device_name(base: &[char]) -> (name: String)
    ensures
        name@ == stem(base@).map_values(|c: char| text::ascii_upper(c)),
{
    let mut upper: Vec<char> = Vec::new();
    let mut i: usize = 0;
    while i < base.len() && base[i] != '.'
        invariant
            i <= base@.len(),
            upper@.len() == i,
            forall|k: int| 0 <= k < i ==> #[trigger] base@[k] != '.',
            forall|k: int| 0 <= k < i ==> upper@[k] == text::ascii_upper(#[trigger] base@[k]),
        decreases base@.len() - i,
    {
        upper.push(to_ascii_upper(base[i]));
        i = i + 1;
    }
    proof {
        lemma_stem(base@, i as int);
        assert(upper@ =~= stem(base@).map_values(|c: char| text::ascii_upper(c)));
    }
    text_of(upper.as_slice())
}

fn is_safe_name(base: &[char]) -> (safe: bool)
    ensures
        safe == safe_name(base@),
{
    let mut blank = true;
    let mut i: usize = 0;
    while i < base.len()
        invariant
            i <= base@.len(),
            blank == (forall|k: int| 0 <= k < i ==> text::white_space(#[trigger] base@[k])),
            forall|k: int| 0 <= k < i ==> !text::control(#[trigger] base@[k]),
        decreases base@.len() - i,
    {
        if is_control(base[i]) {
            return false;
        }
        if !is_white_space(base[i]) {
            blank = false;
        }
        i = i + 1;
    }
    if blank {
        return false;
    }
    let last = base[base.len() - 1];
    base[0] != '.' && last != '.' && last != ' ' && !is_reserved(device_name(base).as_str())
}

/// Reduce a peer-supplied name to a safe base file name, or reject it.
///
/// Takes only the final path component, and rejects it if it is blank, hidden, holds a control
/// character, ends in a dot or a space, or names a device. The result is a single name that cannot
/// traverse out of a download directory when joined to it.
pub fn sanitize_filename(name: &str) -> (r: Result<String>)
    ensures
        match r {
            Ok(base) => safe_name(base_name(name@)) && base@ == base_name(name@),
            Err(e) => !safe_name(base_name(name@)) && (e matches FileError::InvalidName(n) && n@
                == name@),
        },
{
    let chars = chars_of(name);
    let mut start: usize = chars.len();
    while start > 0 && !is_separator(chars[start - 1])
        invariant
            start <= chars@.len(),
            forall|i: int| start <= i < chars@.len() ==> !separator(#[trigger] chars@[i]),
        decreases start,
    {
        start = start - 1;
    }
    let base = vstd::slice::slice_subrange(chars.as_slice(), start, chars.len());
    proof {
        lemma_base_name(chars@, start as int);
        assert(base@ =~= chars@.skip(start as int));
    }
    if is_safe_name(base) {
        Ok(text_of(base))
    } else {
        Err(FileError::InvalidName(name.to_string()))
    }
}

/// The number of blocks of `block` bytes that hold `size` bytes.
pub open spec fn blocks(size: nat, block: nat) -> nat {
    if size % block == 0 {
        size / block
    } else {
        size / block + 1
    }
}

/// The size of the blocks: a chunk holds at least a byte.
pub open spec fn block_size(chunk_size: usize) -> nat {
    if chunk_size == 0 {
        1
    } else {
        chunk_size as nat
    }
}

/// The `i`-th block of some bytes.
pub open spec fn nth_block(data: Seq<u8>, block: nat, i: int) -> Seq<u8> {
    let end = (i + 1) * block;
    data.subrange(
        i * block,
        if end <= data.len() {
            end
        } else {
            data.len() as int
        },
    )
}

/// The chunk messages for the first `n` blocks of a file.
pub open spec fn chunk_messages(id: u32, data: Seq<u8>, block: nat, n: nat) -> Seq<MessageView> {
    Seq::new(
        n,
        |i: int| MessageView::FileChunk { id, seq: i as u32, data: nth_block(data, block, i) },
    )
}

/// The message sequence that sends a file: the offer, one chunk per block, and the end.
pub open spec fn plan(id: u32, name: Seq<char>, data: Seq<u8>, block: nat) -> Seq<MessageView> {
    let n = blocks(data.len(), block);
    (seq![MessageView::FileOffer { id, name, size: data.len() as u64 }] + chunk_messages(
        id,
        data,
        block,
        n,
    )).push(MessageView::FileEnd { id, count: n as u32 })
}

/// The values of some messages.
pub open spec fn message_views(msgs: Seq<Message>) -> Seq<MessageView> {
    msgs.map_values(|m: Message| m@)
}

/// Number of `chunk_size` blocks a file of `size` bytes splits into, in 32 bits. A zero-length file
/// is zero chunks (offer and end frame the empty transfer).
pub fn chunk_count(size: u64, chunk_size: usize) -> (n: u32)
    ensures
        n == blocks(size as nat, block_size(chunk_size)) as u32,
{
    let cs: u64 = if chunk_size == 0 {
        1
    } else {
        chunk_size as u64
    };
    if size % cs == 0 {
        (size / cs) as u32
    } else {
        proof {
            assert(size / cs < u64::MAX) by (nonlinear_arith)
                requires
                    size % cs != 0,
                    cs > 0,
                    size <= u64::MAX,
            ;
        }
        (size / cs + 1) as u32
    }
}

/// Build the offer message for a transfer.
pub fn offer_msg(id: u32, name: &str, size: u64) -> (msg: Message)
    ensures
        msg@ == (MessageView::FileOffer { id, name: name@, size }),
{
    Message::FileOffer { id, name: name.to_string(), size }
}

/// Build one chunk message.
pub fn chunk_msg(id: u32, seq: u32, data: Vec<u8>) -> (msg: Message)
    ensures
        msg@ == (MessageView::FileChunk { id, seq, data: data@ }),
{
    Message::FileChunk { id, seq, data }
}

/// Build the terminating message for a transfer.
pub fn end_msg(id: u32, count: u32) -> (msg: Message)
    ensures
        msg@ == (MessageView::FileEnd { id, count }),
{
    Message::FileEnd { id, count }
}

/// The number of blocks is the least that holds all bytes.
pub proof fn lemma_blocks(size: nat, block: nat, n: nat)
    requires
        block > 0,
        (n - 1) * block < size || n == 0,
        size <= n * block,
    ensures
        blocks(size, block) == n,
{
    vstd::arithmetic::div_mod::lemma_fundamental_div_mod(size as int, block as int);
    let q = (size / block) as int;
    let r = (size % block) as int;
    assert(size == block * q + r && 0 <= r < block);
    assert(n == if r == 0 { q } else { q + 1 }) by (nonlinear_arith)
        requires
            size == block * q + r,
            0 <= r < block,
            (n - 1) * block < size || n == 0,
            size <= n * block,
            block > 0,
            q >= 0,
    ;
}

proof fn lemma_blocks_above(size: nat, block: nat, n: nat)
    requires
        block > 0,
        n * block < size,
    ensures
        blocks(size, block) > n,
{
    vstd::arithmetic::div_mod::lemma_fundamental_div_mod(size as int, block as int);
    let q = (size / block) as int;
    let r = (size % block) as int;
    assert(q > n || (q == n && r > 0)) by (nonlinear_arith)
        requires
            size == block * q + r,
            0 <= r < block,
            n * block < size,
            block > 0,
    ;
}

/// Plan the full message sequence to send `data` as file `id`: one `FileOffer`, then one
/// `FileChunk` per `chunk_size` block, then `FileEnd`.
pub fn plan_messages(id: u32, name: &str, data: &[u8], chunk_size: usize) -> (msgs: Vec<Message>)
    requires
        blocks(data@.len(), block_size(chunk_size)) <= u32::MAX,
    ensures
        message_views(msgs@) == plan(id, name@, data@, block_size(chunk_size)),
{
    let cs: usize = if chunk_size == 0 {
        1
    } else {
        chunk_size
    };
    let mut msgs: Vec<Message> = Vec::new();
    msgs.push(offer_msg(id, name, data.len() as u64));
    let ghost offer = message_views(msgs@);
    let mut seq: u32 = 0;
    let mut at: usize = 0;
    while at < data.len()
        invariant
            cs == block_size(chunk_size),
            cs > 0,
            at <= data@.len(),
            at == data@.len() || at == seq * cs,
            seq == 0 ==> at == 0,
            seq > 0 ==> (seq - 1) * cs < data@.len(),
            at <= seq * cs,
            blocks(data@.len(), cs as nat) <= u32::MAX,
            offer == seq![
                MessageView::FileOffer { id, name: name@, size: data@.len() as u64 },
            ],
            message_views(msgs@) == offer + chunk_messages(id, data@, cs as nat, seq as nat),
        decreases data@.len() - at,
    {
        let end: usize = if data.len() - at <= cs {
            data.len()
        } else {
            at + cs
        };
        let block = vstd::slice::slice_subrange(data, at, end);
        proof {
            assert((seq + 1) * cs == seq * cs + cs) by (nonlinear_arith);
            assert(block@ =~= nth_block(data@, cs as nat, seq as int));
            lemma_blocks_above(data@.len(), cs as nat, seq as nat);
        }
        let ghost before = msgs@;
        msgs.push(chunk_msg(id, seq, vstd::slice::slice_to_vec(block)));
        assert(message_views(msgs@) =~= message_views(before).push(
            MessageView::FileChunk { id, seq, data: nth_block(data@, cs as nat, seq as int) },
        ));
        seq = seq + 1;
        at = end;
        assert(message_views(msgs@) =~= offer + chunk_messages(id, data@, cs as nat, seq as nat));
    }
    proof {
        lemma_blocks(data@.len(), cs as nat, seq as nat);
    }
    msgs.push(end_msg(id, seq));
    assert(message_views(msgs@) =~= plan(id, name@, data@, cs as nat));
    msgs
}

/// Receive-side validator and accountant for one transfer.
///
/// The caller persists each accepted chunk's bytes to its own sink. The reassembler enforces that
/// chunks arrive in order, that the running total never exceeds the declared size, and that the
/// final `FileEnd` count and byte total match, so a truncated, reordered, or padded transfer is
/// rejected rather than silently written as a corrupt file.
#[derive(Debug)]
pub struct FileReassembler {
    id: u32,
    name: String,
    declared_size: u64,
    next_seq: u32,
    received: u64,
}

/// The mathematical value of a [`FileReassembler`].
pub struct Reassembly {
    pub id: u32,
    pub name: Seq<char>,
    pub declared: u64,
    pub next_seq: u32,
    pub received: u64,
}

impl View for FileReassembler {
    type V = Reassembly;

    closed spec fn view(&self) -> Reassembly {
        Reassembly {
            id: self.id,
            name: self.name@,
            declared: self.declared_size,
            next_seq: self.next_seq,
            received: self.received,
        }
    }
}

impl Reassembly {
    /// A transfer of which nothing has come yet.
    pub open spec fn fresh(id: u32, name: Seq<char>, size: u64) -> Reassembly {
        Reassembly { id, name, declared: size, next_seq: 0, received: 0 }
    }

    /// Why a chunk is refused, if it is. What is wrong is looked for in this order: the transfer,
    /// the place in the sequence, the size of the chunk, the total, the number of chunks.
    pub open spec fn refusal(self, id: u32, seq: u32, len: nat) -> Option<FileError> {
        if id != self.id {
            Some(FileError::IdMismatch { expected: self.id, got: id })
        } else if seq != self.next_seq {
            Some(FileError::OutOfOrder { expected: self.next_seq, got: seq })
        } else if len == 0 {
            Some(FileError::EmptyChunk { seq })
        } else if len > MAX_CHUNK_SIZE {
            Some(FileError::ChunkTooLarge { size: len as usize, limit: MAX_CHUNK_SIZE })
        } else if self.received + len > self.declared {
            Some(
                FileError::SizeOverflow {
                    got: (self.received + len) as u64,
                    declared: self.declared,
                },
            )
        } else if self.next_seq == u32::MAX {
            Some(FileError::TooManyChunks)
        } else {
            None
        }
    }

    /// The state once a chunk of `len` bytes has been accepted.
    pub open spec fn grown(self, len: nat) -> Reassembly {
        Reassembly {
            next_seq: (self.next_seq + 1) as u32,
            received: (self.received + len) as u64,
            ..self
        }
    }

    /// Why the end of the transfer is refused, if it is.
    pub open spec fn end_refusal(self, id: u32, count: u32) -> Option<FileError> {
        if id != self.id {
            Some(FileError::IdMismatch { expected: self.id, got: id })
        } else if count != self.next_seq {
            Some(FileError::CountMismatch { expected: self.next_seq, got: count })
        } else if self.received != self.declared {
            Some(FileError::SizeMismatch { declared: self.declared, received: self.received })
        } else {
            None
        }
    }
}

impl Clone for FileReassembler {
    fn clone(&self) -> (c: Self)
        ensures
            c@ == self@,
    {
        proof {
            use_type_invariant(self);
        }
        FileReassembler {
            id: self.id,
            name: self.name.clone(),
            declared_size: self.declared_size,
            next_seq: self.next_seq,
            received: self.received,
        }
    }
}

impl FileReassembler {
    /// Every chunk holds at most 4 MiB, so that the total of all that can be counted fits.
    #[verifier::type_invariant]
    spec fn inv(self) -> bool {
        self.received <= self.next_seq * 0x40_0000
    }

    /// Begin from the fields of a `FileOffer`. Sanitises `name` and rejects a file larger than
    /// `size_limit` (pass `u64::MAX` for no limit).
    pub fn begin(id: u32, name: &str, size: u64, size_limit: u64) -> (r: Result<Self>)
        ensures
            match r {
                Ok(re) => safe_name(base_name(name@)) && size <= size_limit && re@
                    == Reassembly::fresh(id, base_name(name@), size),
                Err(e) => if safe_name(base_name(name@)) {
                    size > size_limit && e == (FileError::TooLarge { size, limit: size_limit })
                } else {
                    e matches FileError::InvalidName(n) && n@ == name@
                },
            },
    {
        let name = sanitize_filename(name)?;
        if size > size_limit {
            return Err(FileError::TooLarge { size, limit: size_limit });
        }
        Ok(Self { id, name, declared_size: size, next_seq: 0, received: 0 })
    }

    /// The sanitised destination filename.
    pub fn filename(&self) -> (name: &str)
        ensures
            name@ == self@.name,
    {
        self.name.as_str()
    }

    /// Total bytes the sender declared in the offer.
    pub fn declared_size(&self) -> (size: u64)
        ensures
            size == self@.declared,
    {
        self.declared_size
    }

    /// Bytes accepted so far.
    pub fn received(&self) -> (n: u64)
        ensures
            n == self@.received,
    {
        self.received
    }

    /// Validate and account one chunk, returning the bytes the caller should write. Errors (and
    /// leaves the state unchanged) on a wrong id, an out-of-order seq, an empty or oversized chunk,
    /// or a total that would exceed the declared size.
    pub fn accept<'a>(&mut self, id: u32, seq: u32, data: &'a [u8]) -> (r: Result<&'a [u8]>)
        ensures
            match old(self)@.refusal(id, seq, data@.len()) {
                Some(e) => r == Err::<&'a [u8], FileError>(e) && *final(self) == *old(self),
                None => {
                    &&& r matches Ok(bytes) && bytes@ == data@
                    &&& final(self)@ == old(self)@.grown(data@.len())
                },
            },
    {
        proof {
            use_type_invariant(&*self);
        }
        if id != self.id {
            return Err(FileError::IdMismatch { expected: self.id, got: id });
        }
        if seq != self.next_seq {
            return Err(FileError::OutOfOrder { expected: self.next_seq, got: seq });
        }
        // A legitimate sender never emits an empty chunk, and allowing them would let a peer
        // advance the transfer forever without delivering bytes.
        if data.len() == 0 {
            return Err(FileError::EmptyChunk { seq });
        }
        if data.len() > MAX_CHUNK_SIZE {
            return Err(FileError::ChunkTooLarge { size: data.len(), limit: MAX_CHUNK_SIZE });
        }
        let new_total: u64 = self.received + data.len() as u64;
        if new_total > self.declared_size {
            return Err(FileError::SizeOverflow { got: new_total, declared: self.declared_size });
        }
        match self.next_seq.checked_add(1) {
            Some(next_seq) => {
                self.next_seq = next_seq;
                self.received = new_total;
                Ok(data)
            },
            None => Err(FileError::TooManyChunks),
        }
    }

    /// Validate the terminating `FileEnd`. On `Ok`, exactly `declared_size` bytes were delivered in
    /// order across `count` chunks.
    pub fn complete(&self, id: u32, count: u32) -> (r: Result<()>)
        ensures
            r == match self@.end_refusal(id, count) {
                Some(e) => Err::<(), FileError>(e),
                None => Ok(()),
            },
    {
        if id != self.id {
            return Err(FileError::IdMismatch { expected: self.id, got: id });
        }
        if count != self.next_seq {
            return Err(FileError::CountMismatch { expected: self.next_seq, got: count });
        }
        if self.received != self.declared_size {
            return Err(
                FileError::SizeMismatch { declared: self.declared_size, received: self.received },
            );
        }
        Ok(())
    }
}

/// A sanitised name is a single path component: it holds no separator and no NUL, it is not one of
/// the directory names `.` and `..`, and sanitising it again changes nothing.
pub proof fn lemma_sanitized_name_stays_inside(name: Seq<char>)
    requires
        safe_name(base_name(name)),
    ensures
        forall|i: int|
            0 <= i < base_name(name).len() ==> !separator(#[trigger] base_name(name)[i])
                && base_name(name)[i] as int != 0,
        base_name(name) != "."@,
        base_name(name) != ".."@,
        base_name(base_name(name)) == base_name(name),
{
    let base = base_name(name);
    lemma_base_name_has_no_separator(name);
    lemma_base_name(base, 0);
    assert(base.skip(0) =~= base);
    reveal_strlit(".");
    reveal_strlit("..");
    assert forall|i: int| 0 <= i < base.len() implies !separator(#[trigger] base[i])
        && base[i] as int != 0 by {
        assert(!text::control(base[i]));
    }
}

/// What stands behind the last separator holds none.
pub proof fn lemma_base_name_has_no_separator(name: Seq<char>)
    ensures
        forall|i: int| 0 <= i < base_name(name).len() ==> !separator(#[trigger] base_name(name)[i]),
    decreases name.len(),
{
    if name.len() > 0 && !separator(name.last()) {
        let front = base_name(name.drop_last());
        lemma_base_name_has_no_separator(name.drop_last());
        assert forall|i: int| 0 <= i < base_name(name).len() implies !separator(
            #[trigger] base_name(name)[i],
        ) by {
            if i < front.len() {
                assert(base_name(name)[i] == front[i]);
            }
        }
    }
}

/// The bytes of some chunk messages, one after the other.
pub open spec fn payload(chunks: Seq<MessageView>) -> Seq<u8>
    decreases chunks.len(),
{
    if chunks.len() == 0 {
        Seq::empty()
    } else {
        payload(chunks.drop_last()) + chunks.last()->FileChunk_data
    }
}

impl Reassembly {
    /// The state once some chunks have been accepted.
    pub open spec fn after_chunks(self, chunks: Seq<MessageView>) -> Reassembly
        decreases chunks.len(),
    {
        if chunks.len() == 0 {
            self
        } else {
            self.after_chunks(chunks.drop_last()).grown(chunks.last()->FileChunk_data.len())
        }
    }

    /// Whether all of some messages are chunks, and are accepted one after the other.
    pub open spec fn accepts(self, chunks: Seq<MessageView>) -> bool
        decreases chunks.len(),
    {
        if chunks.len() == 0 {
            true
        } else {
            &&& self.accepts(chunks.drop_last())
            &&& chunks.last() matches MessageView::FileChunk { id, seq, data }
            &&& self.after_chunks(chunks.drop_last()).refusal(id, seq, data.len()) is None
        }
    }
}

/// Chunks that have been accepted are all of the transfer and in order, and what they hold has been
/// counted.
pub proof fn lemma_accepted_chunks(id: u32, name: Seq<char>, size: u64, chunks: Seq<MessageView>)
    requires
        Reassembly::fresh(id, name, size).accepts(chunks),
    ensures
        ({
            let after = Reassembly::fresh(id, name, size).after_chunks(chunks);
            &&& after.id == id
            &&& after.name == name
            &&& after.declared == size
            &&& after.next_seq == chunks.len()
            &&& after.received == payload(chunks).len()
            &&& after.received <= size
        }),
        forall|i: int|
            0 <= i < chunks.len() ==> ((#[trigger] chunks[i]) matches MessageView::FileChunk {
                id: of,
                seq,
                ..
            } && of == id && seq == i),
    decreases chunks.len(),
{
    if chunks.len() > 0 {
        let before = chunks.drop_last();
        lemma_accepted_chunks(id, name, size, before);
        assert forall|i: int| 0 <= i < chunks.len() implies ((
        #[trigger] chunks[i]) matches MessageView::FileChunk { id: of, seq, .. } && of == id && seq
            == i) by {
            if i < before.len() {
                assert(before[i] == chunks[i]);
            }
        }
    }
}

/// Whether some messages are chunks of transfer `id`, numbered from zero, each of at least one and
/// at most `block` bytes.
pub open spec fn numbered(chunks: Seq<MessageView>, id: u32, block: nat) -> bool {
    forall|i: int|
        0 <= i < chunks.len() ==> ((#[trigger] chunks[i]) matches MessageView::FileChunk {
            id: of,
            seq,
            data,
        } && of == id && seq == i && 0 < data.len() <= block)
}

/// A receiver accepts numbered chunks of tolerated size that hold no more than the declared number
/// of bytes.
pub proof fn lemma_numbered_chunks_are_accepted(
    id: u32,
    name: Seq<char>,
    size: u64,
    chunks: Seq<MessageView>,
)
    requires
        numbered(chunks, id, MAX_CHUNK_SIZE as nat),
        chunks.len() <= u32::MAX,
        payload(chunks).len() <= size,
    ensures
        Reassembly::fresh(id, name, size).accepts(chunks),
    decreases chunks.len(),
{
    if chunks.len() > 0 {
        let before = chunks.drop_last();
        let last = chunks[chunks.len() - 1];
        assert(last is FileChunk);
        assert forall|i: int| 0 <= i < before.len() implies ((
        #[trigger] before[i]) matches MessageView::FileChunk { id: of, seq, data } && of == id
            && seq == i && 0 < data.len() <= MAX_CHUNK_SIZE) by {
            assert(before[i] == chunks[i]);
        }
        lemma_numbered_chunks_are_accepted(id, name, size, before);
        lemma_accepted_chunks(id, name, size, before);
    }
}

/// A transfer that completes is whole: its chunks were all of this transfer, in order, as many as
/// the end says, and they hold exactly the declared number of bytes.
pub proof fn lemma_completed_transfer_is_whole(
    id: u32,
    name: Seq<char>,
    size: u64,
    chunks: Seq<MessageView>,
    end_id: u32,
    count: u32,
)
    requires
        Reassembly::fresh(id, name, size).accepts(chunks),
        Reassembly::fresh(id, name, size).after_chunks(chunks).end_refusal(end_id, count) is None,
    ensures
        end_id == id,
        count == chunks.len(),
        payload(chunks).len() == size,
        forall|i: int|
            0 <= i < chunks.len() ==> ((#[trigger] chunks[i]) matches MessageView::FileChunk {
                id: of,
                seq,
                ..
            } && of == id && seq == i),
{
    lemma_accepted_chunks(id, name, size, chunks);
}

proof fn lemma_planned_chunks(id: u32, name: Seq<char>, data: Seq<u8>, block: nat, n: nat)
    requires
        0 < block <= MAX_CHUNK_SIZE,
        n <= blocks(data.len(), block) <= u32::MAX,
        data.len() <= u64::MAX,
    ensures
        ({
            let fresh = Reassembly::fresh(id, name, data.len() as u64);
            let chunks = chunk_messages(id, data, block, n);
            let done = if n * block <= data.len() {
                (n * block) as int
            } else {
                data.len() as int
            };
            &&& fresh.accepts(chunks)
            &&& payload(chunks) == data.take(done)
            &&& n == blocks(data.len(), block) ==> done == data.len()
        }),
    decreases n,
{
    let fresh = Reassembly::fresh(id, name, data.len() as u64);
    let chunks = chunk_messages(id, data, block, n);
    vstd::arithmetic::div_mod::lemma_fundamental_div_mod(data.len() as int, block as int);
    let q = (data.len() / block) as int;
    let r = (data.len() % block) as int;
    let size = data.len() as int;
    assert(n == blocks(data.len(), block) ==> n * block >= size) by (nonlinear_arith)
        requires
            size == block * q + r,
            0 <= r < block,
            r == 0 ==> blocks(data.len(), block) == q,
            r != 0 ==> blocks(data.len(), block) == q + 1,
    ;
    if n == 0 {
        assert(n * block == 0) by (nonlinear_arith)
            requires
                n == 0,
        ;
        assert(data.take(0) =~= Seq::empty());
    } else {
        let last = (n - 1) as nat;
        lemma_planned_chunks(id, name, data, block, last);
        let before = chunk_messages(id, data, block, last);
        assert(chunks.drop_last() =~= before);
        assert(last * block < size && last * block + block == n * block) by (nonlinear_arith)
            requires
                size == block * q + r,
                0 <= r < block,
                last + 1 == n,
                r == 0 ==> n <= q,
                r != 0 ==> n <= q + 1,
                block > 0,
        ;
        let piece = nth_block(data, block, last as int);
        assert(0 < piece.len() <= block);
        lemma_accepted_chunks(id, name, data.len() as u64, before);
        let done = if n * block <= size {
            (n * block) as int
        } else {
            size
        };
        assert(data.take((last * block) as int) + piece =~= data.take(done));
        assert(chunks.last() == (MessageView::FileChunk { id, seq: last as u32, data: piece }));
        let state = fresh.after_chunks(before);
        assert(payload(before).len() == last * block);
        assert(state.received == last * block);
        assert(state.refusal(id, last as u32, piece.len()) is None);
    }
}

/// A planned transfer arrives: a receiver that has taken the offer accepts every planned chunk, the
/// chunks hold exactly the bytes of the file, and the end is accepted.
pub proof fn lemma_planned_transfer_arrives(id: u32, name: Seq<char>, data: Seq<u8>, block: nat)
    requires
        0 < block <= MAX_CHUNK_SIZE,
        blocks(data.len(), block) <= u32::MAX,
        data.len() <= u64::MAX,
    ensures
        ({
            let n = blocks(data.len(), block);
            let fresh = Reassembly::fresh(id, base_name(name), data.len() as u64);
            let chunks = plan(id, name, data, block).subrange(1, n as int + 1);
            &&& plan(id, name, data, block).len() == n + 2
            &&& plan(id, name, data, block)[0] == (MessageView::FileOffer {
                id,
                name,
                size: data.len() as u64,
            })
            &&& fresh.accepts(chunks)
            &&& payload(chunks) == data
            &&& plan(id, name, data, block).last() == (MessageView::FileEnd { id, count: n as u32 })
            &&& fresh.after_chunks(chunks).end_refusal(id, n as u32) is None
        }),
{
    let n = blocks(data.len(), block);
    let chunks = chunk_messages(id, data, block, n);
    assert(plan(id, name, data, block).subrange(1, n as int + 1) =~= chunks);
    lemma_planned_chunks(id, base_name(name), data, block, n);
    assert(data.take(data.len() as int) =~= data);
    lemma_accepted_chunks(id, base_name(name), data.len() as u64, chunks);
}

/// Only the last component of a path counts: what stands behind the last slash, backslash or colon
/// is the base name, whatever stands before, and a name without any of them is its own.
pub proof fn lemma_base_name_is_the_last_component(dir: Seq<char>, base: Seq<char>)
    requires
        dir.len() == 0 || dir.last() == '/' || dir.last() == '\\' || dir.last() == ':',
        forall|i: int|
            0 <= i < base.len() ==> (#[trigger] base[i]) != '/' && base[i] != '\\' && base[i]
                != ':',
    ensures
        base_name(dir + base) == base,
{
    let name = dir + base;
    assert forall|i: int| dir.len() <= i < name.len() implies !separator(#[trigger] name[i]) by {
        assert(name[i] == base[i - dir.len()]);
    }
    lemma_base_name(name, dir.len() as int);
    assert(name.skip(dir.len() as int) =~= base);
}

/// Whether the characters begin with some ASCII letters, in lower or upper case.
pub open spec fn spells(chars: Seq<char>, letters: Seq<char>) -> bool {
    &&& letters.len() <= chars.len()
    &&& forall|i: int|
        0 <= i < letters.len() ==> (#[trigger] chars[i]) == letters[i] || chars[i] as int
            == letters[i] as int + 32
}

/// Whether a name is that of one of the 22 devices, alone or before a dot: three letters, or three
/// letters and a number from one to nine.
pub open spec fn names_device(base: Seq<char>) -> bool {
    ||| {
        &&& base.len() == 3 || base.len() > 3 && base[3] == '.'
        &&& spells(base, seq!['C', 'O', 'N']) || spells(base, seq!['P', 'R', 'N']) || spells(
            base,
            seq!['A', 'U', 'X'],
        ) || spells(base, seq!['N', 'U', 'L'])
    }
    ||| {
        &&& base.len() == 4 || base.len() > 4 && base[4] == '.'
        &&& spells(base, seq!['C', 'O', 'M']) || spells(base, seq!['L', 'P', 'T'])
        &&& '1' <= base[3] && base[3] <= '9'
    }
}

proof fn lemma_stem_length(base: Seq<char>)
    ensures
        stem(base).len() <= base.len(),
        stem(base) == base.take(stem(base).len() as int),
        forall|i: int| 0 <= i < stem(base).len() ==> #[trigger] base[i] != '.',
        stem(base).len() == base.len() || base[stem(base).len() as int] == '.',
    decreases base.len(),
{
    if base.len() > 0 && base[0] != '.' {
        let rest = base.drop_first();
        lemma_stem_length(rest);
        assert(stem(base) =~= base.take(stem(base).len() as int)) by {
            assert(rest.take(stem(rest).len() as int) =~= base.subrange(
                1,
                stem(rest).len() as int + 1,
            ));
        }
        assert forall|i: int| 0 <= i < stem(base).len() implies #[trigger] base[i] != '.' by {
            if i > 0 {
                assert(rest[i - 1] == base[i]);
            }
        }
    } else {
        assert(base.take(0) =~= Seq::empty());
    }
}

proof fn lemma_spelling(base: Seq<char>, upper: Seq<char>, letters: Seq<char>)
    requires
        upper.len() <= base.len(),
        forall|i: int| 0 <= i < upper.len() ==> #[trigger] upper[i] == text::ascii_upper(base[i]),
        forall|i: int|
            0 <= i < letters.len() ==> 'A' <= (#[trigger] letters[i]) && letters[i] <= 'Z',
    ensures
        letters.len() <= upper.len() ==> (spells(base, letters) <==> upper.take(
            letters.len() as int,
        ) == letters),
        spells(base, letters) ==> forall|i: int|
            0 <= i < letters.len() ==> #[trigger] base[i] != '.',
{
    if letters.len() <= upper.len() {
        let front = upper.take(letters.len() as int);
        if spells(base, letters) {
            assert forall|i: int| 0 <= i < letters.len() implies #[trigger] front[i]
                == letters[i] by {
                assert(upper[i] == text::ascii_upper(base[i]));
            }
            assert(front =~= letters);
        }
        if front == letters {
            assert forall|i: int| 0 <= i < letters.len() implies (#[trigger] base[i]) == letters[i]
                || base[i] as int == letters[i] as int + 32 by {
                assert(front[i] == letters[i]);
                assert(upper[i] == text::ascii_upper(base[i]));
            }
        }
    }
}

/// A word of three letters and a digit.
proof fn lemma_numbered_word(upper: Seq<char>, word: Seq<char>, letters: Seq<char>, digit: char)
    requires
        letters.len() == 3,
        word.len() == 4,
        word[0] == letters[0],
        word[1] == letters[1],
        word[2] == letters[2],
        word[3] == digit,
    ensures
        upper == word <==> upper.len() == 4 && upper.take(3) == letters && upper[3] == digit,
{
    assert(word =~= letters.push(digit));
    assert(word.take(3) =~= letters);
    if upper.len() == 4 && upper.take(3) == letters && upper[3] == digit {
        assert(upper =~= upper.take(3).push(upper[3]));
    }
}

#[verifier::spinoff_prover]
#[verifier::rlimit(60)]
proof fn lemma_reserved_stems_name_devices(base: Seq<char>)
    ensures
        reserved(stem(base).map_values(|c: char| text::ascii_upper(c))) <==> names_device(base),
{
    lemma_stem_length(base);
    let n = stem(base).len() as int;
    let upper = stem(base).map_values(|c: char| text::ascii_upper(c));
    assert forall|i: int| 0 <= i < n implies #[trigger] upper[i] == text::ascii_upper(base[i]) by {
    }
    reveal_strlit("CON");
    assert("CON"@ =~= seq!['C', 'O', 'N']);
    lemma_spelling(base, upper, "CON"@);
    reveal_strlit("PRN");
    assert("PRN"@ =~= seq!['P', 'R', 'N']);
    lemma_spelling(base, upper, "PRN"@);
    reveal_strlit("AUX");
    assert("AUX"@ =~= seq!['A', 'U', 'X']);
    lemma_spelling(base, upper, "AUX"@);
    reveal_strlit("NUL");
    assert("NUL"@ =~= seq!['N', 'U', 'L']);
    lemma_spelling(base, upper, "NUL"@);
    let com = seq!['C', 'O', 'M'];
    lemma_spelling(base, upper, com);
    reveal_strlit("COM1");
    lemma_numbered_word(upper, "COM1"@, com, '1');
    reveal_strlit("COM2");
    lemma_numbered_word(upper, "COM2"@, com, '2');
    reveal_strlit("COM3");
    lemma_numbered_word(upper, "COM3"@, com, '3');
    reveal_strlit("COM4");
    lemma_numbered_word(upper, "COM4"@, com, '4');
    reveal_strlit("COM5");
    lemma_numbered_word(upper, "COM5"@, com, '5');
    reveal_strlit("COM6");
    lemma_numbered_word(upper, "COM6"@, com, '6');
    reveal_strlit("COM7");
    lemma_numbered_word(upper, "COM7"@, com, '7');
    reveal_strlit("COM8");
    lemma_numbered_word(upper, "COM8"@, com, '8');
    reveal_strlit("COM9");
    lemma_numbered_word(upper, "COM9"@, com, '9');
    let lpt = seq!['L', 'P', 'T'];
    lemma_spelling(base, upper, lpt);
    reveal_strlit("LPT1");
    lemma_numbered_word(upper, "LPT1"@, lpt, '1');
    reveal_strlit("LPT2");
    lemma_numbered_word(upper, "LPT2"@, lpt, '2');
    reveal_strlit("LPT3");
    lemma_numbered_word(upper, "LPT3"@, lpt, '3');
    reveal_strlit("LPT4");
    lemma_numbered_word(upper, "LPT4"@, lpt, '4');
    reveal_strlit("LPT5");
    lemma_numbered_word(upper, "LPT5"@, lpt, '5');
    reveal_strlit("LPT6");
    lemma_numbered_word(upper, "LPT6"@, lpt, '6');
    reveal_strlit("LPT7");
    lemma_numbered_word(upper, "LPT7"@, lpt, '7');
    reveal_strlit("LPT8");
    lemma_numbered_word(upper, "LPT8"@, lpt, '8');
    reveal_strlit("LPT9");
    lemma_numbered_word(upper, "LPT9"@, lpt, '9');
    if n == 3 {
        assert(upper.take(3) =~= upper);
    }
    if n == 4 {
        assert(upper[3] == text::ascii_upper(base[3]));
    }
    if names_device(base) {
        assert(base[0] != '.' && base[1] != '.' && base[2] != '.');
        if (base.len() == 3 || base.len() > 3 && base[3] == '.') {
            lemma_stem(base, 3);
            assert(n == 3);
        } else {
            lemma_stem(base, 4);
            assert(n == 4);
        }
    }
}

/// A name is accepted exactly if nothing speaks against it: there is a character in it that is not
/// white space, none is a control character, it has no dot at either end and no space at the end,
/// and it is not the name of a device. Any other character may stand in it.
pub proof fn lemma_harmless_names_are_accepted(base: Seq<char>)
    ensures
        safe_name(base) <==> {
            &&& exists|i: int| 0 <= i < base.len() && !text::white_space(#[trigger] base[i])
            &&& forall|i: int|
                0 <= i < base.len() ==> (#[trigger] base[i]) as int >= 32 && !(127 <= base[i] as int
                    && (base[i] as int) < 160)
            &&& base[0] != '.'
            &&& base[base.len() - 1] != '.'
            &&& base[base.len() - 1] != ' '
            &&& !names_device(base)
        },
{
    lemma_reserved_stems_name_devices(base);
    if forall|i: int|
        0 <= i < base.len() ==> (#[trigger] base[i]) as int >= 32 && !(127 <= base[i] as int
            && (base[i] as int) < 160) {
        assert forall|i: int| 0 <= i < base.len() implies !text::control(#[trigger] base[i]) by {
        }
    }
    if safe_name(base) {
        assert forall|i: int| 0 <= i < base.len() implies (#[trigger] base[i]) as int >= 32 && !(
        127 <= base[i] as int && (base[i] as int) < 160) by {
            assert(!text::control(base[i]));
        }
    }
}

/// The number of blocks is the least that holds all bytes: one less is too few, and it is enough.
/// A size of zero asked for counts as one byte.
pub proof fn lemma_blocks_are_just_enough(size: nat, block: nat, chunk_size: usize)
    requires
        block > 0,
    ensures
        size <= blocks(size, block) * block,
        size > 0 ==> blocks(size, block) > 0 && (blocks(size, block) - 1) * block < size,
        size == 0 ==> blocks(size, block) == 0,
        block_size(chunk_size) as int == if chunk_size > 0 {
            chunk_size as int
        } else {
            1
        },
{
    vstd::arithmetic::div_mod::lemma_fundamental_div_mod(size as int, block as int);
    let q = (size / block) as int;
    let r = (size % block) as int;
    let n = blocks(size, block) as int;
    assert(size <= n * block && (size > 0 ==> n > 0 && (n - 1) * block < size)) by (nonlinear_arith)
        requires
            size == block * q + r,
            0 <= r < block,
            q >= 0,
            n == if r == 0 {
                q
            } else {
                q + 1
            },
    ;
    assert(size == 0 ==> q == 0) by (nonlinear_arith)
        requires
            size == block * q + r,
            0 <= r < block,
            q >= 0,
    ;
}

/// A plan cuts the file: the offer has its name and its size, each chunk holds the bytes from its
/// own multiple of the block on, as many as a block or as there are left, and has its own number,
/// and the end has the number of chunks.
pub proof fn lemma_plan_cuts_the_file(
    id: u32,
    name: Seq<char>,
    data: Seq<u8>,
    block: nat,
    i: int,
    k: int,
)
    requires
        block > 0,
        data.len() <= u64::MAX,
        blocks(data.len(), block) <= u32::MAX,
    ensures
        ({
            let msgs = plan(id, name, data, block);
            let n = msgs.len() - 2;
            &&& n >= 0
            &&& n == blocks(data.len(), block)
            &&& msgs[0] matches MessageView::FileOffer { id: of, name: called, size }
            &&& of == id
            &&& called == name
            &&& size == data.len()
            &&& msgs[n + 1] matches MessageView::FileEnd { id: end_of, count }
            &&& end_of == id
            &&& count == n
            &&& 0 <= i < n ==> {
                &&& msgs[i + 1] matches MessageView::FileChunk { id: chunk_of, seq, data: piece }
                &&& chunk_of == id
                &&& seq == i
                &&& 0 < piece.len() <= block
                &&& piece.len() == block || i * block + piece.len() == data.len()
                &&& 0 <= k < piece.len() ==> piece[k] == data[i * block + k]
            }
        }),
{
    let msgs = plan(id, name, data, block);
    let n = blocks(data.len(), block) as int;
    lemma_blocks_are_just_enough(data.len(), block, 1);
    if 0 <= i < n {
        let size = data.len() as int;
        assert(i * block < size && 0 <= i * block && (i + 1) * block == i * block + block)
            by (nonlinear_arith)
            requires
                0 <= i < n,
                block > 0,
                (n - 1) * block < size,
        ;
        assert(msgs[i + 1] == chunk_messages(id, data, block, n as nat)[i]);
    }
}

/// A chunk is refused for the first thing that is wrong with it, and the error says what was
/// expected. One with which nothing is wrong is accepted: it is of the transfer, next in turn,
/// neither empty nor above four mebibytes less one kibibyte, within the declared size, and can be
/// counted.
pub proof fn lemma_refusals_name_the_fault(t: Reassembly, id: u32, seq: u32, len: nat)
    requires
        len <= usize::MAX,
        t.received + len <= u64::MAX,
    ensures
        ({
            let r = t.refusal(id, seq, len);
            let ours = id == t.id;
            let next = ours && seq == t.next_seq;
            let sized = next && 1 <= len <= 4_193_280;
            let within = sized && t.received + len <= t.declared;
            &&& r is None <==> within && seq < u32::MAX
            &&& !ours ==> r == Some(FileError::IdMismatch { expected: t.id, got: id })
            &&& ours && !next ==> r == Some(
                FileError::OutOfOrder { expected: t.next_seq, got: seq },
            )
            &&& next && len == 0 ==> r == Some(FileError::EmptyChunk { seq })
            &&& next && len > 4_193_280 ==> r == Some(
                FileError::ChunkTooLarge { size: len as usize, limit: 4_193_280 },
            )
            &&& sized && !within ==> r == Some(
                FileError::SizeOverflow {
                    got: (t.received + len) as u64,
                    declared: t.declared,
                },
            )
            &&& within && seq == u32::MAX ==> r == Some(FileError::TooManyChunks)
        }),
        ({
            let after = t.grown(len);
            &&& after.id == t.id
            &&& after.name == t.name
            &&& after.declared == t.declared
            &&& after.received == t.received + len
            &&& t.next_seq < u32::MAX ==> after.next_seq == t.next_seq + 1
        }),
{
}

/// The end is refused for the first thing that is wrong with it, and the error says what was
/// expected. It is accepted if it is of the transfer, counts the chunks that came, and all bytes
/// did. A transfer begins with nothing.
pub proof fn lemma_end_refusals_name_the_fault(
    t: Reassembly,
    id: u32,
    count: u32,
    name: Seq<char>,
    size: u64,
)
    ensures
        ({
            let r = t.end_refusal(id, count);
            &&& r is None <==> id == t.id && count == t.next_seq && t.received == t.declared
            &&& id != t.id ==> r == Some(FileError::IdMismatch { expected: t.id, got: id })
            &&& id == t.id && count != t.next_seq ==> r == Some(
                FileError::CountMismatch { expected: t.next_seq, got: count },
            )
            &&& id == t.id && count == t.next_seq && t.received != t.declared ==> r == Some(
                FileError::SizeMismatch { declared: t.declared, received: t.received },
            )
        }),
        ({
            let fresh = Reassembly::fresh(id, name, size);
            &&& fresh.id == id
            &&& fresh.name == name
            &&& fresh.declared == size
            &&& fresh.next_seq == 0
            &&& fresh.received == 0
        }),
{
}

/// The payload is the bytes of the chunks in their order: that of some chunks and then others is
/// that of the first and then that of the others.
pub proof fn lemma_payload_is_in_order(first: Seq<MessageView>, rest: Seq<MessageView>)
    ensures
        payload(first + rest) == payload(first) + payload(rest),
        rest.len() == 1 ==> payload(rest) == rest[0]->FileChunk_data,
    decreases rest.len(),
{
    if rest.len() == 0 {
        assert(first + rest =~= first);
        assert(payload(first) + payload(rest) =~= payload(first));
    } else {
        lemma_payload_is_in_order(first, rest.drop_last());
        assert((first + rest).drop_last() =~= first + rest.drop_last());
        assert(payload(first + rest) =~= payload(first) + payload(rest));
        if rest.len() == 1 {
            assert(rest.drop_last() =~= Seq::empty());
            assert(payload(rest.drop_last()) =~= Seq::empty());
            assert(payload(rest) =~= rest[0]->FileChunk_data);
        }
    }
}

} // verus!
