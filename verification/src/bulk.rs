//! File exchange over a dedicated bulk connection.
//!
//! Bulk file bytes run on their own connection, separate from the keyboard and mouse, so that a
//! transfer can saturate the link without ever making the cursor stutter. The protocol is
//! `FileOffer`, `FileAccept`, any number of `FileChunk`, `FileEnd`. This module holds the
//! steps of the two ends; [`crate::sending`] and [`crate::receiving`] put them in order.

use crate::file_transfer;
use crate::file_transfer::{
    chunk_msg, end_msg, offer_msg, FileError, FileReassembler, Reassembly, DEFAULT_CHUNK_SIZE,
    MAX_CHUNK_SIZE,
};
use crate::message::{Message, MessageView, DEFAULT_PORT};
use crate::text;
use crate::text::push_decimal;
use crate::transport::MAX_FRAME_LEN;
use crate::{field, wire};
use vstd::prelude::*;

verus! {

/// Default port for the bulk file channel: one above the control port, so that the two never
/// collide on the default configuration.
pub const DEFAULT_FILE_PORT: u16 = DEFAULT_PORT + 1;

/// Cap on simultaneous inbound transfers; connections beyond it are dropped.
pub const MAX_CONCURRENT_TRANSFERS: usize = 8;

/// Seconds without a frame after which a receive is aborted, so that a peer cannot pin a slot and a
/// partial file open by stalling.
pub const IDLE_TIMEOUT_SECS: u64 = 30;

/// Knobs for sending.
#[derive(Clone, Copy, Debug, PartialEq, Eq, Structural)]
pub struct SendOptions {
    /// Payload bytes per chunk. Clamped to `[1, MAX_CHUNK_SIZE]`.
    pub chunk_size: usize,
    /// Wrap the connection in TLS.
    pub tls: bool,
}

impl Default for SendOptions {
    fn default() -> (o: Self)
        ensures
            o == (SendOptions { chunk_size: DEFAULT_CHUNK_SIZE, tls: false }),
    {
        Self { chunk_size: DEFAULT_CHUNK_SIZE, tls: false }
    }
}

/// The size of the chunks that a sender asked for `chunk_size` uses.
pub open spec fn clamped_chunk(chunk_size: usize) -> usize {
    if chunk_size == 0 {
        1
    } else if chunk_size > MAX_CHUNK_SIZE {
        MAX_CHUNK_SIZE
    } else {
        chunk_size
    }
}

/// Why a file was not sent.
#[derive(Debug, PartialEq, Eq)]
pub enum SendError {
    /// The receiver declined the file.
    Declined,
    /// The receiver answered the offer with something else.
    ExpectedFileAccept,
    /// The file has more chunks than can be counted.
    TooManyChunks,
    /// The file is not as long as it was when it was offered.
    FileChanged { declared: u64, read: u64 },
}

/// The mathematical value of a [`FileSender`].
pub struct Sending {
    pub id: u32,
    pub size: u64,
    pub chunk: usize,
    pub seq: u32,
    pub sent: u64,
}

impl Sending {
    /// The state once a block of `len` bytes has been sent.
    pub open spec fn advanced(self, len: nat) -> Sending {
        Sending { seq: (self.seq + 1) as u32, sent: (self.sent + len) as u64, ..self }
    }
}

/// The send half of a transfer.
#[derive(Debug)]
pub struct FileSender {
    id: u32,
    size: u64,
    chunk: usize,
    seq: u32,
    sent: u64,
}

impl View for FileSender {
    type V = Sending;

    closed spec fn view(&self) -> Sending {
        Sending { id: self.id, size: self.size, chunk: self.chunk, seq: self.seq, sent: self.sent }
    }
}

impl FileSender {
    #[verifier::type_invariant]
    spec fn inv(self) -> bool {
        &&& 1 <= self.chunk <= MAX_CHUNK_SIZE
        &&& self.sent <= self.seq * 0x40_0000
    }

    /// Begin to send a file of `size` bytes as transfer `id`. Returns the offer for the receiver.
    pub fn begin(id: u32, name: &str, size: u64, chunk_size: usize) -> (r: (Self, Message))
        ensures
            r.0@ == (Sending { id, size, chunk: clamped_chunk(chunk_size), seq: 0, sent: 0 }),
            r.1@ == (MessageView::FileOffer { id, name: name@, size }),
    {
        let chunk: usize = if chunk_size == 0 {
            1
        } else if chunk_size > MAX_CHUNK_SIZE {
            MAX_CHUNK_SIZE
        } else {
            chunk_size
        };
        (FileSender { id, size, chunk, seq: 0, sent: 0 }, offer_msg(id, name, size))
    }

    /// Takes the receiver's verdict on the offer.
    pub fn on_verdict(&self, msg: Message) -> (r: Result<(), SendError>)
        ensures
            r == match msg@ {
                MessageView::FileAccept { accept, .. } => if accept {
                    Ok::<(), SendError>(())
                } else {
                    Err(SendError::Declined)
                },
                _ => Err(SendError::ExpectedFileAccept),
            },
    {
        match msg {
            Message::FileAccept { accept, .. } => {
                if accept {
                    Ok(())
                } else {
                    Err(SendError::Declined)
                }
            },
            _ => Err(SendError::ExpectedFileAccept),
        }
    }

    /// The number of bytes that every chunk but the last holds.
    pub fn chunk_size(&self) -> (n: usize)
        ensures
            n == self@.chunk,
            1 <= n <= MAX_CHUNK_SIZE,
    {
        proof {
            use_type_invariant(self);
        }
        self.chunk
    }

    /// The chunk message for the next block of the file. It is counted with
    /// [`FileSender::chunk_sent`] once it is sent.
    pub fn chunk(&self, block: Vec<u8>) -> (msg: Message)
        ensures
            msg@ == (MessageView::FileChunk { id: self@.id, seq: self@.seq, data: block@ }),
    {
        chunk_msg(self.id, self.seq, block)
    }

    /// Counts a chunk of `len` bytes that has been sent.
    pub fn chunk_sent(&mut self, len: usize) -> (r: Result<(), SendError>)
        requires
            len <= old(self)@.chunk,
        ensures
            if old(self)@.seq < u32::MAX {
                r is Ok && final(self)@ == old(self)@.advanced(len as nat)
            } else {
                r == Err::<(), SendError>(SendError::TooManyChunks) && *final(self) == *old(self)
            },
    {
        proof {
            use_type_invariant(&*self);
        }
        match self.seq.checked_add(1) {
            Some(seq) => {
                let sent: u64 = self.sent + len as u64;
                *self = FileSender { id: self.id, size: self.size, chunk: self.chunk, seq, sent };
                Ok(())
            },
            None => Err(SendError::TooManyChunks),
        }
    }

    /// The message that ends the transfer, once the whole file has been sent.
    pub fn finish(&self) -> (r: Result<Message, SendError>)
        ensures
            match r {
                Ok(msg) => self@.sent == self@.size && msg@ == (MessageView::FileEnd {
                    id: self@.id,
                    count: self@.seq,
                }),
                Err(e) => self@.sent != self@.size && e == (SendError::FileChanged {
                    declared: self@.size,
                    read: self@.sent,
                }),
            },
    {
        if self.sent != self.size {
            return Err(SendError::FileChanged { declared: self.size, read: self.sent });
        }
        Ok(end_msg(self.id, self.seq))
    }
}

/// What comes of a read from the file.
#[derive(Debug, PartialEq, Eq)]
pub enum FillStep {
    /// The block is not full yet.
    More,
    /// A block is complete.
    Block(Vec<u8>),
    /// The file has ended.
    End,
}

/// Collects short reads into blocks, so that every block is full except the last.
#[derive(Debug)]
pub struct BlockFiller {
    chunk: usize,
    pending: Vec<u8>,
}

impl BlockFiller {
    #[verifier::type_invariant]
    spec fn inv(self) -> bool {
        self.pending@.len() < self.chunk
    }

    /// The size of a full block.
    pub closed spec fn chunk(self) -> nat {
        self.chunk as nat
    }

    /// The bytes of the block that is not full yet.
    pub closed spec fn pending(self) -> Seq<u8> {
        self.pending@
    }

    pub fn new(chunk: usize) -> (f: Self)
        requires
            chunk > 0,
        ensures
            f.chunk() == chunk,
            f.pending() == Seq::<u8>::empty(),
    {
        BlockFiller { chunk, pending: Vec::new() }
    }

    /// The number of bytes that are missing from the block.
    pub fn wanted(&self) -> (n: usize)
        ensures
            n == self.chunk() - self.pending().len(),
            n > 0,
    {
        proof {
            use_type_invariant(self);
        }
        self.chunk - self.pending.len()
    }

    /// Takes what a read gave. An empty read means that the file has ended.
    pub fn take(&mut self, bytes: &[u8]) -> (step: FillStep)
        requires
            bytes@.len() <= old(self).chunk() - old(self).pending().len(),
        ensures
            final(self).chunk() == old(self).chunk(),
            if bytes@.len() == 0 {
                final(self).pending() == Seq::<u8>::empty() && if old(self).pending().len() == 0 {
                    step is End
                } else {
                    step matches FillStep::Block(block) && block@ == old(self).pending()
                }
            } else if old(self).pending().len() + bytes@.len() == old(self).chunk() {
                final(self).pending() == Seq::<u8>::empty() && (step matches FillStep::Block(block)
                    && block@ == old(self).pending() + bytes@)
            } else {
                final(self).pending() == old(self).pending() + bytes@ && step is More
            },
    {
        proof {
            use_type_invariant(&*self);
        }
        let mut taken = BlockFiller { chunk: self.chunk, pending: Vec::new() };
        std::mem::swap(self, &mut taken);
        let BlockFiller { chunk, mut pending } = taken;
        if bytes.len() == 0 {
            if pending.len() == 0 {
                return FillStep::End;
            }
            return FillStep::Block(pending);
        }
        pending.extend_from_slice(bytes);
        assert(pending@ =~= old(self).pending@ + bytes@);
        if pending.len() == chunk {
            return FillStep::Block(pending);
        }
        *self = BlockFiller { chunk, pending };
        FillStep::More
    }
}

/// What comes of an offer.
#[derive(Debug)]
pub enum OfferOutcome {
    /// The file is accepted: the sender is to be told `reply`.
    Accepted { transfer: FileReassembler, reply: Message },
    /// The file is declined for `error`: the sender is to be told `reply`.
    Declined { error: FileError, reply: Message },
    /// The sender did not start with an offer.
    ExpectedFileOffer,
}

/// Takes the first message of a transfer. An offer is accepted if its name can be sanitised and its
/// size is within the limit.
pub fn receive_offer(msg: Message, size_limit: u64) -> (outcome: OfferOutcome)
    ensures
        match msg@ {
            MessageView::FileOffer { id, name, size } => {
                let base = file_transfer::base_name(name);
                if !file_transfer::safe_name(base) {
                    outcome matches OfferOutcome::Declined { error, reply } && (
                    error matches FileError::InvalidName(n) && n@ == name) && reply@ == (
                    MessageView::FileAccept { id, accept: false })
                } else if size > size_limit {
                    outcome matches OfferOutcome::Declined { error, reply } && error == (
                    FileError::TooLarge { size, limit: size_limit }) && reply@ == (
                    MessageView::FileAccept { id, accept: false })
                } else {
                    outcome matches OfferOutcome::Accepted { transfer, reply } && transfer@
                        == Reassembly::fresh(id, base, size) && reply@ == (
                    MessageView::FileAccept { id, accept: true })
                }
            },
            _ => outcome is ExpectedFileOffer,
        },
{
    match msg {
        Message::FileOffer { id, name, size } => {
            match FileReassembler::begin(id, name.as_str(), size, size_limit) {
                Ok(transfer) => OfferOutcome::Accepted {
                    transfer,
                    reply: Message::FileAccept { id, accept: true },
                },
                Err(error) => OfferOutcome::Declined {
                    error,
                    reply: Message::FileAccept { id, accept: false },
                },
            }
        },
        _ => OfferOutcome::ExpectedFileOffer,
    }
}

/// What comes of a message of an accepted transfer.
#[derive(Debug, PartialEq, Eq)]
pub enum TransferStep {
    /// These bytes are next in the file.
    Write(Vec<u8>),
    /// The file is whole.
    Complete,
    /// The transfer is broken.
    Rejected(FileError),
    /// The message does not belong to a transfer.
    Unexpected,
}

/// Takes the next message of an accepted transfer.
pub fn receive_step(transfer: &mut FileReassembler, msg: Message) -> (step: TransferStep)
    ensures
        match msg@ {
            MessageView::FileChunk { id, seq, data } => match old(transfer)@.refusal(
                id,
                seq,
                data.len(),
            ) {
                Some(e) => step == TransferStep::Rejected(e) && final(transfer)@ == old(transfer)@,
                None => {
                    &&& step matches TransferStep::Write(bytes) && bytes@ == data
                    &&& final(transfer)@ == old(transfer)@.grown(data.len())
                },
            },
            MessageView::FileEnd { id, count } => {
                &&& final(transfer)@ == old(transfer)@
                &&& match old(transfer)@.end_refusal(id, count) {
                    Some(e) => step == TransferStep::Rejected(e),
                    None => step is Complete,
                }
            },
            _ => step is Unexpected && final(transfer)@ == old(transfer)@,
        },
{
    match msg {
        Message::FileChunk { id, seq, data } => {
            match transfer.accept(id, seq, data.as_slice()) {
                Ok(_) => TransferStep::Write(data),
                Err(e) => TransferStep::Rejected(e),
            }
        },
        Message::FileEnd { id, count } => {
            match transfer.complete(id, count) {
                Ok(_) => TransferStep::Complete,
                Err(e) => TransferStep::Rejected(e),
            }
        },
        _ => TransferStep::Unexpected,
    }
}

/// The name of the file that an inbound transfer is collected in.
pub open spec fn temp_name_text(token: u64) -> Seq<char> {
    ".incoming-"@ + text::decimal(token as nat) + ".part"@
}

/// The name under which a file is published whose own name is taken.
pub open spec fn alternate_name_text(token: u64, name: Seq<char>) -> Seq<char> {
    text::decimal(token as nat).push('-') + name
}

/// The name of the file that an inbound transfer is collected in. It is unique to the token.
pub fn temp_name(token: u64) -> (name: String)
    ensures
        name@ == temp_name_text(token),
{
    let mut name: String = ".incoming-".to_string();
    push_decimal(&mut name, token);
    name.append(".part");
    name
}

/// The name to publish a file under: its own, or one with the token in front if its own is taken.
pub fn publish_name(name: &str, token: u64, taken: bool) -> (published: String)
    ensures
        published@ == if taken {
            alternate_name_text(token, name@)
        } else {
            name@
        },
{
    if taken {
        let mut alternate = String::new();
        push_decimal(&mut alternate, token);
        alternate.push('-');
        alternate.append(name);
        assert(alternate@ =~= alternate_name_text(token, name@));
        alternate
    } else {
        name.to_string()
    }
}

/// A chunk of at most the tolerated size always fits a frame.
pub proof fn lemma_chunk_fits_frame(id: u32, seq: u32, data: Seq<u8>)
    requires
        data.len() <= MAX_CHUNK_SIZE,
    ensures
        (MessageView::FileChunk { id, seq, data }).fits(),
        (MessageView::FileChunk { id, seq, data }).wire().len() <= MAX_FRAME_LEN,
{
    let m = MessageView::FileChunk { id, seq, data };
    wire::lemma_widths();
    reveal_with_fuel(field::written, 4);
    wire::lemma_be_wire_len(id as nat, 4);
    wire::lemma_be_wire_len(seq as nat, 4);
    wire::lemma_be_wire_len(data.len(), 4);
    wire::lemma_be_wire_len(m.opcode()->0.word() as nat, 4);
}

/// Transfers with different tokens are collected in different files, and none of these is a file
/// that a transfer can be published as.
pub proof fn lemma_temp_names_are_apart(a: u64, b: u64, name: Seq<char>)
    ensures
        a != b ==> temp_name_text(a) != temp_name_text(b),
        file_transfer::safe_name(name) ==> temp_name_text(a) != name,
{
    reveal_strlit(".incoming-");
    reveal_strlit(".part");
    if temp_name_text(a) == temp_name_text(b) {
        let x = temp_name_text(a);
        let da = text::decimal(a as nat);
        let db = text::decimal(b as nat);
        assert(x.len() == 10 + da.len() + 5 && x.len() == 10 + db.len() + 5);
        assert(x.subrange(10, x.len() - 5) =~= da);
        assert(x.subrange(10, x.len() - 5) =~= db);
        text::lemma_decimal_is_injective(a as nat, b as nat);
    }
    assert(temp_name_text(a)[0] == '.');
}

/// A sender cuts chunks of the size that it is asked for, where that is tolerated, and else of the
/// nearest that is: at least one byte, and at most four mebibytes less one kibibyte.
pub proof fn lemma_chunk_sizes_are_tolerated(chunk_size: usize)
    ensures
        1 <= clamped_chunk(chunk_size) <= 4_193_280,
        1 <= chunk_size <= 4_193_280 ==> clamped_chunk(chunk_size) == chunk_size,
        chunk_size == 0 ==> clamped_chunk(chunk_size) == 1,
        chunk_size > 4_193_280 ==> clamped_chunk(chunk_size) == 4_193_280,
{
}

/// A chunk that was sent is counted with its bytes, and nothing else changes.
pub proof fn lemma_sent_chunks_are_counted(s: Sending, len: nat)
    requires
        s.seq < u32::MAX,
        s.sent + len <= u64::MAX,
    ensures
        s.advanced(len).seq == s.seq + 1,
        s.advanced(len).sent == s.sent + len,
        s.advanced(len).id == s.id,
        s.advanced(len).size == s.size,
        s.advanced(len).chunk == s.chunk,
{
}

/// The temporary name of a transfer holds its token in decimal between a fixed beginning, which
/// makes it a hidden file, and a fixed end. The alternate name of a file is its own behind the
/// token and a hyphen, so that two tokens give two names.
pub proof fn lemma_names_hold_the_token(token: u64, other: u64, name: Seq<char>)
    ensures
        ({
            let temp = temp_name_text(token);
            let digits = temp.subrange(10, temp.len() - 5);
            &&& temp.take(10) == ".incoming-"@
            &&& text::number(digits) == token
            &&& digits == text::decimal(token as nat)
            &&& temp.skip(temp.len() - 5) == ".part"@
        }),
        ({
            let alternate = alternate_name_text(token, name);
            let n = alternate.len() - name.len() - 1;
            &&& n > 0
            &&& text::number(alternate.take(n)) == token
            &&& alternate.take(n) == text::decimal(token as nat)
            &&& alternate[n] == '-'
            &&& alternate.skip(n + 1) == name
        }),
        token != other ==> alternate_name_text(token, name) != alternate_name_text(other, name),
{
    reveal_strlit(".incoming-");
    reveal_strlit(".part");
    let digits = text::decimal(token as nat);
    let temp = temp_name_text(token);
    let alternate = alternate_name_text(token, name);
    text::lemma_decimal_stands_for_the_number(token as nat);
    text::lemma_decimal_stands_for_the_number(other as nat);
    text::lemma_decimal_is_digits(token as nat);
    text::lemma_decimal_is_digits(other as nat);
    assert(temp.take(10) =~= ".incoming-"@);
    assert(temp.subrange(10, temp.len() - 5) =~= digits);
    assert(temp.skip(temp.len() - 5) =~= ".part"@);
    assert(alternate.take(digits.len() as int) =~= digits);
    assert(alternate.skip(digits.len() as int + 1) =~= name);
    let others = text::decimal(other as nat);
    assert(alternate_name_text(other, name).take(others.len() as int) =~= others);
}

} // verus!
