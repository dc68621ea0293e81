//! One outbound transfer, from the offer to the end of the file.
//!
//! [`FileSending`] decides what to do next; whoever drives it talks to the peer and reads the file,
//! and reports back. The file is never held in memory as a whole.

use crate::bulk::{clamped_chunk, BlockFiller, FileSender, FillStep, SendError, Sending};
use crate::file_transfer;
use crate::file_transfer::{Reassembly, MAX_CHUNK_SIZE};
use crate::message::{Message, MessageView};
use vstd::prelude::*;

verus! {

/// Why a transfer failed.
#[derive(Debug, PartialEq, Eq)]
pub enum SendFailure {
    /// The receiver or the file is in the way.
    Refused(SendError),
    /// The peer or the disk failed, with what is said of it.
    Failed(String),
    /// What was reported is not what was asked for.
    OutOfTurn,
}

/// The mathematical value of a [`SendFailure`].
pub enum SendFailureView {
    Refused(SendError),
    Failed(Seq<char>),
    OutOfTurn,
}

impl View for SendFailure {
    type V = SendFailureView;

    open spec fn view(&self) -> SendFailureView {
        match *self {
            SendFailure::Refused(e) => SendFailureView::Refused(e),
            SendFailure::Failed(reason) => SendFailureView::Failed(reason@),
            SendFailure::OutOfTurn => SendFailureView::OutOfTurn,
        }
    }
}

/// How what was asked for went.
#[derive(Debug)]
pub enum SendReport {
    /// A message came.
    Got(Message),
    /// A read gave these bytes. There are none at the end of the file.
    Read(Vec<u8>),
    /// It is done.
    Done,
    /// It failed, with what is said of it.
    Failed(String),
}

/// The mathematical value of a [`SendReport`].
pub enum SendReportView {
    Got(MessageView),
    Read(Seq<u8>),
    Done,
    Failed(Seq<char>),
}

impl View for SendReport {
    type V = SendReportView;

    open spec fn view(&self) -> SendReportView {
        match *self {
            SendReport::Got(msg) => SendReportView::Got(msg@),
            SendReport::Read(bytes) => SendReportView::Read(bytes@),
            SendReport::Done => SendReportView::Done,
            SendReport::Failed(reason) => SendReportView::Failed(reason@),
        }
    }
}

/// What is to be done next.
#[derive(Debug, PartialEq, Eq)]
pub enum SendAction {
    /// Send a message to the peer.
    Send(Message),
    /// Wait for a message.
    Await,
    /// Read at most this many bytes of the file.
    Read(usize),
    /// The file has been sent.
    Finish,
    /// The transfer has failed.
    Fail(SendFailure),
}

/// The mathematical value of a [`SendAction`].
pub enum SendActionView {
    Send(MessageView),
    Await,
    Read(nat),
    Finish,
    Fail(SendFailureView),
}

impl View for SendAction {
    type V = SendActionView;

    open spec fn view(&self) -> SendActionView {
        match *self {
            SendAction::Send(msg) => SendActionView::Send(msg@),
            SendAction::Await => SendActionView::Await,
            SendAction::Read(n) => SendActionView::Read(n as nat),
            SendAction::Finish => SendActionView::Finish,
            SendAction::Fail(e) => SendActionView::Fail(e@),
        }
    }
}

/// How far the transfer has come.
#[derive(Clone, Copy, Debug, PartialEq, Eq, Structural)]
pub enum SendPhase {
    /// The offer is being sent.
    Offering,
    /// The verdict is waited for.
    Waiting,
    /// The file is being read.
    Reading,
    /// A chunk of this many bytes is being sent.
    Sending(usize),
    /// The end is being sent.
    Ending,
    /// It is over.
    Over,
}

/// The mathematical value of a [`FileSending`].
pub struct SendState {
    pub sender: Sending,
    /// What has been read of the next block.
    pub pending: Seq<u8>,
    pub phase: SendPhase,
}

/// The failure that a report is, where something else was asked for than what it tells of.
pub open spec fn failure(report: SendReportView) -> SendFailureView {
    match report {
        SendReportView::Failed(reason) => SendFailureView::Failed(reason),
        _ => SendFailureView::OutOfTurn,
    }
}

/// The state of a transfer that has just begun.
pub open spec fn starting(id: u32, size: u64, chunk_size: usize) -> SendState {
    SendState {
        sender: Sending { id, size, chunk: clamped_chunk(chunk_size), seq: 0, sent: 0 },
        pending: Seq::empty(),
        phase: SendPhase::Offering,
    }
}

/// The first thing to be done.
pub open spec fn first(id: u32, name: Seq<char>, size: u64) -> SendActionView {
    SendActionView::Send(MessageView::FileOffer { id, name, size })
}

impl SendState {
    /// The number of bytes that are missing from the block.
    pub open spec fn room(self) -> nat {
        (self.sender.chunk - self.pending.len()) as nat
    }

    /// The end of a transfer that has failed.
    pub open spec fn failing(self, e: SendFailureView) -> (SendState, SendActionView) {
        (SendState { phase: SendPhase::Over, ..self }, SendActionView::Fail(e))
    }

    /// The request for more of the file.
    pub open spec fn reading(self) -> (SendState, SendActionView) {
        (SendState { phase: SendPhase::Reading, ..self }, SendActionView::Read(self.room()))
    }

    /// The next chunk.
    pub open spec fn sending(self, block: Seq<u8>) -> (SendState, SendActionView) {
        (
            SendState {
                pending: Seq::empty(),
                phase: SendPhase::Sending(block.len() as usize),
                ..self
            },
            SendActionView::Send(
                MessageView::FileChunk { id: self.sender.id, seq: self.sender.seq, data: block },
            ),
        )
    }

    /// The end, if the file is as long as it was when it was offered.
    pub open spec fn ending(self) -> (SendState, SendActionView) {
        if self.sender.sent == self.sender.size {
            (
                SendState { phase: SendPhase::Ending, ..self },
                SendActionView::Send(
                    MessageView::FileEnd { id: self.sender.id, count: self.sender.seq },
                ),
            )
        } else {
            self.failing(
                SendFailureView::Refused(
                    SendError::FileChanged {
                        declared: self.sender.size,
                        read: self.sender.sent,
                    },
                ),
            )
        }
    }

    /// What comes of a read. Blocks are sent when they are full, or when the file has ended.
    pub open spec fn taken(self, bytes: Seq<u8>) -> (SendState, SendActionView) {
        let more = self.pending + bytes;
        if bytes.len() > self.room() {
            self.failing(SendFailureView::OutOfTurn)
        } else if bytes.len() == 0 {
            if self.pending.len() == 0 {
                self.ending()
            } else {
                self.sending(self.pending)
            }
        } else if more.len() == self.sender.chunk {
            self.sending(more)
        } else {
            (SendState { pending: more, ..self }).reading()
        }
    }

    /// The state after a report, and what is to be done next.
    pub open spec fn step(self, report: SendReportView) -> (SendState, SendActionView) {
        match self.phase {
            SendPhase::Offering => match report {
                SendReportView::Done => (
                    SendState { phase: SendPhase::Waiting, ..self },
                    SendActionView::Await,
                ),
                _ => self.failing(failure(report)),
            },
            SendPhase::Waiting => match report {
                SendReportView::Got(MessageView::FileAccept { accept, .. }) => if accept {
                    self.reading()
                } else {
                    self.failing(SendFailureView::Refused(SendError::Declined))
                },
                SendReportView::Got(_) => self.failing(
                    SendFailureView::Refused(SendError::ExpectedFileAccept),
                ),
                _ => self.failing(failure(report)),
            },
            SendPhase::Reading => match report {
                SendReportView::Read(bytes) => self.taken(bytes),
                _ => self.failing(failure(report)),
            },
            SendPhase::Sending(len) => match report {
                SendReportView::Done => if self.sender.seq < u32::MAX {
                    (SendState { sender: self.sender.advanced(len as nat), ..self }).reading()
                } else {
                    self.failing(SendFailureView::Refused(SendError::TooManyChunks))
                },
                _ => self.failing(failure(report)),
            },
            SendPhase::Ending => match report {
                SendReportView::Done => (
                    SendState { phase: SendPhase::Over, ..self },
                    SendActionView::Finish,
                ),
                _ => self.failing(failure(report)),
            },
            SendPhase::Over => self.failing(SendFailureView::OutOfTurn),
        }
    }
}

/// Sends one file.
#[derive(Debug)]
pub struct FileSending {
    sender: FileSender,
    filler: BlockFiller,
    phase: SendPhase,
}

impl View for FileSending {
    type V = SendState;

    closed spec fn view(&self) -> SendState {
        SendState { sender: self.sender@, pending: self.filler.pending(), phase: self.phase }
    }
}

fn failed(report: SendReport) -> (e: SendFailure)
    ensures
        e@ == failure(report@),
{
    match report {
        SendReport::Failed(reason) => SendFailure::Failed(reason),
        _ => SendFailure::OutOfTurn,
    }
}

impl FileSending {
    #[verifier::type_invariant]
    spec fn inv(self) -> bool {
        &&& self.filler.chunk() == self.sender@.chunk
        &&& self.phase matches SendPhase::Sending(len) ==> len <= self.sender@.chunk
    }

    /// Begin to send a file of `size` bytes as transfer `id`, in chunks of at most `chunk_size`
    /// bytes. Returns the first thing to be done: to send the offer.
    pub fn begin(id: u32, name: &str, size: u64, chunk_size: usize) -> (r: (Self, SendAction))
        ensures
            r.0@ == starting(id, size, chunk_size),
            r.1@ == first(id, name@, size),
    {
        let (sender, offer) = FileSender::begin(id, name, size, chunk_size);
        let filler = BlockFiller::new(sender.chunk_size());
        (FileSending { sender, filler, phase: SendPhase::Offering }, SendAction::Send(offer))
    }

    /// Take the report on what was asked for, and say what is to be done next.
    pub fn next(&mut self, report: SendReport) -> (action: SendAction)
        ensures
            (final(self)@, action@) == old(self)@.step(report@),
    {
        let (mut taken, _) = FileSending::begin(0, "", 0, 1);
        std::mem::swap(self, &mut taken);
        proof {
            use_type_invariant(&taken);
        }
        let FileSending { mut sender, mut filler, phase } = taken;
        let (phase, action) = match phase {
            SendPhase::Offering => match report {
                SendReport::Done => (SendPhase::Waiting, SendAction::Await),
                _ => (SendPhase::Over, SendAction::Fail(failed(report))),
            },
            SendPhase::Waiting => match report {
                SendReport::Got(msg) => match sender.on_verdict(msg) {
                    Ok(()) => (SendPhase::Reading, SendAction::Read(filler.wanted())),
                    Err(e) => (SendPhase::Over, SendAction::Fail(SendFailure::Refused(e))),
                },
                _ => (SendPhase::Over, SendAction::Fail(failed(report))),
            },
            SendPhase::Reading => match report {
                SendReport::Read(bytes) => {
                    if bytes.len() > filler.wanted() {
                        (SendPhase::Over, SendAction::Fail(SendFailure::OutOfTurn))
                    } else {
                        match filler.take(bytes.as_slice()) {
                            FillStep::More => (
                                SendPhase::Reading,
                                SendAction::Read(filler.wanted()),
                            ),
                            FillStep::Block(block) => {
                                let len: usize = block.len();
                                (SendPhase::Sending(len), SendAction::Send(sender.chunk(block)))
                            },
                            FillStep::End => {
                                assert(filler.pending() =~= old(self)@.pending);
                                match sender.finish() {
                                    Ok(msg) => (SendPhase::Ending, SendAction::Send(msg)),
                                    Err(e) => (
                                        SendPhase::Over,
                                        SendAction::Fail(SendFailure::Refused(e)),
                                    ),
                                }
                            },
                        }
                    }
                },
                _ => (SendPhase::Over, SendAction::Fail(failed(report))),
            },
            SendPhase::Sending(len) => match report {
                SendReport::Done => match sender.chunk_sent(len) {
                    Ok(()) => (SendPhase::Reading, SendAction::Read(filler.wanted())),
                    Err(e) => (SendPhase::Over, SendAction::Fail(SendFailure::Refused(e))),
                },
                _ => (SendPhase::Over, SendAction::Fail(failed(report))),
            },
            SendPhase::Ending => match report {
                SendReport::Done => (SendPhase::Over, SendAction::Finish),
                _ => (SendPhase::Over, SendAction::Fail(failed(report))),
            },
            SendPhase::Over => (SendPhase::Over, SendAction::Fail(SendFailure::OutOfTurn)),
        };
        *self = FileSending { sender, filler, phase };
        action
    }
}

impl SendState {
    /// The state after some reports.
    pub open spec fn after(self, reports: Seq<SendReportView>) -> SendState
        decreases reports.len(),
    {
        if reports.len() == 0 {
            self
        } else {
            self.after(reports.drop_last()).step(reports.last()).0
        }
    }

    /// The messages that some reports lead to.
    pub open spec fn sent(self, reports: Seq<SendReportView>) -> Seq<MessageView>
        decreases reports.len(),
    {
        if reports.len() == 0 {
            Seq::empty()
        } else {
            let before = self.sent(reports.drop_last());
            match self.after(reports.drop_last()).step(reports.last()).1 {
                SendActionView::Send(msg) => before.push(msg),
                _ => before,
            }
        }
    }

    /// The bytes that have been read by some reports, one after the other.
    pub open spec fn read(self, reports: Seq<SendReportView>) -> Seq<u8>
        decreases reports.len(),
    {
        if reports.len() == 0 {
            Seq::empty()
        } else {
            let before = self.read(reports.drop_last());
            match reports.last() {
                SendReportView::Read(bytes) => before + bytes,
                _ => before,
            }
        }
    }

    /// Whether the file has ended by some reports.
    pub open spec fn at_end(self, reports: Seq<SendReportView>) -> bool
        decreases reports.len(),
    {
        reports.len() > 0 && {
            ||| self.at_end(reports.drop_last())
            ||| (reports.last() matches SendReportView::Read(bytes) && bytes.len() == 0)
        }
    }

    /// Whether the file has stayed at its end once it was there, by some reports.
    pub open spec fn steady(self, reports: Seq<SendReportView>) -> bool
        decreases reports.len(),
    {
        reports.len() > 0 ==> {
            &&& self.steady(reports.drop_last())
            &&& self.at_end(reports.drop_last()) && (reports.last() is Read)
                ==> reports.last()->Read_0.len() == 0
        }
    }
}

/// Whether all of some chunks but the last hold exactly `block` bytes.
pub open spec fn full_but_last(chunks: Seq<MessageView>, block: nat) -> bool {
    forall|i: int|
        0 <= i < chunks.len() - 1 ==> (#[trigger] chunks[i])->FileChunk_data.len() == block
}

/// Whether all of some chunks hold exactly `block` bytes.
spec fn all_full(chunks: Seq<MessageView>, block: nat) -> bool {
    forall|i: int| 0 <= i < chunks.len() ==> (#[trigger] chunks[i])->FileChunk_data.len() == block
}

/// Whether the state, the messages and the bytes that some reports lead to belong together.
spec fn in_step(
    state: SendState,
    msgs: Seq<MessageView>,
    data: Seq<u8>,
    at_end: bool,
    steady: bool,
) -> bool {
    let c = state.sender.chunk as nat;
    let id = state.sender.id;
    &&& 1 <= c <= MAX_CHUNK_SIZE
    &&& match state.phase {
        SendPhase::Offering | SendPhase::Waiting => {
            &&& msgs.len() == 0
            &&& data.len() == 0
            &&& !at_end
            &&& state.pending.len() == 0
            &&& state.sender.seq == 0
            &&& state.sender.sent == 0
        },
        SendPhase::Reading => {
            &&& file_transfer::numbered(msgs, id, c)
            &&& file_transfer::payload(msgs) + state.pending == data
            &&& state.pending.len() < c
            &&& state.sender.seq == msgs.len()
            &&& state.sender.sent == file_transfer::payload(msgs).len()
            &&& state.sender.sent <= state.sender.seq * 0x40_0000
            &&& steady && !at_end ==> all_full(msgs, c)
            &&& steady && at_end ==> state.pending.len() == 0 && full_but_last(msgs, c)
        },
        SendPhase::Sending(len) => {
            &&& file_transfer::numbered(msgs, id, c)
            &&& file_transfer::payload(msgs) == data
            &&& state.pending.len() == 0
            &&& state.sender.seq + 1 == msgs.len()
            &&& state.sender.sent + len == file_transfer::payload(msgs).len()
            &&& state.sender.sent <= state.sender.seq * 0x40_0000
            &&& len <= c
            &&& steady && !at_end ==> all_full(msgs, c)
            &&& steady && at_end ==> full_but_last(msgs, c)
        },
        SendPhase::Ending => {
            let chunks = msgs.drop_last();
            &&& msgs.len() == state.sender.seq + 1
            &&& msgs.last() == (MessageView::FileEnd { id, count: state.sender.seq })
            &&& file_transfer::numbered(chunks, id, c)
            &&& file_transfer::payload(chunks) == data
            &&& data.len() == state.sender.size
            &&& steady ==> full_but_last(chunks, c)
        },
        SendPhase::Over => true,
    }
}

proof fn lemma_chunk_is_appended(
    msgs: Seq<MessageView>,
    id: u32,
    block: nat,
    seq: u32,
    data: Seq<u8>,
)
    requires
        file_transfer::numbered(msgs, id, block),
        seq == msgs.len(),
        0 < data.len() <= block,
    ensures
        ({
            let after = msgs.push(MessageView::FileChunk { id, seq, data });
            &&& file_transfer::numbered(after, id, block)
            &&& file_transfer::payload(after) == file_transfer::payload(msgs) + data
            &&& all_full(msgs, block) ==> full_but_last(after, block)
            &&& all_full(msgs, block) && data.len() == block ==> all_full(after, block)
        }),
{
    let after = msgs.push(MessageView::FileChunk { id, seq, data });
    assert(after.drop_last() =~= msgs);
}

proof fn lemma_read_keeps_step(
    state: SendState,
    msgs: Seq<MessageView>,
    data: Seq<u8>,
    at_end: bool,
    steady: bool,
    bytes: Seq<u8>,
)
    requires
        state.phase is Reading,
        in_step(state, msgs, data, at_end, steady),
    ensures
        ({
            let (after, action) = state.taken(bytes);
            in_step(
                after,
                if action is Send {
                    msgs.push(action->Send_0)
                } else {
                    msgs
                },
                data + bytes,
                at_end || bytes.len() == 0,
                steady && (at_end ==> bytes.len() == 0),
            )
        }),
{
    let c = state.sender.chunk as nat;
    let id = state.sender.id;
    let seq = state.sender.seq;
    let (after, action) = state.taken(bytes);
    let more = state.pending + bytes;
    assert(data + bytes =~= file_transfer::payload(msgs) + more);
    if bytes.len() > state.room() {
    } else if bytes.len() == 0 {
        if state.pending.len() == 0 {
            assert(data + bytes =~= file_transfer::payload(msgs));
            if after.phase is Ending {
                assert(msgs.push(action->Send_0).drop_last() =~= msgs);
            }
        } else {
            assert(more =~= state.pending);
            lemma_chunk_is_appended(msgs, id, c, seq, state.pending);
        }
    } else if more.len() == c {
        lemma_chunk_is_appended(msgs, id, c, seq, more);
    }
}

proof fn lemma_in_step(id: u32, size: u64, chunk_size: usize, reports: Seq<SendReportView>)
    ensures
        ({
            let start = starting(id, size, chunk_size);
            let state = start.after(reports);
            &&& state.sender.id == id
            &&& state.sender.size == size
            &&& state.sender.chunk == clamped_chunk(chunk_size)
            &&& in_step(
                state,
                start.sent(reports),
                start.read(reports),
                start.at_end(reports),
                start.steady(reports),
            )
        }),
    decreases reports.len(),
{
    let start = starting(id, size, chunk_size);
    if reports.len() > 0 {
        let earlier = reports.drop_last();
        lemma_in_step(id, size, chunk_size, earlier);
        let state = start.after(earlier);
        let msgs = start.sent(earlier);
        let data = start.read(earlier);
        match (state.phase, reports.last()) {
            (SendPhase::Reading, SendReportView::Read(bytes)) => {
                lemma_read_keeps_step(
                    state,
                    msgs,
                    data,
                    start.at_end(earlier),
                    start.steady(earlier),
                    bytes,
                );
            },
            (SendPhase::Waiting, SendReportView::Got(_)) => {
                assert(file_transfer::payload(msgs) + state.pending =~= data);
            },
            (SendPhase::Sending(_), SendReportView::Done) => {
                assert(file_transfer::payload(msgs) + state.pending =~= data);
            },
            _ => {},
        }
    }
}

/// A sent file arrives: by the time that a transfer finishes, what has been sent behind the offer
/// is chunks that every receiver of the offer accepts, which together hold exactly the bytes that
/// were read, and an end that it accepts too.
pub proof fn lemma_sent_file_arrives(
    id: u32,
    size: u64,
    chunk_size: usize,
    name: Seq<char>,
    reports: Seq<SendReportView>,
    last: SendReportView,
)
    requires
        starting(id, size, chunk_size).after(reports).step(last).1 is Finish,
    ensures
        ({
            let start = starting(id, size, chunk_size);
            let chunks = start.sent(reports).drop_last();
            let fresh = Reassembly::fresh(id, file_transfer::base_name(name), size);
            &&& start.sent(reports).len() > 0
            &&& start.read(reports).len() == size
            &&& fresh.accepts(chunks)
            &&& file_transfer::payload(chunks) == start.read(reports)
            &&& start.sent(reports).last() matches MessageView::FileEnd { id: of, count }
            &&& fresh.after_chunks(chunks).end_refusal(of, count) is None
        }),
{
    let start = starting(id, size, chunk_size);
    let base = file_transfer::base_name(name);
    let chunks = start.sent(reports).drop_last();
    lemma_in_step(id, size, chunk_size, reports);
    assert(file_transfer::numbered(chunks, id, MAX_CHUNK_SIZE as nat)) by {
        let c = clamped_chunk(chunk_size) as nat;
        assert(file_transfer::numbered(chunks, id, c));
    }
    file_transfer::lemma_numbered_chunks_are_accepted(id, base, size, chunks);
    file_transfer::lemma_accepted_chunks(id, base, size, chunks);
}

/// The place of a chunk in what all but the last of which are full.
proof fn lemma_chunk_place(chunks: Seq<MessageView>, id: u32, block: nat, i: int)
    requires
        block > 0,
        file_transfer::numbered(chunks, id, block),
        full_but_last(chunks, block),
        0 <= i < chunks.len(),
    ensures
        ({
            let data = file_transfer::payload(chunks);
            &&& (chunks.len() - 1) * block < data.len() <= chunks.len() * block
            &&& chunks[i]->FileChunk_data == file_transfer::nth_block(data, block, i)
        }),
    decreases chunks.len(),
{
    let data = file_transfer::payload(chunks);
    let front = chunks.drop_last();
    let last = chunks[chunks.len() - 1]->FileChunk_data;
    let n = front.len();
    assert(chunks[chunks.len() - 1] is FileChunk);
    assert forall|k: int| 0 <= k < front.len() implies ((
    #[trigger] front[k]) matches MessageView::FileChunk { id: of, seq, data } && of == id && seq
        == k && 0 < data.len() <= block) by {
        assert(front[k] == chunks[k]);
    }
    assert forall|k: int| 0 <= k < front.len() - 1 implies (
    #[trigger] front[k])->FileChunk_data.len() == block by {
        assert(front[k] == chunks[k]);
    }
    let before = file_transfer::payload(front);
    if n > 0 {
        lemma_chunk_place(front, id, block, n - 1);
        assert(chunks[n - 1]->FileChunk_data.len() == block);
        assert(front[n - 1] == chunks[n - 1]);
        assert((n - 1) * block + block == n * block) by (nonlinear_arith);
    } else {
        assert(before =~= Seq::empty());
        assert(n * block == 0) by (nonlinear_arith)
            requires
                n == 0,
        ;
    }
    assert(before.len() == n * block);
    assert((n + 1) * block == n * block + block) by (nonlinear_arith);
    if i == n {
        assert(last =~= file_transfer::nth_block(data, block, i));
    } else {
        lemma_chunk_place(front, id, block, i);
        assert(front[i] == chunks[i]);
        assert((i + 1) * block <= n * block && 0 <= i * block <= (i + 1) * block)
            by (nonlinear_arith)
            requires
                0 <= i < n,
                block > 0,
        ;
        assert(file_transfer::nth_block(before, block, i) =~= file_transfer::nth_block(
            data,
            block,
            i,
        ));
    }
}

/// Streaming a file off the disk sends exactly the planned messages, however short the reads are,
/// if the file stays at its end once it is there.
pub proof fn lemma_streaming_follows_the_plan(
    id: u32,
    size: u64,
    chunk_size: usize,
    name: Seq<char>,
    reports: Seq<SendReportView>,
    last: SendReportView,
)
    requires
        starting(id, size, chunk_size).after(reports).step(last).1 is Finish,
        starting(id, size, chunk_size).steady(reports),
    ensures
        ({
            let start = starting(id, size, chunk_size);
            seq![MessageView::FileOffer { id, name, size }] + start.sent(reports)
                == file_transfer::plan(
                id,
                name,
                start.read(reports),
                clamped_chunk(chunk_size) as nat,
            )
        }),
{
    let start = starting(id, size, chunk_size);
    let sent = start.sent(reports);
    let chunks = sent.drop_last();
    let data = start.read(reports);
    let c = clamped_chunk(chunk_size) as nat;
    let n = chunks.len();
    lemma_in_step(id, size, chunk_size, reports);
    if n > 0 {
        lemma_chunk_place(chunks, id, c, 0);
    } else {
        assert(data =~= Seq::empty());
        assert(n * c == 0) by (nonlinear_arith)
            requires
                n == 0,
        ;
    }
    file_transfer::lemma_blocks(data.len(), c, n);
    let planned = file_transfer::chunk_messages(id, data, c, n);
    assert forall|i: int| 0 <= i < n implies #[trigger] chunks[i] == planned[i] by {
        lemma_chunk_place(chunks, id, c, i);
    }
    assert(chunks =~= planned);
    assert(sent =~= chunks.push(sent.last()));
    assert(seq![MessageView::FileOffer { id, name, size }] + sent =~= file_transfer::plan(
        id,
        name,
        data,
        c,
    ));
}

/// Whether all goes well by some reports: the receiver accepts the offer, every message is sent,
/// and each read gives the next bytes of a file of contents `data`, and none only at its end.
pub open spec fn goes_well(start: SendState, reports: Seq<SendReportView>, data: Seq<u8>) -> bool
    decreases reports.len(),
{
    reports.len() > 0 ==> {
        let earlier = reports.drop_last();
        let at = start.read(earlier).len() as int;
        &&& goes_well(start, earlier, data)
        &&& match start.after(earlier).phase {
            SendPhase::Waiting => reports.last() matches SendReportView::Got(
                MessageView::FileAccept { accept: true, .. },
            ),
            SendPhase::Reading => {
                &&& reports.last() matches SendReportView::Read(bytes)
                &&& bytes.len() <= start.after(earlier).room()
                &&& at + bytes.len() <= data.len()
                &&& bytes == data.subrange(at, at + bytes.len())
                &&& bytes.len() == 0 ==> at == data.len()
            },
            SendPhase::Over => false,
            _ => reports.last() is Done,
        }
    }
}

/// A good file is sent: if all goes well, the file is as long as was offered and its chunks can be
/// counted, then no step fails, the sender asks for more until it has finished, and every read that
/// it asks for is for at least a byte and at most a chunk. It has read the file from its beginning
/// on, and all of it once it has finished.
pub proof fn lemma_good_file_is_sent(
    id: u32,
    size: u64,
    chunk_size: usize,
    reports: Seq<SendReportView>,
    data: Seq<u8>,
)
    requires
        data.len() == size,
        file_transfer::blocks(data.len(), clamped_chunk(chunk_size) as nat) <= u32::MAX,
        goes_well(starting(id, size, chunk_size), reports, data),
    ensures
        ({
            let start = starting(id, size, chunk_size);
            let state = start.after(reports);
            let earlier = start.after(reports.drop_last());
            &&& start.read(reports).len() <= data.len()
            &&& start.read(reports) == data.take(start.read(reports).len() as int)
            &&& start.at_end(reports) ==> start.read(reports) == data
            &&& start.steady(reports)
            &&& reports.len() > 0 ==> !(earlier.step(reports.last()).1 is Fail)
            &&& state.phase is Over ==> reports.len() > 0 && earlier.step(
                reports.last(),
            ).1 is Finish
            &&& state.phase is Over || state.phase is Ending ==> start.read(reports) == data
            &&& state.phase is Reading ==> 1 <= state.room() <= clamped_chunk(chunk_size)
        }),
    decreases reports.len(),
{
    let start = starting(id, size, chunk_size);
    let c = clamped_chunk(chunk_size) as nat;
    lemma_in_step(id, size, chunk_size, reports);
    if reports.len() > 0 {
        let earlier = reports.drop_last();
        let state = start.after(earlier);
        let msgs = start.sent(earlier);
        lemma_good_file_is_sent(id, size, chunk_size, earlier, data);
        lemma_in_step(id, size, chunk_size, earlier);
        match state.phase {
            SendPhase::Sending(_) => {
                lemma_chunk_place(msgs, id, c, msgs.len() - 1);
                file_transfer::lemma_blocks_are_just_enough(data.len(), c, 1);
                let n = file_transfer::blocks(data.len(), c) as int;
                let k = msgs.len() - 1;
                assert(k < n) by (nonlinear_arith)
                    requires
                        k * c < data.len(),
                        data.len() <= n * c,
                        c > 0,
                ;
            },
            SendPhase::Reading => {
                let bytes = reports.last()->Read_0;
                let at = start.read(earlier).len() as int;
                assert(start.read(reports) =~= data.take(at + bytes.len()));
                assert(data.take(data.len() as int) =~= data);
                if bytes.len() == 0 && state.pending.len() == 0 {
                    assert(file_transfer::payload(msgs) =~= data);
                }
            },
            _ => {},
        }
    } else {
        assert(start.read(reports) =~= data.take(0));
    }
}

/// What the sender does next is fixed by how the last thing went. The offer is followed by the wait
/// for the verdict. An acceptance, whatever its number, is followed by reading, a refusal ends the
/// transfer, and so does any other message. A sent end finishes the transfer.
pub proof fn lemma_sender_takes_its_turns(state: SendState, report: SendReportView)
    ensures
        ({
            let (after, action) = state.step(report);
            &&& state.phase is Offering && report is Done ==> action is Await && after == (
            SendState { phase: SendPhase::Waiting, ..state })
            &&& state.phase is Waiting ==> match report {
                SendReportView::Got(MessageView::FileAccept { accept: true, .. }) => action
                    == SendActionView::Read((state.sender.chunk - state.pending.len()) as nat)
                    && after == (SendState { phase: SendPhase::Reading, ..state }),
                SendReportView::Got(MessageView::FileAccept { accept: false, .. }) => action
                    == SendActionView::Fail(SendFailureView::Refused(SendError::Declined)),
                SendReportView::Got(_) => action == SendActionView::Fail(
                    SendFailureView::Refused(SendError::ExpectedFileAccept),
                ),
                _ => action is Fail,
            }
            &&& state.phase is Ending && report is Done ==> action is Finish && after.phase is Over
            &&& action is Finish ==> state.phase is Ending && report is Done
        }),
{
}

/// A read is taken up until the block is full or the file has ended, and then the block is sent as
/// one chunk with the next number. A file that has ended is followed by the end, with the number of
/// chunks, if as many bytes were sent as were offered, and else the transfer fails with both
/// numbers.
pub proof fn lemma_reads_are_taken_up(state: SendState, bytes: Seq<u8>)
    requires
        state.phase is Reading,
        state.pending.len() + bytes.len() <= state.sender.chunk,
    ensures
        ({
            let (after, action) = state.step(SendReportView::Read(bytes));
            let all = state.pending + bytes;
            let whole = bytes.len() == 0 || all.len() == state.sender.chunk;
            &&& after.sender == state.sender
            &&& !whole ==> {
                &&& after.pending == all
                &&& after.phase is Reading
                &&& action == SendActionView::Read((state.sender.chunk - all.len()) as nat)
            }
            &&& whole && all.len() > 0 ==> {
                &&& after.pending.len() == 0
                &&& after.phase == SendPhase::Sending(all.len() as usize)
                &&& action matches SendActionView::Send(MessageView::FileChunk { id, seq, data })
                &&& id == state.sender.id
                &&& seq == state.sender.seq
                &&& data == all
            }
            &&& all.len() == 0 && bytes.len() == 0 && state.sender.sent == state.sender.size ==> {
                &&& after.phase is Ending
                &&& action == SendActionView::Send(
                    MessageView::FileEnd { id: state.sender.id, count: state.sender.seq },
                )
            }
            &&& all.len() == 0 && bytes.len() == 0 && state.sender.sent != state.sender.size
                ==> action == SendActionView::Fail(
                SendFailureView::Refused(
                    SendError::FileChanged {
                        declared: state.sender.size,
                        read: state.sender.sent,
                    },
                ),
            )
        }),
{
    assert(bytes.len() == 0 ==> state.pending + bytes =~= state.pending);
}

/// A chunk that has been sent is counted, with its bytes, and the next block is read. Past the
/// greatest number the transfer fails.
pub proof fn lemma_chunks_are_counted(state: SendState, len: usize)
    requires
        state.phase == SendPhase::Sending(len),
        state.sender.sent + len <= u64::MAX,
    ensures
        ({
            let (after, action) = state.step(SendReportView::Done);
            &&& state.sender.seq < u32::MAX ==> {
                &&& after.phase is Reading
                &&& after.pending == state.pending
                &&& after.sender.seq == state.sender.seq + 1
                &&& after.sender.sent == state.sender.sent + len
                &&& after.sender.id == state.sender.id
                &&& after.sender.size == state.sender.size
                &&& after.sender.chunk == state.sender.chunk
                &&& action == SendActionView::Read(
                    (state.sender.chunk - state.pending.len()) as nat,
                )
            }
            &&& state.sender.seq == u32::MAX ==> action == SendActionView::Fail(
                SendFailureView::Refused(SendError::TooManyChunks),
            )
        }),
{
}

/// A failure that is reported ends the transfer in its own words, and a report of something that
/// was not asked for, or on more bytes than were, ends it too. Nothing follows the end.
pub proof fn lemma_failures_end_the_sending(
    state: SendState,
    reason: Seq<char>,
    report: SendReportView,
)
    ensures
        !(state.phase is Over) ==> state.step(SendReportView::Failed(reason)).1
            == SendActionView::Fail(SendFailureView::Failed(reason)),
        state.phase is Over ==> state.step(report).1 == SendActionView::Fail(
            SendFailureView::OutOfTurn,
        ),
        (state.phase is Offering || state.phase is Sending || state.phase is Ending) && (
        report is Got || report is Read) ==> state.step(report).1 == SendActionView::Fail(
            SendFailureView::OutOfTurn,
        ),
        state.phase is Waiting && (report is Done || report is Read) ==> state.step(report).1
            == SendActionView::Fail(SendFailureView::OutOfTurn),
        state.phase is Reading && (report is Done || report is Got) ==> state.step(report).1
            == SendActionView::Fail(SendFailureView::OutOfTurn),
        state.phase is Reading && state.pending.len() <= state.sender.chunk && (
        report matches SendReportView::Read(bytes) && bytes.len() + state.pending.len()
            > state.sender.chunk) ==> state.step(report).1 == SendActionView::Fail(
            SendFailureView::OutOfTurn,
        ),
        state.step(report).1 is Fail ==> state.step(report).0 == (SendState {
            phase: SendPhase::Over,
            ..state
        }),
{
}

/// A transfer begins with nothing read or sent, in chunks of a tolerated size.
pub proof fn lemma_sending_begins_with_nothing(id: u32, size: u64, chunk_size: usize)
    ensures
        ({
            let start = starting(id, size, chunk_size);
            &&& start.phase is Offering
            &&& start.pending.len() == 0
            &&& start.sender.id == id
            &&& start.sender.size == size
            &&& start.sender.seq == 0
            &&& start.sender.sent == 0
            &&& 1 <= chunk_size <= 4_193_280 ==> start.sender.chunk == chunk_size
        }),
{
}

/// The first thing to be done is to send the offer, with the name as it was given and the size.
pub proof fn lemma_sending_begins_with_the_offer(id: u32, name: Seq<char>, size: u64)
    ensures
        first(id, name, size) matches SendActionView::Send(
            MessageView::FileOffer { id: of, name: called, size: declared },
        ) && of == id && called == name && declared == size,
{
}

} // verus!
