//! One inbound transfer, from the offer to the published file.
//!
//! [`FileReceiver`] decides what to do next; whoever drives it talks to the peer and the disk, and
//! reports back. The file is collected under a temporary name that was free and only published once
//! it is whole, under a name that was free too. A transfer that fails asks for the removal of every
//! file that it made, the temporary one and the one that holds the name, and of no other.

use crate::bulk;
use crate::bulk::{
    publish_name, receive_offer, receive_step, temp_name, OfferOutcome, TransferStep,
};
use crate::file_transfer;
use crate::file_transfer::{FileError, FileReassembler, Reassembly};
use crate::message::{Message, MessageView};
use crate::sending;
use crate::sending::SendReportView;
use crate::text;
use vstd::prelude::*;

verus! {

/// Why a transfer failed.
#[derive(Debug, PartialEq, Eq)]
pub enum ReceiveError {
    /// No offer came in time.
    NoOffer,
    /// The sender did not start with an offer.
    ExpectedFileOffer,
    /// The offer was declined.
    Declined(FileError),
    /// The transfer broke the rules.
    Rejected(FileError),
    /// A message came that does not belong to a transfer.
    UnexpectedMessage,
    /// No message came in time.
    Stalled,
    /// The peer or the disk failed, with what is said of it.
    Failed(String),
    /// There is a file under the temporary name that is not of this transfer.
    TemporaryTaken,
    /// The name is taken, and so is the one with the token in front.
    NamesTaken,
    /// What was reported is not what was asked for.
    OutOfTurn,
}

/// The mathematical value of a [`ReceiveError`].
pub enum FailureView {
    NoOffer,
    ExpectedFileOffer,
    Declined(FileErrorView),
    Rejected(FileErrorView),
    UnexpectedMessage,
    Stalled,
    Failed(Seq<char>),
    TemporaryTaken,
    NamesTaken,
    OutOfTurn,
}

/// The mathematical value of a [`FileError`].
pub enum FileErrorView {
    InvalidName(Seq<char>),
    Other(FileError),
}

/// The mathematical value of an error.
pub open spec fn file_error(e: FileError) -> FileErrorView {
    match e {
        FileError::InvalidName(name) => FileErrorView::InvalidName(name@),
        _ => FileErrorView::Other(e),
    }
}

impl View for ReceiveError {
    type V = FailureView;

    open spec fn view(&self) -> FailureView {
        match *self {
            ReceiveError::NoOffer => FailureView::NoOffer,
            ReceiveError::ExpectedFileOffer => FailureView::ExpectedFileOffer,
            ReceiveError::Declined(e) => FailureView::Declined(file_error(e)),
            ReceiveError::Rejected(e) => FailureView::Rejected(file_error(e)),
            ReceiveError::UnexpectedMessage => FailureView::UnexpectedMessage,
            ReceiveError::Stalled => FailureView::Stalled,
            ReceiveError::Failed(reason) => FailureView::Failed(reason@),
            ReceiveError::TemporaryTaken => FailureView::TemporaryTaken,
            ReceiveError::NamesTaken => FailureView::NamesTaken,
            ReceiveError::OutOfTurn => FailureView::OutOfTurn,
        }
    }
}

/// How what was asked for went.
#[derive(Debug)]
pub enum Report {
    /// A message came.
    Got(Message),
    /// No message came in time.
    TimedOut,
    /// It is done.
    Done,
    /// The name is taken.
    Taken,
    /// It failed, with what is said of it.
    Failed(String),
}

/// The mathematical value of a [`Report`].
pub enum ReportView {
    Got(MessageView),
    TimedOut,
    Done,
    Taken,
    Failed(Seq<char>),
}

impl View for Report {
    type V = ReportView;

    open spec fn view(&self) -> ReportView {
        match *self {
            Report::Got(msg) => ReportView::Got(msg@),
            Report::TimedOut => ReportView::TimedOut,
            Report::Done => ReportView::Done,
            Report::Taken => ReportView::Taken,
            Report::Failed(reason) => ReportView::Failed(reason@),
        }
    }
}

/// What is to be done next.
#[derive(Debug, PartialEq, Eq)]
pub enum ReceiveAction {
    /// Wait for a message.
    Await,
    /// Send a message to the peer.
    Reply(Message),
    /// Make the download directory, if it is not there.
    MakeDirectory,
    /// Create a file that is not there yet, and keep it open as the temporary one.
    CreateTemporary(String),
    /// Append to the temporary file.
    Write(Vec<u8>),
    /// Bring what was written to the disk.
    Flush,
    /// Create an empty file that is not there yet.
    Reserve(String),
    /// Move the temporary file over the reserved one.
    Publish { from: String, to: String },
    /// Remove the reserved file, which is still empty. A failure does not matter.
    RemoveReserved(String),
    /// Remove the temporary file. A failure does not matter.
    RemoveTemporary(String),
    /// The file is there under this name.
    Finish(String),
    /// The transfer has failed.
    Fail(ReceiveError),
}

/// The mathematical value of a [`ReceiveAction`].
pub enum ActionView {
    Await,
    Reply(MessageView),
    MakeDirectory,
    CreateTemporary(Seq<char>),
    Write(Seq<u8>),
    Flush,
    Reserve(Seq<char>),
    Publish { from: Seq<char>, to: Seq<char> },
    RemoveReserved(Seq<char>),
    RemoveTemporary(Seq<char>),
    Finish(Seq<char>),
    Fail(FailureView),
}

impl View for ReceiveAction {
    type V = ActionView;

    open spec fn view(&self) -> ActionView {
        match *self {
            ReceiveAction::Await => ActionView::Await,
            ReceiveAction::Reply(msg) => ActionView::Reply(msg@),
            ReceiveAction::MakeDirectory => ActionView::MakeDirectory,
            ReceiveAction::CreateTemporary(name) => ActionView::CreateTemporary(name@),
            ReceiveAction::Write(bytes) => ActionView::Write(bytes@),
            ReceiveAction::Flush => ActionView::Flush,
            ReceiveAction::Reserve(name) => ActionView::Reserve(name@),
            ReceiveAction::Publish { from, to } => ActionView::Publish { from: from@, to: to@ },
            ReceiveAction::RemoveReserved(name) => ActionView::RemoveReserved(name@),
            ReceiveAction::RemoveTemporary(name) => ActionView::RemoveTemporary(name@),
            ReceiveAction::Finish(name) => ActionView::Finish(name@),
            ReceiveAction::Fail(e) => ActionView::Fail(e@),
        }
    }
}

/// How far the transfer has come.
#[derive(Debug)]
enum Phase {
    /// The offer is waited for.
    Offer,
    /// The peer is being told that the file is declined.
    Declining(FileError),
    /// The peer is being told that the file is accepted.
    Accepting(FileReassembler),
    /// The directory is being made.
    Preparing(FileReassembler),
    /// The temporary file is being created.
    Opening(FileReassembler),
    /// A chunk or the end is waited for.
    Waiting(FileReassembler),
    /// A chunk is being written.
    Writing(FileReassembler),
    /// The file is whole, and is being brought to the disk.
    Flushing(FileReassembler),
    /// A name is being reserved: the file's own, or another because that is taken.
    Reserving(FileReassembler, bool),
    /// The file is being moved to the reserved name.
    Publishing(FileReassembler, bool),
    /// The reserved file is being removed.
    Withdrawing(ReceiveError),
    /// The temporary file is being removed.
    Discarding(ReceiveError),
    /// It is over.
    Over,
}

/// The mathematical value of a phase.
pub enum PhaseView {
    Offer,
    Declining(FileErrorView),
    Accepting(Reassembly),
    Preparing(Reassembly),
    Opening(Reassembly),
    Waiting(Reassembly),
    Writing(Reassembly),
    Flushing(Reassembly),
    Reserving(Reassembly, bool),
    Publishing(Reassembly, bool),
    Withdrawing(FailureView),
    Discarding(FailureView),
    Over,
}

impl View for Phase {
    type V = PhaseView;

    closed spec fn view(&self) -> PhaseView {
        match *self {
            Phase::Offer => PhaseView::Offer,
            Phase::Declining(e) => PhaseView::Declining(file_error(e)),
            Phase::Accepting(t) => PhaseView::Accepting(t@),
            Phase::Preparing(t) => PhaseView::Preparing(t@),
            Phase::Opening(t) => PhaseView::Opening(t@),
            Phase::Waiting(t) => PhaseView::Waiting(t@),
            Phase::Writing(t) => PhaseView::Writing(t@),
            Phase::Flushing(t) => PhaseView::Flushing(t@),
            Phase::Reserving(t, taken) => PhaseView::Reserving(t@, taken),
            Phase::Publishing(t, taken) => PhaseView::Publishing(t@, taken),
            Phase::Withdrawing(e) => PhaseView::Withdrawing(e@),
            Phase::Discarding(e) => PhaseView::Discarding(e@),
            Phase::Over => PhaseView::Over,
        }
    }
}

/// The mathematical value of a [`FileReceiver`].
pub struct ReceiverState {
    /// The largest size that is accepted.
    pub limit: u64,
    /// What tells this transfer from others.
    pub token: u64,
    pub phase: PhaseView,
}

/// The failure that a report is, where something else was asked for than what it tells of.
pub open spec fn failure(report: ReportView) -> FailureView {
    match report {
        ReportView::Failed(reason) => FailureView::Failed(reason),
        _ => FailureView::OutOfTurn,
    }
}

impl ReceiverState {
    /// The name that the file is published under.
    pub open spec fn published(self, name: Seq<char>, taken: bool) -> Seq<char> {
        if taken {
            bulk::alternate_name_text(self.token, name)
        } else {
            name
        }
    }

    /// The state in another phase.
    pub open spec fn at(self, phase: PhaseView) -> ReceiverState {
        ReceiverState { phase, ..self }
    }

    /// The end of a transfer that has no temporary file.
    pub open spec fn failing(self, e: FailureView) -> (ReceiverState, ActionView) {
        (self.at(PhaseView::Over), ActionView::Fail(e))
    }

    /// The end of a transfer that may have a temporary file.
    pub open spec fn discarding(self, e: FailureView) -> (ReceiverState, ActionView) {
        (
            self.at(PhaseView::Discarding(e)),
            ActionView::RemoveTemporary(bulk::temp_name_text(self.token)),
        )
    }

    /// The end of a transfer that has reserved a name but could not move the file there.
    pub open spec fn withdrawing(self, name: Seq<char>, e: FailureView) -> (
        ReceiverState,
        ActionView,
    ) {
        (self.at(PhaseView::Withdrawing(e)), ActionView::RemoveReserved(name))
    }

    /// What comes of an offer.
    pub open spec fn offered(self, msg: MessageView) -> (ReceiverState, ActionView) {
        match msg {
            MessageView::FileOffer { id, name, size } => {
                let base = file_transfer::base_name(name);
                let decline = ActionView::Reply(MessageView::FileAccept { id, accept: false });
                if !file_transfer::safe_name(base) {
                    (self.at(PhaseView::Declining(FileErrorView::InvalidName(name))), decline)
                } else if size > self.limit {
                    let e = FileError::TooLarge { size, limit: self.limit };
                    (self.at(PhaseView::Declining(FileErrorView::Other(e))), decline)
                } else {
                    (
                        self.at(PhaseView::Accepting(Reassembly::fresh(id, base, size))),
                        ActionView::Reply(MessageView::FileAccept { id, accept: true }),
                    )
                }
            },
            _ => self.failing(FailureView::ExpectedFileOffer),
        }
    }

    /// What comes of a message of the accepted transfer.
    pub open spec fn received(self, t: Reassembly, msg: MessageView) -> (
        ReceiverState,
        ActionView,
    ) {
        match msg {
            MessageView::FileChunk { id, seq, data } => match t.refusal(id, seq, data.len()) {
                Some(e) => self.discarding(FailureView::Rejected(file_error(e))),
                None => (
                    self.at(PhaseView::Writing(t.grown(data.len()))),
                    ActionView::Write(data),
                ),
            },
            MessageView::FileEnd { id, count } => match t.end_refusal(id, count) {
                Some(e) => self.discarding(FailureView::Rejected(file_error(e))),
                None => (self.at(PhaseView::Flushing(t)), ActionView::Flush),
            },
            _ => self.discarding(FailureView::UnexpectedMessage),
        }
    }

    /// The state after a report, and what is to be done next.
    pub open spec fn step(self, report: ReportView) -> (ReceiverState, ActionView) {
        match self.phase {
            PhaseView::Offer => match report {
                ReportView::Got(msg) => self.offered(msg),
                ReportView::TimedOut => self.failing(FailureView::NoOffer),
                _ => self.failing(failure(report)),
            },
            PhaseView::Declining(e) => self.failing(FailureView::Declined(e)),
            PhaseView::Accepting(t) => match report {
                ReportView::Done => (self.at(PhaseView::Preparing(t)), ActionView::MakeDirectory),
                _ => self.failing(failure(report)),
            },
            PhaseView::Preparing(t) => match report {
                ReportView::Done => (
                    self.at(PhaseView::Opening(t)),
                    ActionView::CreateTemporary(bulk::temp_name_text(self.token)),
                ),
                _ => self.failing(failure(report)),
            },
            PhaseView::Opening(t) => match report {
                ReportView::Done => (self.at(PhaseView::Waiting(t)), ActionView::Await),
                ReportView::Taken => self.failing(FailureView::TemporaryTaken),
                _ => self.discarding(failure(report)),
            },
            PhaseView::Waiting(t) => match report {
                ReportView::Got(msg) => self.received(t, msg),
                ReportView::TimedOut => self.discarding(FailureView::Stalled),
                _ => self.discarding(failure(report)),
            },
            PhaseView::Writing(t) => match report {
                ReportView::Done => (self.at(PhaseView::Waiting(t)), ActionView::Await),
                _ => self.discarding(failure(report)),
            },
            PhaseView::Flushing(t) => match report {
                ReportView::Done => (
                    self.at(PhaseView::Reserving(t, false)),
                    ActionView::Reserve(self.published(t.name, false)),
                ),
                _ => self.discarding(failure(report)),
            },
            PhaseView::Reserving(t, taken) => match report {
                ReportView::Done => (
                    self.at(PhaseView::Publishing(t, taken)),
                    ActionView::Publish {
                        from: bulk::temp_name_text(self.token),
                        to: self.published(t.name, taken),
                    },
                ),
                ReportView::Taken => if taken {
                    self.discarding(FailureView::NamesTaken)
                } else {
                    (
                        self.at(PhaseView::Reserving(t, true)),
                        ActionView::Reserve(self.published(t.name, true)),
                    )
                },
                _ => self.discarding(failure(report)),
            },
            PhaseView::Publishing(t, taken) => match report {
                ReportView::Done => (
                    self.at(PhaseView::Over),
                    ActionView::Finish(self.published(t.name, taken)),
                ),
                _ => self.withdrawing(self.published(t.name, taken), failure(report)),
            },
            PhaseView::Withdrawing(e) => self.discarding(e),
            PhaseView::Discarding(e) => self.failing(e),
            PhaseView::Over => self.failing(FailureView::OutOfTurn),
        }
    }
}

/// Receives one file.
#[derive(Debug)]
pub struct FileReceiver {
    limit: u64,
    token: u64,
    phase: Phase,
}

impl View for FileReceiver {
    type V = ReceiverState;

    closed spec fn view(&self) -> ReceiverState {
        ReceiverState { limit: self.limit, token: self.token, phase: self.phase@ }
    }
}

fn failed(report: Report) -> (e: ReceiveError)
    ensures
        e@ == failure(report@),
{
    match report {
        Report::Failed(reason) => ReceiveError::Failed(reason),
        _ => ReceiveError::OutOfTurn,
    }
}

impl FileReceiver {
    /// Begin to receive a file of at most `limit` bytes. The token tells this transfer from others
    /// that are collected in the same directory. The first thing to do is to wait for a message.
    pub fn new(limit: u64, token: u64) -> (r: Self)
        ensures
            r@ == beginning(limit, token),
    {
        FileReceiver { limit, token, phase: Phase::Offer }
    }

    fn fail(&mut self, e: ReceiveError) -> (action: ReceiveAction)
        ensures
            (final(self)@, action@) == old(self)@.failing(e@),
    {
        self.phase = Phase::Over;
        ReceiveAction::Fail(e)
    }

    fn discard(&mut self, e: ReceiveError) -> (action: ReceiveAction)
        ensures
            (final(self)@, action@) == old(self)@.discarding(e@),
    {
        self.phase = Phase::Discarding(e);
        ReceiveAction::RemoveTemporary(temp_name(self.token))
    }

    fn offer(&mut self, msg: Message) -> (action: ReceiveAction)
        ensures
            (final(self)@, action@) == old(self)@.offered(msg@),
    {
        match receive_offer(msg, self.limit) {
            OfferOutcome::Accepted { transfer, reply } => {
                self.phase = Phase::Accepting(transfer);
                ReceiveAction::Reply(reply)
            },
            OfferOutcome::Declined { error, reply } => {
                self.phase = Phase::Declining(error);
                ReceiveAction::Reply(reply)
            },
            OfferOutcome::ExpectedFileOffer => self.fail(ReceiveError::ExpectedFileOffer),
        }
    }

    fn receive(&mut self, mut transfer: FileReassembler, msg: Message) -> (action: ReceiveAction)
        ensures
            (final(self)@, action@) == old(self)@.received(transfer@, msg@),
    {
        match receive_step(&mut transfer, msg) {
            TransferStep::Write(bytes) => {
                self.phase = Phase::Writing(transfer);
                ReceiveAction::Write(bytes)
            },
            TransferStep::Complete => {
                self.phase = Phase::Flushing(transfer);
                ReceiveAction::Flush
            },
            TransferStep::Rejected(e) => self.discard(ReceiveError::Rejected(e)),
            TransferStep::Unexpected => self.discard(ReceiveError::UnexpectedMessage),
        }
    }

    /// Take the report on what was asked for, and say what is to be done next.
    pub fn next(&mut self, report: Report) -> (action: ReceiveAction)
        ensures
            (final(self)@, action@) == old(self)@.step(report@),
    {
        let mut phase = Phase::Over;
        std::mem::swap(&mut self.phase, &mut phase);
        match phase {
            Phase::Offer => match report {
                Report::Got(msg) => self.offer(msg),
                Report::TimedOut => self.fail(ReceiveError::NoOffer),
                _ => self.fail(failed(report)),
            },
            Phase::Declining(e) => self.fail(ReceiveError::Declined(e)),
            Phase::Accepting(t) => match report {
                Report::Done => {
                    self.phase = Phase::Preparing(t);
                    ReceiveAction::MakeDirectory
                },
                _ => self.fail(failed(report)),
            },
            Phase::Preparing(t) => match report {
                Report::Done => {
                    self.phase = Phase::Opening(t);
                    ReceiveAction::CreateTemporary(temp_name(self.token))
                },
                _ => self.fail(failed(report)),
            },
            Phase::Opening(t) => match report {
                Report::Done => {
                    self.phase = Phase::Waiting(t);
                    ReceiveAction::Await
                },
                Report::Taken => self.fail(ReceiveError::TemporaryTaken),
                _ => self.discard(failed(report)),
            },
            Phase::Writing(t) => match report {
                Report::Done => {
                    self.phase = Phase::Waiting(t);
                    ReceiveAction::Await
                },
                _ => self.discard(failed(report)),
            },
            Phase::Waiting(t) => match report {
                Report::Got(msg) => self.receive(t, msg),
                Report::TimedOut => self.discard(ReceiveError::Stalled),
                _ => self.discard(failed(report)),
            },
            Phase::Flushing(t) => match report {
                Report::Done => {
                    let name = publish_name(t.filename(), self.token, false);
                    self.phase = Phase::Reserving(t, false);
                    ReceiveAction::Reserve(name)
                },
                _ => self.discard(failed(report)),
            },
            Phase::Reserving(t, taken) => match report {
                Report::Done => {
                    let to = publish_name(t.filename(), self.token, taken);
                    self.phase = Phase::Publishing(t, taken);
                    ReceiveAction::Publish { from: temp_name(self.token), to }
                },
                Report::Taken => {
                    if taken {
                        self.discard(ReceiveError::NamesTaken)
                    } else {
                        let name = publish_name(t.filename(), self.token, true);
                        self.phase = Phase::Reserving(t, true);
                        ReceiveAction::Reserve(name)
                    }
                },
                _ => self.discard(failed(report)),
            },
            Phase::Publishing(t, taken) => match report {
                Report::Done => {
                    self.phase = Phase::Over;
                    ReceiveAction::Finish(publish_name(t.filename(), self.token, taken))
                },
                _ => {
                    self.phase = Phase::Withdrawing(failed(report));
                    ReceiveAction::RemoveReserved(
                        publish_name(t.filename(), self.token, taken),
                    )
                },
            },
            Phase::Withdrawing(e) => self.discard(e),
            Phase::Discarding(e) => self.fail(e),
            Phase::Over => self.fail(ReceiveError::OutOfTurn),
        }
    }
}

impl PhaseView {
    /// The transfer that has been accepted, as long as it is going on.
    pub open spec fn transfer(self) -> Option<Reassembly> {
        match self {
            PhaseView::Accepting(t) => Some(t),
            PhaseView::Preparing(t) => Some(t),
            PhaseView::Opening(t) => Some(t),
            PhaseView::Waiting(t) => Some(t),
            PhaseView::Writing(t) => Some(t),
            PhaseView::Flushing(t) => Some(t),
            PhaseView::Reserving(t, _) => Some(t),
            PhaseView::Publishing(t, _) => Some(t),
            _ => None,
        }
    }

    /// Whether the transfer is going on and may have a temporary file.
    pub open spec fn has_temporary(self) -> bool {
        ||| self is Opening
        ||| self is Waiting
        ||| self is Writing
        ||| self is Flushing
        ||| self is Reserving
        ||| self is Publishing
    }

    /// Whether the end of the transfer has been accepted.
    pub open spec fn ended(self) -> bool {
        self is Flushing || self is Reserving || self is Publishing
    }
}

/// Whether a name is a single path component.
pub open spec fn stays_inside(name: Seq<char>) -> bool {
    &&& name.len() > 0
    &&& forall|i: int| 0 <= i < name.len() ==> !file_transfer::separator(#[trigger] name[i])
    &&& name != "."@
    &&& name != ".."@
}

impl ReceiverState {
    /// Whether what is known of the transfer is in order: its name is safe, its size is within the
    /// limit, and it is whole once its end has been accepted.
    pub open spec fn sound(self) -> bool {
        self.phase.transfer() matches Some(t) ==> {
            &&& file_transfer::safe_name(t.name)
            &&& forall|i: int|
                0 <= i < t.name.len() ==> !file_transfer::separator(#[trigger] t.name[i])
            &&& t.received <= t.declared <= self.limit
            &&& self.phase.ended() ==> t.received == t.declared
        }
    }

    /// The state after some reports.
    pub open spec fn after(self, reports: Seq<ReportView>) -> ReceiverState
        decreases reports.len(),
    {
        if reports.len() == 0 {
            self
        } else {
            self.after(reports.drop_last()).step(reports.last()).0
        }
    }

    /// What is to be done after some reports. The first thing is to wait for a message.
    pub open spec fn asked(self, reports: Seq<ReportView>) -> ActionView {
        if reports.len() == 0 {
            ActionView::Await
        } else {
            self.after(reports.drop_last()).step(reports.last()).1
        }
    }

    /// The bytes that have been asked to be written by some reports, one after the other.
    pub open spec fn written(self, reports: Seq<ReportView>) -> Seq<u8>
        decreases reports.len(),
    {
        if reports.len() == 0 {
            Seq::empty()
        } else {
            let before = self.written(reports.drop_last());
            match self.asked(reports) {
                ActionView::Write(bytes) => before + bytes,
                _ => before,
            }
        }
    }
}

/// The messages that have come by some reports, in order.
pub open spec fn messages(reports: Seq<ReportView>) -> Seq<MessageView>
    decreases reports.len(),
{
    if reports.len() == 0 {
        Seq::empty()
    } else {
        match reports.last() {
            ReportView::Got(msg) => messages(reports.drop_last()).push(msg),
            _ => messages(reports.drop_last()),
        }
    }
}

/// The chunks that have come by some reports: what lies between the offer and the end.
pub open spec fn chunks(reports: Seq<ReportView>) -> Seq<MessageView> {
    let msgs = messages(reports);
    if msgs.last() is FileEnd {
        msgs.subrange(1, msgs.len() - 1)
    } else {
        msgs.skip(1)
    }
}

/// The state of a receiver that has just begun.
pub open spec fn beginning(limit: u64, token: u64) -> ReceiverState {
    ReceiverState { limit, token, phase: PhaseView::Offer }
}

/// What is known of the transfer stays in order, whatever is reported.
pub proof fn lemma_soundness_is_kept(state: ReceiverState, report: ReportView)
    requires
        state.sound(),
    ensures
        state.step(report).0.sound(),
{
    if let ReportView::Got(MessageView::FileOffer { name, .. }) = report {
        file_transfer::lemma_base_name_has_no_separator(name);
    }
}

/// An offer with a name that is not safe, or of more than the limit, is answered with a refusal,
/// and then the transfer fails. A good one is answered with an acceptance.
pub proof fn lemma_offer_is_answered(
    limit: u64,
    token: u64,
    id: u32,
    name: Seq<char>,
    size: u64,
    next: ReportView,
)
    ensures
        ({
            let offer = ReportView::Got(MessageView::FileOffer { id, name, size });
            let (after, action) = beginning(limit, token).step(offer);
            let good = file_transfer::safe_name(file_transfer::base_name(name)) && size <= limit;
            &&& action == ActionView::Reply(MessageView::FileAccept { id, accept: good })
            &&& !good ==> (after.step(next).1 matches ActionView::Fail(e) && e is Declined)
        }),
{
}

/// A failed transfer leaves nothing behind: a transfer that may have a temporary file ends by
/// publishing it, or asks for the removal of what it made before it tells of the failure. That is
/// the temporary file, and before it the reserved one if the file could not be moved there. What
/// stands under the temporary name without being of this transfer is left alone.
pub proof fn lemma_failed_transfer_leaves_nothing(
    state: ReceiverState,
    report: ReportView,
    next: ReportView,
    last: ReportView,
)
    requires
        state.phase.has_temporary(),
        !state.step(report).0.phase.has_temporary(),
    ensures
        ({
            let temporary = ActionView::RemoveTemporary(bulk::temp_name_text(state.token));
            let (after, action) = state.step(report);
            let (later, second) = after.step(next);
            match state.phase {
                PhaseView::Publishing(t, taken) => {
                    ||| report is Done && action == ActionView::Finish(
                        state.published(t.name, taken),
                    )
                    ||| {
                        &&& action == ActionView::RemoveReserved(state.published(t.name, taken))
                        &&& second == temporary
                        &&& later.step(last).1 is Fail
                    }
                },
                PhaseView::Opening(_) if report is Taken => action == ActionView::Fail(
                    FailureView::TemporaryTaken,
                ),
                _ => action == temporary && second is Fail,
            }
        }),
{
}

/// An existing file is never touched: the file is only moved to a name that has just been reserved.
pub proof fn lemma_nothing_is_overwritten(
    state: ReceiverState,
    earlier: ReportView,
    report: ReportView,
)
    requires
        state.step(earlier).0.step(report).1 is Publish,
    ensures
        report is Done,
        state.step(earlier).1 == ActionView::Reserve(
            state.step(earlier).0.step(report).1->Publish_to,
        ),
{
}

proof fn lemma_published_name(state: ReceiverState, name: Seq<char>, taken: bool)
    requires
        file_transfer::safe_name(name),
        forall|i: int| 0 <= i < name.len() ==> !file_transfer::separator(#[trigger] name[i]),
    ensures
        stays_inside(state.published(name, taken)),
{
    let full = state.published(name, taken);
    let digits = text::decimal(state.token as nat);
    text::lemma_decimal_is_digits(state.token as nat);
    reveal_strlit(".");
    reveal_strlit("..");
    assert forall|i: int| 0 <= i < full.len() implies !file_transfer::separator(
        #[trigger] full[i],
    ) by {
        if taken && i < digits.len() {
            assert(full[i] == digits[i]);
        } else if taken && i > digits.len() {
            assert(full[i] == name[i - digits.len() - 1]);
        }
    }
    assert(full[0] != '.') by {
        if taken {
            assert(full[0] == digits[0]);
        }
    }
}

/// Whatever name the peer gives, the file lands inside the directory, and only once it is whole.
pub proof fn lemma_only_whole_files_are_published(state: ReceiverState, report: ReportView)
    requires
        state.sound(),
    ensures
        match state.step(report).1 {
            ActionView::Reserve(name) => stays_inside(name) && state.phase.ended(),
            ActionView::Publish { to, .. } => stays_inside(to) && state.phase.ended(),
            ActionView::Finish(name) => stays_inside(name) && state.phase.ended(),
            _ => true,
        },
{
    if let Some(t) = state.phase.transfer() {
        lemma_published_name(state, t.name, false);
        lemma_published_name(state, t.name, true);
    }
}

/// Whether a transfer is what came of some messages: an offer, chunks that were accepted one after
/// the other, and an end that was accepted if the transfer has ended. The bytes that have been
/// asked to be written are what the chunks hold.
spec fn follows(
    t: Reassembly,
    ended: bool,
    msgs: Seq<MessageView>,
    chunks: Seq<MessageView>,
    written: Seq<u8>,
) -> bool {
    &&& msgs.len() > 0
    &&& msgs[0] matches MessageView::FileOffer { id, name, size }
    &&& {
        let fresh = Reassembly::fresh(id, file_transfer::base_name(name), size);
        &&& fresh.accepts(chunks)
        &&& fresh.after_chunks(chunks) == t
        &&& written == file_transfer::payload(chunks)
    }
    &&& if ended {
        &&& msgs == seq![msgs[0]] + chunks + seq![msgs.last()]
        &&& msgs.last() matches MessageView::FileEnd { id, count }
        &&& t.end_refusal(id, count) is None
    } else {
        msgs == seq![msgs[0]] + chunks
    }
}

/// A message that is accepted keeps a transfer what came of its messages.
proof fn lemma_message_is_followed(
    state: ReceiverState,
    t: Reassembly,
    msgs: Seq<MessageView>,
    sofar: Seq<MessageView>,
    written: Seq<u8>,
    msg: MessageView,
)
    requires
        follows(t, false, msgs, sofar, written),
    ensures
        match state.received(t, msg) {
            (_, ActionView::Write(bytes)) => follows(
                t.grown(bytes.len()),
                false,
                msgs.push(msg),
                sofar.push(msg),
                written + bytes,
            ),
            (_, ActionView::Flush) => follows(t, true, msgs.push(msg), sofar, written),
            _ => true,
        },
{
    let after = msgs.push(msg);
    let grown = sofar.push(msg);
    assert(grown.drop_last() =~= sofar);
    assert(after[0] == msgs[0]);
    assert(after =~= seq![msgs[0]] + grown);
    assert(after =~= seq![msgs[0]] + sofar + seq![msg]);
}

/// In an accepted transfer what was written is what came.
proof fn lemma_transfer_follows(limit: u64, token: u64, reports: Seq<ReportView>)
    ensures
        ({
            let state = beginning(limit, token).after(reports);
            let written = beginning(limit, token).written(reports);
            &&& state.sound()
            &&& state.limit == limit
            &&& state.token == token
            &&& state.phase is Offer ==> messages(reports).len() == 0 && written.len() == 0
            &&& state.phase.transfer() matches Some(t) ==> follows(
                t,
                state.phase.ended(),
                messages(reports),
                chunks(reports),
                written,
            )
        }),
    decreases reports.len(),
{
    if reports.len() > 0 {
        let earlier = reports.drop_last();
        let state = beginning(limit, token).after(earlier);
        let written = beginning(limit, token).written(earlier);
        let msgs = messages(earlier);
        lemma_transfer_follows(limit, token, earlier);
        lemma_soundness_is_kept(state, reports.last());
        match (state.phase, reports.last()) {
            (PhaseView::Offer, ReportView::Got(msg)) => {
                assert(messages(reports) =~= seq![msg]);
                assert(written =~= Seq::empty());
                if msg is FileOffer {
                    assert(chunks(reports) =~= Seq::empty());
                    assert(messages(reports) =~= seq![msg] + chunks(reports));
                }
            },
            (PhaseView::Waiting(t), ReportView::Got(msg)) => {
                lemma_message_is_followed(state, t, msgs, chunks(earlier), written, msg);
                match state.received(t, msg).1 {
                    ActionView::Write(_) => {
                        assert(chunks(reports) =~= chunks(earlier).push(msg));
                    },
                    ActionView::Flush => {
                        assert(chunks(reports) =~= chunks(earlier));
                    },
                    _ => {},
                }
            },
            _ => {},
        }
    }
}

/// A published file is whole: what has been written by the time that the transfer finishes is what
/// the chunks that came hold, one after the other. That is exactly as many bytes as the offer
/// declared, and within the limit. Nothing came but the offer, the chunks and the end, and the
/// file's name is that of the offer without any directories in front.
pub proof fn lemma_published_file_is_whole(
    limit: u64,
    token: u64,
    reports: Seq<ReportView>,
    last: ReportView,
)
    requires
        beginning(limit, token).after(reports).step(last).1 is Finish,
    ensures
        ({
            let msgs = messages(reports);
            let written = beginning(limit, token).written(reports);
            &&& written == file_transfer::payload(chunks(reports))
            &&& msgs == seq![msgs[0]] + chunks(reports) + seq![msgs.last()]
            &&& msgs[0] matches MessageView::FileOffer { name, size, .. }
            &&& beginning(limit, token).after(reports).phase.transfer() matches Some(t)
            &&& t.name == file_transfer::base_name(name)
            &&& written.len() == size
            &&& size <= limit
            &&& msgs.last() matches MessageView::FileEnd { count, .. }
            &&& chunks(reports).len() == count
        }),
{
    lemma_transfer_follows(limit, token, reports);
    if let MessageView::FileOffer { id, name, size } = messages(reports)[0] {
        file_transfer::lemma_accepted_chunks(
            id,
            file_transfer::base_name(name),
            size,
            chunks(reports),
        );
    }
}

/// A file crosses intact: if what comes to a receiver is what a sender sends, the offer and all
/// that is behind it, and both finish, then the receiver has written exactly the bytes that the
/// sender has read, in order.
pub proof fn lemma_file_crosses_intact(
    limit: u64,
    token: u64,
    reports: Seq<ReportView>,
    last: ReportView,
    id: u32,
    name: Seq<char>,
    size: u64,
    chunk_size: usize,
    sent: Seq<SendReportView>,
    sent_last: SendReportView,
)
    requires
        beginning(limit, token).after(reports).step(last).1 is Finish,
        sending::starting(id, size, chunk_size).after(sent).step(sent_last).1 is Finish,
        messages(reports) == seq![MessageView::FileOffer { id, name, size }] + sending::starting(
            id,
            size,
            chunk_size,
        ).sent(sent),
    ensures
        beginning(limit, token).written(reports) == sending::starting(id, size, chunk_size).read(
            sent,
        ),
{
    let all = sending::starting(id, size, chunk_size).sent(sent);
    lemma_transfer_follows(limit, token, reports);
    sending::lemma_sent_file_arrives(id, size, chunk_size, name, sent, sent_last);
    assert(messages(reports).last() == all.last());
    assert(chunks(reports) =~= all.drop_last());
}

/// Whether all goes well by some reports: the peer sends `msgs` one after the other, the file's own
/// name is free unless `taken`, and whatever else is asked for is done.
pub open spec fn goes_well(
    start: ReceiverState,
    reports: Seq<ReportView>,
    msgs: Seq<MessageView>,
    taken: bool,
) -> bool
    decreases reports.len(),
{
    reports.len() > 0 ==> {
        let earlier = reports.drop_last();
        &&& goes_well(start, earlier, msgs, taken)
        &&& match start.asked(earlier) {
            ActionView::Await => {
                &&& messages(earlier).len() < msgs.len()
                &&& reports.last() == ReportView::Got(msgs[messages(earlier).len() as int])
            },
            ActionView::Reserve(_) => if taken && start.after(earlier).phase
                matches PhaseView::Reserving(_, false) {
                reports.last() is Taken
            } else {
                reports.last() is Done
            },
            _ => reports.last() is Done,
        }
    }
}

/// Chunks that are accepted one after the other: each is accepted behind those before it.
proof fn lemma_next_chunk_is_accepted(fresh: Reassembly, chunks: Seq<MessageView>, k: int)
    requires
        fresh.accepts(chunks),
        0 <= k < chunks.len(),
    ensures
        chunks[k] matches MessageView::FileChunk { id, seq, data } && fresh.after_chunks(
            chunks.take(k),
        ).refusal(id, seq, data.len()) is None && fresh.after_chunks(chunks.take(k + 1))
            == fresh.after_chunks(chunks.take(k)).grown(data.len()),
    decreases chunks.len(),
{
    let front = chunks.drop_last();
    assert(chunks.take(k + 1).drop_last() =~= chunks.take(k));
    if k < front.len() {
        lemma_next_chunk_is_accepted(fresh, front, k);
        assert(front.take(k) =~= chunks.take(k));
        assert(front.take(k + 1) =~= chunks.take(k + 1));
    } else {
        assert(chunks.take(k) =~= front);
        assert(chunks.take(k + 1) =~= chunks);
    }
}

/// How far a transfer is after some reports by which all goes well.
spec fn on_course(
    state: ReceiverState,
    action: ActionView,
    steps: nat,
    came: nat,
    fresh: Reassembly,
    chunks: Seq<MessageView>,
    taken: bool,
) -> bool {
    let n = chunks.len();
    let whole = fresh.after_chunks(chunks);
    match state.phase {
        PhaseView::Offer => action is Await && steps == 0 && came == 0,
        PhaseView::Accepting(t) => action is Reply && steps == 1 && came == 1 && t == fresh,
        PhaseView::Preparing(t) => action is MakeDirectory && steps == 2 && came == 1 && t == fresh,
        PhaseView::Opening(t) => {
            &&& action is CreateTemporary
            &&& steps == 3
            &&& came == 1
            &&& t == fresh
        },
        PhaseView::Waiting(t) => {
            &&& action is Await
            &&& 1 <= came <= n + 1
            &&& steps == 2 * came + 2
            &&& t == fresh.after_chunks(chunks.take(came - 1))
        },
        PhaseView::Writing(t) => {
            &&& action is Write
            &&& 2 <= came <= n + 1
            &&& steps == 2 * came + 1
            &&& t == fresh.after_chunks(chunks.take(came - 1))
        },
        PhaseView::Flushing(t) => {
            &&& action is Flush
            &&& steps == 2 * n + 5
            &&& came == n + 2
            &&& t == whole
        },
        PhaseView::Reserving(t, again) => {
            &&& action is Reserve
            &&& again ==> taken
            &&& steps == 2 * n + 6 + if again { 1int } else { 0 }
            &&& came == n + 2
            &&& t == whole
        },
        PhaseView::Publishing(t, again) => {
            &&& action is Publish
            &&& again == taken
            &&& steps == 2 * n + 7 + if taken { 1int } else { 0 }
            &&& came == n + 2
            &&& t == whole
        },
        PhaseView::Over => {
            &&& steps >= 2 * n + 8 + if taken { 1int } else { 0 }
            &&& steps == 2 * n + 8 + (if taken { 1int } else { 0 }) ==> action
                == ActionView::Finish(state.published(whole.name, taken))
        },
        _ => false,
    }
}

/// A transfer stays on course as long as all goes well.
proof fn lemma_stays_on_course(
    limit: u64,
    token: u64,
    reports: Seq<ReportView>,
    id: u32,
    name: Seq<char>,
    size: u64,
    chunks: Seq<MessageView>,
    end: MessageView,
    taken: bool,
)
    requires
        size <= limit,
        file_transfer::safe_name(file_transfer::base_name(name)),
        Reassembly::fresh(id, file_transfer::base_name(name), size).accepts(chunks),
        end matches MessageView::FileEnd { id: of, count } && Reassembly::fresh(
            id,
            file_transfer::base_name(name),
            size,
        ).after_chunks(chunks).end_refusal(of, count) is None,
        goes_well(
            beginning(limit, token),
            reports,
            seq![MessageView::FileOffer { id, name, size }] + chunks + seq![end],
            taken,
        ),
    ensures
        beginning(limit, token).after(reports).limit == limit,
        beginning(limit, token).after(reports).token == token,
        on_course(
            beginning(limit, token).after(reports),
            beginning(limit, token).asked(reports),
            reports.len(),
            messages(reports).len(),
            Reassembly::fresh(id, file_transfer::base_name(name), size),
            chunks,
            taken,
        ),
    decreases reports.len(),
{
    let fresh = Reassembly::fresh(id, file_transfer::base_name(name), size);
    let msgs = seq![MessageView::FileOffer { id, name, size }] + chunks + seq![end];
    if reports.len() > 0 {
        let earlier = reports.drop_last();
        let state = beginning(limit, token).after(earlier);
        lemma_stays_on_course(limit, token, earlier, id, name, size, chunks, end, taken);
        let came = messages(earlier).len() as int;
        match state.phase {
            PhaseView::Opening(_) => {
                assert(chunks.take(0) =~= Seq::empty());
            },
            PhaseView::Waiting(_) => {
                if came <= chunks.len() {
                    assert(msgs[came] == chunks[came - 1]);
                    lemma_next_chunk_is_accepted(fresh, chunks, came - 1);
                } else {
                    assert(msgs[came] == end);
                    assert(chunks.take(came - 1) =~= chunks);
                }
            },
            _ => {},
        }
    }
}

/// A good transfer succeeds: if the offer has a safe name and is within the limit, the chunks and
/// the end behind it are ones that a receiver accepts, and all goes well, then after two steps for
/// each chunk and eight others the file is there, under its own name, or one step later under the
/// alternate one if its own is taken.
pub proof fn lemma_good_transfer_finishes(
    limit: u64,
    token: u64,
    reports: Seq<ReportView>,
    id: u32,
    name: Seq<char>,
    size: u64,
    chunks: Seq<MessageView>,
    end: MessageView,
    taken: bool,
)
    requires
        size <= limit,
        file_transfer::safe_name(file_transfer::base_name(name)),
        Reassembly::fresh(id, file_transfer::base_name(name), size).accepts(chunks),
        end matches MessageView::FileEnd { id: of, count } && Reassembly::fresh(
            id,
            file_transfer::base_name(name),
            size,
        ).after_chunks(chunks).end_refusal(of, count) is None,
        goes_well(
            beginning(limit, token),
            reports,
            seq![MessageView::FileOffer { id, name, size }] + chunks + seq![end],
            taken,
        ),
        reports.len() == 2 * chunks.len() + 8 + if taken {
            1int
        } else {
            0
        },
    ensures
        beginning(limit, token).asked(reports) == ActionView::Finish(
            if taken {
                bulk::alternate_name_text(token, file_transfer::base_name(name))
            } else {
                file_transfer::base_name(name)
            },
        ),
{
    let base = file_transfer::base_name(name);
    lemma_stays_on_course(limit, token, reports, id, name, size, chunks, end, taken);
    file_transfer::lemma_accepted_chunks(id, base, size, chunks);
}

/// What the receiver does next is fixed by how the last thing went. An accepted offer is followed
/// by the directory, the temporary file and the first wait, and a written chunk by the next one. A
/// whole file is brought to the disk, gets a name, and is moved there: its own name first, and if
/// that is taken, the alternate one.
pub proof fn lemma_receiver_takes_its_turns(state: ReceiverState, t: Reassembly, again: bool)
    ensures
        ({
            let temp = bulk::temp_name_text(state.token);
            let own = t.name;
            let other = bulk::alternate_name_text(state.token, t.name);
            let name = if again {
                other
            } else {
                own
            };
            let done = ReportView::Done;
            &&& state.at(PhaseView::Accepting(t)).step(done) == (
                state.at(PhaseView::Preparing(t)),
                ActionView::MakeDirectory,
            )
            &&& state.at(PhaseView::Preparing(t)).step(done) == (
                state.at(PhaseView::Opening(t)),
                ActionView::CreateTemporary(temp),
            )
            &&& state.at(PhaseView::Opening(t)).step(done) == (
                state.at(PhaseView::Waiting(t)),
                ActionView::Await,
            )
            &&& state.at(PhaseView::Writing(t)).step(done) == (
                state.at(PhaseView::Waiting(t)),
                ActionView::Await,
            )
            &&& state.at(PhaseView::Flushing(t)).step(done) == (
                state.at(PhaseView::Reserving(t, false)),
                ActionView::Reserve(own),
            )
            &&& state.at(PhaseView::Reserving(t, again)).step(done) == (
                state.at(PhaseView::Publishing(t, again)),
                ActionView::Publish { from: temp, to: name },
            )
            &&& state.at(PhaseView::Reserving(t, false)).step(ReportView::Taken) == (
                state.at(PhaseView::Reserving(t, true)),
                ActionView::Reserve(other),
            )
            &&& state.at(PhaseView::Publishing(t, again)).step(done) == (
                state.at(PhaseView::Over),
                ActionView::Finish(name),
            )
        }),
{
}

/// A chunk that the transfer accepts is to be written as it came, and an end that it accepts is to
/// be followed by bringing the file to the disk. A refused one ends the transfer with the fault,
/// any other message ends it as unexpected, and silence as stalled.
pub proof fn lemma_messages_are_taken_up(state: ReceiverState, t: Reassembly, msg: MessageView)
    ensures
        ({
            let waiting = state.at(PhaseView::Waiting(t));
            let (after, action) = waiting.step(ReportView::Got(msg));
            let broken = |e: FailureView|
                after.phase == PhaseView::Discarding(e) && action == ActionView::RemoveTemporary(
                    bulk::temp_name_text(state.token),
                );
            &&& match msg {
                MessageView::FileChunk { id, seq, data } => match t.refusal(id, seq, data.len()) {
                    None => action == ActionView::Write(data) && after == state.at(
                        PhaseView::Writing(t.grown(data.len())),
                    ),
                    Some(e) => broken(FailureView::Rejected(file_error(e))),
                },
                MessageView::FileEnd { id, count } => match t.end_refusal(id, count) {
                    None => action is Flush && after == state.at(PhaseView::Flushing(t)),
                    Some(e) => broken(FailureView::Rejected(file_error(e))),
                },
                _ => broken(FailureView::UnexpectedMessage),
            }
            &&& waiting.step(ReportView::TimedOut).0.phase == PhaseView::Discarding(
                FailureView::Stalled,
            )
        }),
{
}

/// The failure that ends a transfer is the one that was met: no offer in time, another message in
/// its place, two taken names, or what the peer or the disk said. It is told once what was made is
/// removed, and nothing follows the end.
pub proof fn lemma_failures_are_told(state: ReceiverState, e: FailureView, reason: Seq<char>)
    ensures
        ({
            let failed = ReportView::Failed(reason);
            let said = FailureView::Failed(reason);
            let offer = state.at(PhaseView::Offer);
            &&& offer.step(ReportView::TimedOut).1 == ActionView::Fail(FailureView::NoOffer)
            &&& offer.step(failed).1 == ActionView::Fail(said)
            &&& state.at(PhaseView::Discarding(e)).step(ReportView::Done).1 == ActionView::Fail(e)
            &&& state.at(PhaseView::Discarding(e)).step(failed).1 == ActionView::Fail(e)
            &&& state.at(PhaseView::Withdrawing(e)).step(ReportView::Done).0.phase
                == PhaseView::Discarding(e)
            &&& state.at(PhaseView::Withdrawing(e)).step(failed).0.phase == PhaseView::Discarding(e)
            &&& state.at(PhaseView::Over).step(failed).1 == ActionView::Fail(FailureView::OutOfTurn)
            &&& state.phase.transfer() matches Some(_) ==> match state.phase {
                PhaseView::Accepting(_) | PhaseView::Preparing(_) => state.step(failed).1
                    == ActionView::Fail(said),
                PhaseView::Publishing(_, _) => state.step(failed).0.phase
                    == PhaseView::Withdrawing(said),
                _ => state.step(failed).0.phase == PhaseView::Discarding(said),
            }
            &&& state.phase matches PhaseView::Reserving(_, true) ==> state.step(
                ReportView::Taken,
            ).0.phase == PhaseView::Discarding(FailureView::NamesTaken)
        }),
        forall|msg: MessageView|
            !(msg is FileOffer) ==> (#[trigger] state.at(PhaseView::Offer).step(
                ReportView::Got(msg),
            )).1 == ActionView::Fail(FailureView::ExpectedFileOffer),
{
}

/// An offer is declined for its name first, which the failure quotes as it came, and then for its
/// size, which the failure gives with the limit. An accepted one begins with nothing received,
/// under the base name.
pub proof fn lemma_offers_are_judged(
    limit: u64,
    token: u64,
    id: u32,
    name: Seq<char>,
    size: u64,
    next: ReportView,
)
    ensures
        ({
            let start = beginning(limit, token);
            let base = file_transfer::base_name(name);
            let offer = ReportView::Got(MessageView::FileOffer { id, name, size });
            let after = start.step(offer).0;
            &&& start.phase is Offer
            &&& start.limit == limit
            &&& start.token == token
            &&& !file_transfer::safe_name(base) ==> after.step(next).1 == ActionView::Fail(
                FailureView::Declined(FileErrorView::InvalidName(name)),
            )
            &&& file_transfer::safe_name(base) && size > limit ==> after.step(next).1
                == ActionView::Fail(
                FailureView::Declined(FileErrorView::Other(FileError::TooLarge { size, limit })),
            )
            &&& file_transfer::safe_name(base) && size <= limit ==> {
                &&& after.phase matches PhaseView::Accepting(t)
                &&& t.id == id
                &&& t.name == base
                &&& t.declared == size
                &&& t.next_seq == 0
                &&& t.received == 0
                &&& after.limit == limit
                &&& after.token == token
            }
        }),
{
}

/// An offer is answered under its own number: accepted if its name is safe and its size within the
/// limit, and else declined.
pub proof fn lemma_offers_are_answered(
    limit: u64,
    token: u64,
    id: u32,
    name: Seq<char>,
    size: u64,
)
    ensures
        beginning(limit, token).step(
            ReportView::Got(MessageView::FileOffer { id, name, size }),
        ).1 == ActionView::Reply(
            MessageView::FileAccept {
                id,
                accept: size <= limit && file_transfer::safe_name(file_transfer::base_name(name)),
            },
        ),
{
}

/// A report of something that was not asked for ends the transfer as out of turn, in the way that
/// the place where it stands calls for. A temporary name that is taken ends it at once, and
/// somebody else's file is left alone.
pub proof fn lemma_reports_out_of_turn_end_the_transfer(state: ReceiverState, report: ReportView)
    requires
        !(report is Failed),
    ensures
        ({
            let (after, action) = state.step(report);
            let ended = action == ActionView::Fail(FailureView::OutOfTurn) && after.phase is Over;
            let discarded = after.phase == PhaseView::Discarding(FailureView::OutOfTurn);
            let message = report is Got || report is TimedOut;
            match state.phase {
                PhaseView::Offer => !message ==> ended,
                PhaseView::Accepting(_) | PhaseView::Preparing(_) => !(report is Done) ==> ended,
                PhaseView::Opening(_) => {
                    &&& message ==> discarded
                    &&& report is Taken ==> after.phase is Over && action == ActionView::Fail(
                        FailureView::TemporaryTaken,
                    )
                },
                PhaseView::Waiting(_) => !message ==> discarded,
                PhaseView::Writing(_) | PhaseView::Flushing(_) => !(report is Done) ==> discarded,
                PhaseView::Reserving(_, _) => message ==> discarded,
                PhaseView::Publishing(_, _) => !(report is Done) ==> after.phase
                    == PhaseView::Withdrawing(FailureView::OutOfTurn),
                PhaseView::Over => ended,
                _ => true,
            }
        }),
{
}

} // verus!
