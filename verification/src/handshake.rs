//! The server's side of the handshake.
//!
//! The server greets a freshly accepted client, checks the protocol version and the screen name of
//! its answer, asks for its geometry, and acknowledges it.

use crate::client::{ClientActionView, ClientState, DisconnectReason};
use crate::layout::{LayoutView, ScreenLayout};
use crate::message::{Message, MessageView, PROTOCOL_MAJOR, PROTOCOL_MINOR};
use vstd::prelude::*;

verus! {

/// Why a client is turned away.
#[derive(Debug, PartialEq, Eq)]
pub enum HandshakeError {
    /// The client runs another major version of the protocol.
    Incompatible { major: i16 },
    /// The client's screen is not in the layout.
    UnknownScreen { name: String },
    /// The client answered the greeting with something else.
    ExpectedHelloBack,
    /// The client answered the query with something else.
    ExpectedDeviceInfo { name: String },
    /// The handshake is over.
    Over,
}

/// The mathematical value of a [`HandshakeError`].
pub enum RefusalView {
    Incompatible { major: i16 },
    UnknownScreen { name: Seq<char> },
    ExpectedHelloBack,
    ExpectedDeviceInfo { name: Seq<char> },
    Over,
}

impl View for HandshakeError {
    type V = RefusalView;

    open spec fn view(&self) -> RefusalView {
        match *self {
            HandshakeError::Incompatible { major } => RefusalView::Incompatible { major },
            HandshakeError::UnknownScreen { name } => RefusalView::UnknownScreen { name: name@ },
            HandshakeError::ExpectedHelloBack => RefusalView::ExpectedHelloBack,
            HandshakeError::ExpectedDeviceInfo { name } => RefusalView::ExpectedDeviceInfo {
                name: name@,
            },
            HandshakeError::Over => RefusalView::Over,
        }
    }
}

/// The server's greeting.
pub open spec fn greeting() -> MessageView {
    MessageView::Hello { major: PROTOCOL_MAJOR, minor: PROTOCOL_MINOR }
}

/// What the answer to the greeting gives: the client's name if it runs the same major version and
/// its screen is in the layout.
pub open spec fn welcome(screens: LayoutView, answer: MessageView) -> Result<
    Seq<char>,
    RefusalView,
> {
    match answer {
        MessageView::HelloBack { major, name, .. } => if major != PROTOCOL_MAJOR {
            Err(RefusalView::Incompatible { major })
        } else if !screens.contains_key(name) {
            Err(RefusalView::UnknownScreen { name })
        } else {
            Ok(name)
        },
        _ => Err(RefusalView::ExpectedHelloBack),
    }
}

/// What a client that is turned away is told, if anything.
pub open spec fn refusal_message(refusal: RefusalView) -> Option<MessageView> {
    match refusal {
        RefusalView::Incompatible { .. } => Some(
            MessageView::ErrIncompatible { major: PROTOCOL_MAJOR, minor: PROTOCOL_MINOR },
        ),
        RefusalView::UnknownScreen { .. } => Some(MessageView::ErrUnknown),
        _ => None,
    }
}

/// The messages that complete the handshake.
pub open spec fn completion() -> Seq<MessageView> {
    seq![
        MessageView::InfoAck,
        MessageView::ResetOptions,
        MessageView::SetOptions { opts: Seq::empty() },
    ]
}

impl HandshakeError {
    /// What the client is told, if anything.
    pub fn reply(&self) -> (msg: Option<Message>)
        ensures
            match msg {
                Some(m) => refusal_message(self@) == Some(m@),
                None => refusal_message(self@) is None,
            },
    {
        match self {
            HandshakeError::Incompatible { .. } => Some(
                Message::ErrIncompatible { major: PROTOCOL_MAJOR, minor: PROTOCOL_MINOR },
            ),
            HandshakeError::UnknownScreen { .. } => Some(Message::ErrUnknown),
            _ => None,
        }
    }
}

/// The message that opens the handshake.
pub fn hello() -> (msg: Message)
    ensures
        msg@ == greeting(),
{
    Message::Hello { major: PROTOCOL_MAJOR, minor: PROTOCOL_MINOR }
}

/// Judges the answer to the greeting. Returns the client's screen name, which is to be asked for
/// its geometry with [`query`].
pub fn accept_hello(layout: &ScreenLayout, answer: Message) -> (r: Result<String, HandshakeError>)
    ensures
        match welcome(layout@, answer@) {
            Ok(name) => r matches Ok(n) && n@ == name,
            Err(refusal) => r matches Err(e) && e@ == refusal,
        },
{
    match answer {
        Message::HelloBack { major, name, .. } => {
            if major != PROTOCOL_MAJOR {
                return Err(HandshakeError::Incompatible { major });
            }
            if !layout.contains(name.as_str()) {
                return Err(HandshakeError::UnknownScreen { name });
            }
            Ok(name)
        },
        _ => Err(HandshakeError::ExpectedHelloBack),
    }
}

/// The message that asks a client for its geometry.
pub fn query() -> (msg: Message)
    ensures
        msg@ == MessageView::QueryInfo,
{
    Message::QueryInfo
}

/// Judges the answer to the query of the client `name`. Returns the messages that complete the
/// handshake.
pub fn accept_info(name: &str, answer: Message) -> (r: Result<Vec<Message>, HandshakeError>)
    ensures
        match r {
            Ok(msgs) => answer@ is DeviceInfo && msgs@.map_values(|m: Message| m@) == completion(),
            Err(e) => !(answer@ is DeviceInfo) && e@ == (RefusalView::ExpectedDeviceInfo {
                name: name@,
            }),
        },
{
    match answer {
        Message::DeviceInfo { .. } => {
            let msgs: Vec<Message> = vec![
                Message::InfoAck,
                Message::ResetOptions,
                Message::SetOptions { opts: Vec::new() },
            ];
            assert(msgs@[2]@ == (MessageView::SetOptions { opts: Seq::empty() }));
            assert(msgs@.map_values(|m: Message| m@) =~= completion());
            Ok(msgs)
        },
        _ => Err(HandshakeError::ExpectedDeviceInfo { name: name.to_string() }),
    }
}

/// What the server does next in a handshake.
#[derive(Debug, PartialEq, Eq)]
pub enum HandshakeStep {
    /// Send this message, and wait for the answer.
    Ask(Message),
    /// Send these messages; the client `name` is connected.
    Welcome { name: String, msgs: Vec<Message> },
    /// Tell the client so, if anything, and close the connection.
    Refuse { reply: Option<Message>, error: HandshakeError },
}

/// The mathematical value of a [`HandshakeStep`].
#[verifier::ext_equal]
pub enum StepView {
    Ask(MessageView),
    Welcome { name: Seq<char>, msgs: Seq<MessageView> },
    Refuse { reply: Option<MessageView>, error: RefusalView },
}

impl View for HandshakeStep {
    type V = StepView;

    open spec fn view(&self) -> StepView {
        match *self {
            HandshakeStep::Ask(msg) => StepView::Ask(msg@),
            HandshakeStep::Welcome { name, msgs } => StepView::Welcome {
                name: name@,
                msgs: msgs@.map_values(|m: Message| m@),
            },
            HandshakeStep::Refuse { reply, error } => StepView::Refuse {
                reply: match reply {
                    Some(msg) => Some(msg@),
                    None => None,
                },
                error: error@,
            },
        }
    }
}

/// How far a handshake has come.
#[derive(Debug)]
enum Phase {
    /// The client has been greeted.
    Greeted,
    /// The client of this name has been asked for its geometry.
    Queried(String),
    /// It is over.
    Over,
}

/// The mathematical value of a [`Handshake`].
pub enum HandshakeView {
    Greeted,
    Queried(Seq<char>),
    Over,
}

/// The refusal of a client.
pub open spec fn refused(error: RefusalView) -> (HandshakeView, StepView) {
    (HandshakeView::Over, StepView::Refuse { reply: refusal_message(error), error })
}

impl HandshakeView {
    /// The state after an answer, and what the server does next.
    pub open spec fn answered(self, screens: LayoutView, answer: MessageView) -> (
        HandshakeView,
        StepView,
    ) {
        match self {
            HandshakeView::Greeted => match welcome(screens, answer) {
                Ok(name) => (HandshakeView::Queried(name), StepView::Ask(MessageView::QueryInfo)),
                Err(error) => refused(error),
            },
            HandshakeView::Queried(name) => if answer is DeviceInfo {
                (HandshakeView::Over, StepView::Welcome { name, msgs: completion() })
            } else {
                refused(RefusalView::ExpectedDeviceInfo { name })
            },
            HandshakeView::Over => refused(RefusalView::Over),
        }
    }
}

/// The server's side of a handshake with one client.
#[derive(Debug)]
pub struct Handshake {
    phase: Phase,
}

impl View for Handshake {
    type V = HandshakeView;

    closed spec fn view(&self) -> HandshakeView {
        match self.phase {
            Phase::Greeted => HandshakeView::Greeted,
            Phase::Queried(name) => HandshakeView::Queried(name@),
            Phase::Over => HandshakeView::Over,
        }
    }
}

fn refuse(error: HandshakeError) -> (step: HandshakeStep)
    ensures
        step@ == refused(error@).1,
{
    HandshakeStep::Refuse { reply: error.reply(), error }
}

impl Handshake {
    /// Begin a handshake. Returns the greeting to be sent.
    pub fn begin() -> (r: (Self, Message))
        ensures
            r.0@ == HandshakeView::Greeted,
            r.1@ == greeting(),
    {
        (Handshake { phase: Phase::Greeted }, hello())
    }

    /// Take the client's next answer, and say what to do next.
    pub fn on_answer(&mut self, layout: &ScreenLayout, answer: Message) -> (step: HandshakeStep)
        ensures
            (final(self)@, step@) == old(self)@.answered(layout@, answer@),
    {
        let mut phase = Phase::Over;
        std::mem::swap(&mut self.phase, &mut phase);
        match phase {
            Phase::Greeted => match accept_hello(layout, answer) {
                Ok(name) => {
                    self.phase = Phase::Queried(name);
                    HandshakeStep::Ask(query())
                },
                Err(error) => refuse(error),
            },
            Phase::Queried(name) => match accept_info(name.as_str(), answer) {
                Ok(msgs) => HandshakeStep::Welcome { name, msgs },
                Err(error) => refuse(error),
            },
            Phase::Over => refuse(HandshakeError::Over),
        }
    }
}

/// Only a client of the same major version whose screen is in the layout, and that has then
/// reported its geometry, is ever welcomed.
pub proof fn lemma_only_known_clients_are_welcomed(
    screens: LayoutView,
    first: MessageView,
    second: MessageView,
)
    ensures
        ({
            let (queried, _) = HandshakeView::Greeted.answered(screens, first);
            let (_, step) = queried.answered(screens, second);
            step is Welcome ==> {
                &&& first matches MessageView::HelloBack { major, name, .. } && major
                    == PROTOCOL_MAJOR && screens.contains_key(name) && name == step->Welcome_name
                &&& second is DeviceInfo
            }
        }),
        !(HandshakeView::Greeted.answered(screens, first).1 is Welcome),
{
}

/// A client whose screen is in the layout gets through the handshake: its answers are accepted, and
/// the completion leaves it connected and acknowledged.
pub proof fn lemma_known_client_is_accepted(screens: LayoutView, state: ClientState)
    requires
        screens.contains_key(state.name),
    ensures
        ({
            let hello_back = state.reaction(greeting())[0]->Reply_0;
            let asked = state.after(greeting());
            let info = asked.reaction(MessageView::QueryInfo)[0]->Reply_0;
            let queried = asked.after(MessageView::QueryInfo);
            &&& state.reaction(greeting()) == seq![ClientActionView::Reply(hello_back)]
            &&& HandshakeView::Greeted.answered(screens, hello_back) == (
                HandshakeView::Queried(state.name),
                StepView::Ask(MessageView::QueryInfo),
            )
            &&& asked.reaction(MessageView::QueryInfo) == seq![ClientActionView::Reply(info)]
            &&& HandshakeView::Queried(state.name).answered(screens, info) == (
                HandshakeView::Over,
                StepView::Welcome { name: state.name, msgs: completion() },
            )
            &&& queried.reaction(completion()[0]) == seq![ClientActionView::Connected]
            &&& queried.run(completion()).acked
        }),
{
    let queried = state.after(greeting()).after(MessageView::QueryInfo);
    reveal_with_fuel(ClientState::run, 4);
    assert(completion().drop_last().drop_last().drop_last() =~= Seq::empty());
    assert(completion().drop_last().drop_last().last() == MessageView::InfoAck);
    assert(completion().drop_last().last() == MessageView::ResetOptions);
}

/// A client whose screen is not in the layout is told so, and gives up for that reason.
pub proof fn lemma_unknown_client_is_refused(screens: LayoutView, state: ClientState)
    requires
        !screens.contains_key(state.name),
    ensures
        ({
            let hello_back = state.reaction(greeting())[0]->Reply_0;
            let refusal = RefusalView::UnknownScreen { name: state.name };
            &&& state.reaction(greeting()) == seq![ClientActionView::Reply(hello_back)]
            &&& HandshakeView::Greeted.answered(screens, hello_back) == (
                HandshakeView::Over,
                StepView::Refuse { reply: Some(MessageView::ErrUnknown), error: refusal },
            )
            &&& state.after(greeting()).reaction(MessageView::ErrUnknown) == seq![
                ClientActionView::Disconnect(DisconnectReason::UnknownToServer),
            ]
        }),
{
}

/// A client of another major version is told which version the server runs, and gives up for that
/// reason.
pub proof fn lemma_incompatible_client_is_refused(
    screens: LayoutView,
    state: ClientState,
    major: i16,
    minor: i16,
    name: Seq<char>,
)
    requires
        major != PROTOCOL_MAJOR,
    ensures
        ({
            let told = MessageView::ErrIncompatible {
                major: PROTOCOL_MAJOR,
                minor: PROTOCOL_MINOR,
            };
            &&& HandshakeView::Greeted.answered(
                screens,
                MessageView::HelloBack { major, minor, name },
            ) == (
                HandshakeView::Over,
                StepView::Refuse {
                    reply: Some(told),
                    error: RefusalView::Incompatible { major },
                },
            )
            &&& state.reaction(told) == seq![
                ClientActionView::Disconnect(
                    DisconnectReason::IncompatibleVersion {
                        major: PROTOCOL_MAJOR,
                        minor: PROTOCOL_MINOR,
                    },
                ),
            ]
        }),
{
}

/// The server greets with its version. A client of the same major version, whatever the minor one,
/// whose screen is in the layout is asked for its geometry, and whatever geometry it then reports,
/// it is welcomed under its name: it is acknowledged, and its options are reset and set to none.
pub proof fn lemma_handshake_goes_through(
    screens: LayoutView,
    minor: i16,
    name: Seq<char>,
    info: MessageView,
)
    requires
        screens.contains_key(name),
        info is DeviceInfo,
    ensures
        greeting() == (MessageView::Hello { major: 1, minor: 9 }),
        ({
            let (queried, ask) = HandshakeView::Greeted.answered(
                screens,
                MessageView::HelloBack { major: 1, minor, name },
            );
            let (over, step) = queried.answered(screens, info);
            &&& ask == StepView::Ask(MessageView::QueryInfo)
            &&& over is Over
            &&& step matches StepView::Welcome { name: welcomed, msgs }
            &&& welcomed == name
            &&& msgs.len() == 3
            &&& msgs[0] == MessageView::InfoAck
            &&& msgs[1] == MessageView::ResetOptions
            &&& msgs[2] matches MessageView::SetOptions { opts } && opts.len() == 0
        }),
{
}

/// A client that answers with something else is turned away without a word, at either step, and so
/// is every answer after the end.
pub proof fn lemma_other_answers_are_refused(
    screens: LayoutView,
    name: Seq<char>,
    answer: MessageView,
)
    ensures
        !(answer is HelloBack) ==> HandshakeView::Greeted.answered(screens, answer) == (
            HandshakeView::Over,
            StepView::Refuse { reply: None, error: RefusalView::ExpectedHelloBack },
        ),
        !(answer is DeviceInfo) ==> HandshakeView::Queried(name).answered(screens, answer) == (
            HandshakeView::Over,
            StepView::Refuse { reply: None, error: RefusalView::ExpectedDeviceInfo { name } },
        ),
        HandshakeView::Over.answered(screens, answer) == (
            HandshakeView::Over,
            StepView::Refuse { reply: None, error: RefusalView::Over },
        ),
{
}

/// The version is looked at before the name: a client of another major version is told of that,
/// whether its screen is known or not, and only then a client whose screen is not in the layout.
pub proof fn lemma_refusals_are_told(
    screens: LayoutView,
    major: i16,
    minor: i16,
    name: Seq<char>,
)
    ensures
        ({
            let (after, step) = HandshakeView::Greeted.answered(
                screens,
                MessageView::HelloBack { major, minor, name },
            );
            &&& major != 1 ==> after is Over && step == (StepView::Refuse {
                reply: Some(MessageView::ErrIncompatible { major: 1, minor: 9 }),
                error: RefusalView::Incompatible { major },
            })
            &&& major == 1 && !screens.contains_key(name) ==> after is Over && step == (
            StepView::Refuse {
                reply: Some(MessageView::ErrUnknown),
                error: RefusalView::UnknownScreen { name },
            })
        }),
{
}

} // verus!
