//! The client-side state machine.
//!
//! [`ClientMachine`] consumes protocol [`Message`]s from the server and emits [`ClientAction`]s:
//! input commands for the injection backend and protocol replies for the runtime to send back.

use crate::events::{InputCommand, KeyAction};
use crate::layout;
use crate::layout::ScreenSize;
use crate::message::{Message, MessageView, PROTOCOL_MAJOR, PROTOCOL_MINOR};
use vstd::prelude::*;

verus! {

#[derive(Clone, Copy, Debug, PartialEq, Eq, Structural)]
pub enum DisconnectReason {
    ServerClosed,
    IncompatibleVersion { major: i16, minor: i16 },
    NameInUse,
    UnknownToServer,
    ProtocolViolation,
}

#[derive(Clone, Debug, PartialEq, Eq)]
pub enum ClientAction {
    /// Inject this command on the local machine.
    Inject(InputCommand),
    /// Send this message back to the server.
    Reply(Message),
    /// Handshake completed.
    Connected,
    /// Cursor entered this screen.
    Entered,
    /// Cursor left this screen.
    Left,
    /// Server asked to close, or sent a fatal error.
    Disconnect(DisconnectReason),
}

/// The mathematical value of a [`ClientAction`].
pub enum ClientActionView {
    Inject(InputCommand),
    Reply(MessageView),
    Connected,
    Entered,
    Left,
    Disconnect(DisconnectReason),
}

impl View for ClientAction {
    type V = ClientActionView;

    open spec fn view(&self) -> ClientActionView {
        match *self {
            ClientAction::Inject(cmd) => ClientActionView::Inject(cmd),
            ClientAction::Reply(msg) => ClientActionView::Reply(msg@),
            ClientAction::Connected => ClientActionView::Connected,
            ClientAction::Entered => ClientActionView::Entered,
            ClientAction::Left => ClientActionView::Left,
            ClientAction::Disconnect(reason) => ClientActionView::Disconnect(reason),
        }
    }
}

/// The values of some actions.
pub open spec fn action_views(actions: Seq<ClientAction>) -> Seq<ClientActionView> {
    actions.map_values(|a: ClientAction| a@)
}

pub struct ClientMachine {
    name: String,
    screen: ScreenSize,
    /// True once the server has acknowledged our `DeviceInfo`; until then mouse moves are dropped
    /// to avoid warping to stale coordinates.
    acked: bool,
    /// True while the cursor is on this screen.
    entered: bool,
    /// Sequence number of the most recent `Enter`.
    last_seq: u32,
}

/// The mathematical value of a [`ClientMachine`].
pub struct ClientState {
    pub name: Seq<char>,
    pub screen: ScreenSize,
    pub acked: bool,
    pub entered: bool,
    pub last_seq: u32,
}

impl View for ClientMachine {
    type V = ClientState;

    closed spec fn view(&self) -> ClientState {
        ClientState {
            name: self.name@,
            screen: self.screen,
            acked: self.acked,
            entered: self.entered,
            last_seq: self.last_seq,
        }
    }
}

/// The input command that a message forwards.
pub open spec fn forwarded(msg: MessageView) -> Option<InputCommand> {
    match msg {
        MessageView::MouseMove { x, y } => Some(
            InputCommand::MouseMoveAbs { x: x as i32, y: y as i32 },
        ),
        MessageView::MouseRelMove { dx, dy } => Some(
            InputCommand::MouseMoveRel { dx: dx as i32, dy: dy as i32 },
        ),
        MessageView::MouseDown { button } => Some(
            InputCommand::MouseButton { button, pressed: true },
        ),
        MessageView::MouseUp { button } => Some(
            InputCommand::MouseButton { button, pressed: false },
        ),
        MessageView::MouseWheel { x, y } => Some(InputCommand::MouseWheel { x, y }),
        MessageView::KeyDown { id, mask, button } => Some(
            InputCommand::Key { id, mask, button, action: KeyAction::Down },
        ),
        MessageView::KeyUp { id, mask, button } => Some(
            InputCommand::Key { id, mask, button, action: KeyAction::Up },
        ),
        MessageView::KeyRepeat { id, mask, count, button } => Some(
            InputCommand::Key { id, mask, button, action: KeyAction::Repeat(count) },
        ),
        _ => None,
    }
}

/// Why a message ends the session.
pub open spec fn farewell(msg: MessageView) -> Option<DisconnectReason> {
    match msg {
        MessageView::Close => Some(DisconnectReason::ServerClosed),
        MessageView::ErrIncompatible { major, minor } => Some(
            DisconnectReason::IncompatibleVersion { major, minor },
        ),
        MessageView::ErrBusy => Some(DisconnectReason::NameInUse),
        MessageView::ErrUnknown => Some(DisconnectReason::UnknownToServer),
        MessageView::ErrBad => Some(DisconnectReason::ProtocolViolation),
        _ => None,
    }
}

impl ClientState {
    /// Whether a command may be injected: the cursor must be on this screen, and moves must wait
    /// for the acknowledgement.
    pub open spec fn may_inject(self, cmd: InputCommand) -> bool {
        let is_move = cmd is MouseMoveAbs || cmd is MouseMoveRel;
        self.entered && (self.acked || !is_move)
    }

    /// What the client does on a message.
    pub open spec fn reaction(self, msg: MessageView) -> Seq<ClientActionView> {
        match msg {
            MessageView::Hello { .. } => seq![
                ClientActionView::Reply(
                    MessageView::HelloBack {
                        major: PROTOCOL_MAJOR,
                        minor: PROTOCOL_MINOR,
                        name: self.name,
                    },
                ),
            ],
            MessageView::QueryInfo => seq![
                ClientActionView::Reply(
                    MessageView::DeviceInfo {
                        x: 0,
                        y: 0,
                        w: self.screen.w as i16,
                        h: self.screen.h as i16,
                        warp: 0,
                        mx: layout::half(self.screen.w as int) as i16,
                        my: layout::half(self.screen.h as int) as i16,
                    },
                ),
            ],
            MessageView::InfoAck => seq![ClientActionView::Connected],
            MessageView::KeepAlive => seq![ClientActionView::Reply(MessageView::KeepAlive)],
            MessageView::Enter { x, y, .. } => seq![
                ClientActionView::Entered,
                ClientActionView::Inject(
                    InputCommand::MouseMoveAbs { x: x as i32, y: y as i32 },
                ),
            ],
            MessageView::Leave => seq![ClientActionView::Left],
            _ => match (forwarded(msg), farewell(msg)) {
                (Some(cmd), _) => if self.may_inject(cmd) {
                    seq![ClientActionView::Inject(cmd)]
                } else {
                    Seq::empty()
                },
                (None, Some(reason)) => seq![ClientActionView::Disconnect(reason)],
                (None, None) => Seq::empty(),
            },
        }
    }

    /// The state of the client after a message.
    pub open spec fn after(self, msg: MessageView) -> ClientState {
        match msg {
            MessageView::InfoAck => ClientState { acked: true, ..self },
            MessageView::Enter { seq, .. } => ClientState { entered: true, last_seq: seq, ..self },
            MessageView::Leave => ClientState { entered: false, ..self },
            _ => self,
        }
    }
}

/// The state of a client at the start.
pub open spec fn newcomer(name: Seq<char>, screen: ScreenSize) -> ClientState {
    ClientState { name, screen, acked: false, entered: false, last_seq: 0 }
}

impl ClientMachine {
    pub fn new(name: &str, screen: ScreenSize) -> (m: Self)
        ensures
            m@ == newcomer(name@, screen),
    {
        Self { name: name.to_string(), screen, acked: false, entered: false, last_seq: 0 }
    }

    pub fn is_entered(&self) -> (entered: bool)
        ensures
            entered == self@.entered,
    {
        self.entered
    }

    pub fn last_seq(&self) -> (seq: u32)
        ensures
            seq == self@.last_seq,
    {
        self.last_seq
    }

    /// Drive the machine with one message received from the server.
    pub fn handle(&mut self, msg: Message) -> (actions: Vec<ClientAction>)
        ensures
            final(self)@ == old(self)@.after(msg@),
            action_views(actions@) == old(self)@.reaction(msg@),
    {
        match msg {
            Message::Hello { .. } => vec![
                ClientAction::Reply(
                    Message::HelloBack {
                        major: PROTOCOL_MAJOR,
                        minor: PROTOCOL_MINOR,
                        name: self.name.clone(),
                    },
                ),
            ],
            Message::QueryInfo => vec![
                ClientAction::Reply(
                    Message::DeviceInfo {
                        x: 0,
                        y: 0,
                        w: self.screen.w as i16,
                        h: self.screen.h as i16,
                        warp: 0,
                        mx: (self.screen.w / 2) as i16,
                        my: (self.screen.h / 2) as i16,
                    },
                ),
            ],
            Message::InfoAck => {
                self.acked = true;
                vec![ClientAction::Connected]
            },
            Message::ResetOptions | Message::SetOptions { .. } => Vec::new(),
            Message::KeepAlive => vec![ClientAction::Reply(Message::KeepAlive)],
            Message::NoOp => Vec::new(),
            Message::Enter { x, y, seq, .. } => {
                self.entered = true;
                self.last_seq = seq;
                vec![
                    ClientAction::Entered,
                    ClientAction::Inject(
                        InputCommand::MouseMoveAbs { x: x as i32, y: y as i32 },
                    ),
                ]
            },
            Message::Leave => {
                self.entered = false;
                vec![ClientAction::Left]
            },
            Message::MouseMove { x, y } => self.inject_if_active(
                InputCommand::MouseMoveAbs { x: x as i32, y: y as i32 },
            ),
            Message::MouseRelMove { dx, dy } => self.inject_if_active(
                InputCommand::MouseMoveRel { dx: dx as i32, dy: dy as i32 },
            ),
            Message::MouseDown { button } => self.inject_if_active(
                InputCommand::MouseButton { button, pressed: true },
            ),
            Message::MouseUp { button } => self.inject_if_active(
                InputCommand::MouseButton { button, pressed: false },
            ),
            Message::MouseWheel { x, y } => self.inject_if_active(
                InputCommand::MouseWheel { x, y },
            ),
            Message::KeyDown { id, mask, button } => self.inject_if_active(
                InputCommand::Key { id, mask, button, action: KeyAction::Down },
            ),
            Message::KeyUp { id, mask, button } => self.inject_if_active(
                InputCommand::Key { id, mask, button, action: KeyAction::Up },
            ),
            Message::KeyRepeat { id, mask, count, button } => self.inject_if_active(
                InputCommand::Key { id, mask, button, action: KeyAction::Repeat(count) },
            ),
            Message::Close => vec![ClientAction::Disconnect(DisconnectReason::ServerClosed)],
            Message::ErrIncompatible { major, minor } => vec![
                ClientAction::Disconnect(DisconnectReason::IncompatibleVersion { major, minor }),
            ],
            Message::ErrBusy => vec![ClientAction::Disconnect(DisconnectReason::NameInUse)],
            Message::ErrUnknown => vec![
                ClientAction::Disconnect(DisconnectReason::UnknownToServer),
            ],
            Message::ErrBad => vec![ClientAction::Disconnect(DisconnectReason::ProtocolViolation)],
            // Clipboard and file-transfer payloads are handled by the session around this machine.
            Message::HelloBack { .. }
            | Message::DeviceInfo { .. }
            | Message::ScreenSaver { .. }
            | Message::ClipboardGrab { .. }
            | Message::ClipboardData { .. }
            | Message::FileOffer { .. }
            | Message::FileChunk { .. }
            | Message::FileEnd { .. }
            | Message::FileAccept { .. } => Vec::new(),
        }
    }

    fn inject_if_active(&self, cmd: InputCommand) -> (actions: Vec<ClientAction>)
        ensures
            action_views(actions@) == if self@.may_inject(cmd) {
                seq![ClientActionView::Inject(cmd)]
            } else {
                Seq::empty()
            },
    {
        let is_move = matches!(
            cmd,
            InputCommand::MouseMoveAbs { .. } | InputCommand::MouseMoveRel { .. }
        );
        if self.entered && (self.acked || !is_move) {
            vec![ClientAction::Inject(cmd)]
        } else {
            Vec::new()
        }
    }
}

impl ClientState {
    /// The state of the client after some messages.
    pub open spec fn run(self, msgs: Seq<MessageView>) -> ClientState
        decreases msgs.len(),
    {
        if msgs.len() == 0 {
            self
        } else {
            self.run(msgs.drop_last()).after(msgs.last())
        }
    }
}

/// Nothing is injected while the cursor is elsewhere, but for the move that an `Enter` itself
/// asks for.
pub proof fn lemma_injects_only_when_entered(state: ClientState, msg: MessageView, i: int)
    requires
        0 <= i < state.reaction(msg).len(),
        state.reaction(msg)[i] is Inject,
    ensures
        state.entered || msg is Enter,
{
}

/// Once the cursor has left, nothing is injected until it enters again.
pub proof fn lemma_leave_stops_injection(
    state: ClientState,
    msgs: Seq<MessageView>,
    msg: MessageView,
)
    requires
        forall|i: int| 0 <= i < msgs.len() ==> !((#[trigger] msgs[i]) is Enter),
        !(msg is Enter),
    ensures
        !state.after(MessageView::Leave).run(msgs).entered,
        forall|i: int|
            0 <= i < state.after(MessageView::Leave).run(msgs).reaction(msg).len() ==> !((
            #[trigger] state.after(MessageView::Leave).run(msgs).reaction(msg)[i]) is Inject),
    decreases msgs.len(),
{
    if msgs.len() > 0 {
        assert(!(msgs.last() is Enter));
        lemma_leave_stops_injection(state, msgs.drop_last(), msg);
    }
}

/// Until the server has acknowledged the screen, mouse moves are dropped.
pub proof fn lemma_moves_wait_for_ack(
    state: ClientState,
    msgs: Seq<MessageView>,
    msg: MessageView,
)
    requires
        !state.acked,
        forall|i: int| 0 <= i < msgs.len() ==> !((#[trigger] msgs[i]) is InfoAck),
        msg is MouseMove || msg is MouseRelMove,
    ensures
        !state.run(msgs).acked,
        state.run(msgs).reaction(msg) == Seq::<ClientActionView>::empty(),
    decreases msgs.len(),
{
    if msgs.len() > 0 {
        assert(!(msgs.last() is InfoAck));
        lemma_moves_wait_for_ack(state, msgs.drop_last(), msg);
    }
}

/// The enter sequence number is that of the latest `Enter`.
pub proof fn lemma_last_seq_is_latest(
    state: ClientState,
    x: i16,
    y: i16,
    seq: u32,
    modifiers: u16,
    msgs: Seq<MessageView>,
)
    requires
        forall|i: int| 0 <= i < msgs.len() ==> !((#[trigger] msgs[i]) is Enter),
    ensures
        state.after(MessageView::Enter { x, y, seq, modifiers }).run(msgs).last_seq == seq,
    decreases msgs.len(),
{
    if msgs.len() > 0 {
        assert(!(msgs.last() is Enter));
        lemma_last_seq_is_latest(state, x, y, seq, modifiers, msgs.drop_last());
    }
}

/// While the cursor is here, buttons, keys and the wheel are injected as they were sent, at once,
/// and moves once the screen has been acknowledged: one command for each message, with all that it
/// holds. While the cursor is elsewhere, nothing is. None of it changes the client.
pub proof fn lemma_input_is_injected_whole(state: ClientState, msg: MessageView, cmd: InputCommand)
    requires
        match msg {
            MessageView::MouseMove { x, y } => cmd matches InputCommand::MouseMoveAbs {
                x: to_x,
                y: to_y,
            } && to_x == x && to_y == y,
            MessageView::MouseRelMove { dx, dy } => cmd matches InputCommand::MouseMoveRel {
                dx: by_x,
                dy: by_y,
            } && by_x == dx && by_y == dy,
            MessageView::MouseDown { button } => cmd == (InputCommand::MouseButton {
                button,
                pressed: true,
            }),
            MessageView::MouseUp { button } => cmd == (InputCommand::MouseButton {
                button,
                pressed: false,
            }),
            MessageView::MouseWheel { x, y } => cmd == (InputCommand::MouseWheel { x, y }),
            MessageView::KeyDown { id, mask, button } => cmd == (InputCommand::Key {
                id,
                mask,
                button,
                action: KeyAction::Down,
            }),
            MessageView::KeyUp { id, mask, button } => cmd == (InputCommand::Key {
                id,
                mask,
                button,
                action: KeyAction::Up,
            }),
            MessageView::KeyRepeat { id, mask, count, button } => cmd == (InputCommand::Key {
                id,
                mask,
                button,
                action: KeyAction::Repeat(count),
            }),
            _ => false,
        },
    ensures
        state.after(msg) == state,
        state.entered && (state.acked || !(msg is MouseMove || msg is MouseRelMove)) ==> {
            &&& state.reaction(msg).len() == 1
            &&& state.reaction(msg)[0] == ClientActionView::Inject(cmd)
        },
        !state.entered ==> state.reaction(msg).len() == 0,
        !state.acked && (msg is MouseMove || msg is MouseRelMove) ==> state.reaction(msg).len()
            == 0,
{
}

/// The cursor that enters is put where the server says, whatever came before, and is here from then
/// on, under the number that the server gave. One that leaves is not, and nothing is injected.
pub proof fn lemma_cursor_comes_and_goes(
    state: ClientState,
    x: i16,
    y: i16,
    seq: u32,
    modifiers: u16,
)
    ensures
        ({
            let enter = MessageView::Enter { x, y, seq, modifiers };
            let did = state.reaction(enter);
            &&& did.len() == 2
            &&& did[0] == ClientActionView::Entered
            &&& did[1] matches ClientActionView::Inject(
                InputCommand::MouseMoveAbs { x: to_x, y: to_y },
            )
            &&& to_x == x
            &&& to_y == y
            &&& state.after(enter) == (ClientState { entered: true, last_seq: seq, ..state })
        }),
        state.reaction(MessageView::Leave).len() == 1,
        state.reaction(MessageView::Leave)[0] == ClientActionView::Left,
        state.after(MessageView::Leave) == (ClientState { entered: false, ..state }),
{
}

proof fn lemma_cut(v: i32)
    ensures
        (v - (v as i16)) % 65_536 == 0,
{
    assert((v - (v as i16)) % 65_536 == 0) by (bit_vector);
}

/// The client answers the greeting with its own name and version, the query with the size and the
/// middle of its screen, cut to their low-order bits where they do not fit, and a keep-alive with a
/// keep-alive. The acknowledgement makes it connected. It stays as it is but for the
/// acknowledgement.
pub proof fn lemma_client_answers_the_server(state: ClientState, major: i16, minor: i16)
    ensures
        ({
            let hello = MessageView::Hello { major, minor };
            let info = state.reaction(MessageView::QueryInfo);
            let alive = state.reaction(MessageView::KeepAlive);
            let acked = state.reaction(MessageView::InfoAck);
            &&& state.reaction(hello).len() == 1
            &&& state.reaction(hello)[0] == ClientActionView::Reply(
                MessageView::HelloBack { major: 1, minor: 9, name: state.name },
            )
            &&& state.after(hello) == state
            &&& info.len() == 1
            &&& info[0] matches ClientActionView::Reply(
                MessageView::DeviceInfo { x, y, w, h, warp, mx, my },
            )
            &&& x == 0 && y == 0 && warp == 0
            &&& 0 <= state.screen.w <= i16::MAX ==> w == state.screen.w && 2 * mx <= w <= 2 * mx
                + 1
            &&& 0 <= state.screen.h <= i16::MAX ==> h == state.screen.h && 2 * my <= h <= 2 * my
                + 1
            &&& (state.screen.w - w) % 65_536 == 0
            &&& (state.screen.h - h) % 65_536 == 0
            &&& (layout::half(state.screen.w as int) - mx) % 65_536 == 0
            &&& (layout::half(state.screen.h as int) - my) % 65_536 == 0
            &&& state.after(MessageView::QueryInfo) == state
            &&& alive.len() == 1
            &&& alive[0] == ClientActionView::Reply(MessageView::KeepAlive)
            &&& state.after(MessageView::KeepAlive) == state
            &&& acked.len() == 1
            &&& acked[0] == ClientActionView::Connected
            &&& state.after(MessageView::InfoAck) == (ClientState { acked: true, ..state })
        }),
{
    lemma_cut(state.screen.w);
    lemma_cut(state.screen.h);
    lemma_cut(layout::half(state.screen.w as int) as i32);
    lemma_cut(layout::half(state.screen.h as int) as i32);
}

/// The messages that end the session do so at once, each for its own reason, and an incompatible
/// server is quoted with its version.
pub proof fn lemma_farewells_give_their_reason(state: ClientState, msg: MessageView)
    ensures
        (msg is Close || msg is ErrBusy || msg is ErrUnknown || msg is ErrBad
            || msg is ErrIncompatible) <==> (exists|i: int|
            0 <= i < state.reaction(msg).len() && (#[trigger] state.reaction(msg)[i]) is Disconnect
        ),
        (msg is Close || msg is ErrBusy || msg is ErrUnknown || msg is ErrBad
            || msg is ErrIncompatible) ==> {
            &&& state.reaction(msg).len() == 1
            &&& state.after(msg) == state
            &&& state.reaction(msg)[0] matches ClientActionView::Disconnect(reason)
            &&& (reason == DisconnectReason::ServerClosed <==> msg is Close)
            &&& (reason == DisconnectReason::NameInUse <==> msg is ErrBusy)
            &&& (reason == DisconnectReason::UnknownToServer <==> msg is ErrUnknown)
            &&& (reason == DisconnectReason::ProtocolViolation <==> msg is ErrBad)
            &&& msg matches MessageView::ErrIncompatible { major, minor } ==> reason == (
            DisconnectReason::IncompatibleVersion { major, minor })
        },
{
    if msg is Close || msg is ErrBusy || msg is ErrUnknown || msg is ErrBad
        || msg is ErrIncompatible {
        assert(state.reaction(msg)[0] is Disconnect);
    }
}

/// All other messages leave the client alone.
pub proof fn lemma_other_messages_are_ignored(state: ClientState, msg: MessageView)
    requires
        msg is NoOp || msg is ResetOptions || msg is SetOptions || msg is HelloBack
            || msg is DeviceInfo || msg is ScreenSaver || msg is ClipboardGrab
            || msg is ClipboardData || msg is FileOffer || msg is FileChunk || msg is FileEnd
            || msg is FileAccept,
    ensures
        state.reaction(msg).len() == 0,
        state.after(msg) == state,
{
}

/// A new client has its name and its screen, is not acknowledged, and does not have the cursor.
pub proof fn lemma_new_client_waits(name: Seq<char>, screen: ScreenSize)
    ensures
        ({
            let new = newcomer(name, screen);
            &&& new.name == name
            &&& new.screen == screen
            &&& !new.acked
            &&& !new.entered
            &&& new.last_seq == 0
        }),
{
}

} // verus!
