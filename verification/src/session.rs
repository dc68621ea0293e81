//! The client's session with a server.
//!
//! [`ClientSession`] takes what the connection gives, one message or ending at a time, drives the
//! [`ClientMachine`], and answers with the effects that the runtime must carry out, in order.

use crate::client;
use crate::client::{ClientAction, ClientActionView, ClientMachine, ClientState, DisconnectReason};
use crate::controller;
use crate::events::InputCommand;
use crate::layout::ScreenSize;
use crate::message::{Message, MessageView};
use crate::text;
use crate::text::{push_signed_decimal, lossy_text};
use vstd::prelude::*;

verus! {

#[derive(Clone, Debug, PartialEq, Eq)]
pub enum ClientStatus {
    Connecting,
    Connected,
    Entered,
    Left,
    Disconnected(String),
}

/// The mathematical value of a [`ClientStatus`].
pub enum ClientStatusView {
    Connecting,
    Connected,
    Entered,
    Left,
    Disconnected(Seq<char>),
}

impl View for ClientStatus {
    type V = ClientStatusView;

    open spec fn view(&self) -> ClientStatusView {
        match *self {
            ClientStatus::Connecting => ClientStatusView::Connecting,
            ClientStatus::Connected => ClientStatusView::Connected,
            ClientStatus::Entered => ClientStatusView::Entered,
            ClientStatus::Left => ClientStatusView::Left,
            ClientStatus::Disconnected(reason) => ClientStatusView::Disconnected(reason@),
        }
    }
}

/// What the connection gave.
#[derive(Debug)]
pub enum Received {
    Message(Message),
    /// The server closed the connection.
    Closed,
    /// The connection failed, with what is said of it.
    Failed(String),
}

/// Something that the runtime must do.
#[derive(Debug, PartialEq, Eq)]
pub enum SessionEffect {
    /// Put a text on the local clipboard.
    SetClipboard(String),
    /// Inject a command. A failure is not fatal.
    Inject(InputCommand),
    /// Send a message to the server.
    Reply(Message),
    /// Report a status.
    Report(ClientStatus),
    /// End the session in good order.
    Finish,
    /// End the session with the failure of the connection.
    Fail,
}

/// The mathematical value of a [`SessionEffect`].
pub enum SessionEffectView {
    SetClipboard(Seq<char>),
    Inject(InputCommand),
    Reply(MessageView),
    Report(ClientStatusView),
    Finish,
    Fail,
}

impl View for SessionEffect {
    type V = SessionEffectView;

    open spec fn view(&self) -> SessionEffectView {
        match *self {
            SessionEffect::SetClipboard(text) => SessionEffectView::SetClipboard(text@),
            SessionEffect::Inject(cmd) => SessionEffectView::Inject(cmd),
            SessionEffect::Reply(msg) => SessionEffectView::Reply(msg@),
            SessionEffect::Report(status) => SessionEffectView::Report(status@),
            SessionEffect::Finish => SessionEffectView::Finish,
            SessionEffect::Fail => SessionEffectView::Fail,
        }
    }
}

/// The values of some effects.
pub open spec fn effect_views(effects: Seq<SessionEffect>) -> Seq<SessionEffectView> {
    effects.map_values(|e: SessionEffect| e@)
}

/// How a reason is worded in a status.
pub open spec fn reason_text(reason: DisconnectReason) -> Seq<char> {
    match reason {
        DisconnectReason::ServerClosed => "ServerClosed"@,
        DisconnectReason::IncompatibleVersion { major, minor } => "IncompatibleVersion { major: "@
            + text::signed_decimal(major as int) + ", minor: "@ + text::signed_decimal(
            minor as int,
        ) + " }"@,
        DisconnectReason::NameInUse => "NameInUse"@,
        DisconnectReason::UnknownToServer => "UnknownToServer"@,
        DisconnectReason::ProtocolViolation => "ProtocolViolation"@,
    }
}

/// How a reason is worded in a status.
pub fn describe(reason: DisconnectReason) -> (text: String)
    ensures
        text@ == reason_text(reason),
{
    match reason {
        DisconnectReason::ServerClosed => "ServerClosed".to_string(),
        DisconnectReason::IncompatibleVersion { major, minor } => {
            let mut text: String = "IncompatibleVersion { major: ".to_string();
            push_signed_decimal(&mut text, major as i64);
            text.append(", minor: ");
            push_signed_decimal(&mut text, minor as i64);
            text.append(" }");
            text
        },
        DisconnectReason::NameInUse => "NameInUse".to_string(),
        DisconnectReason::UnknownToServer => "UnknownToServer".to_string(),
        DisconnectReason::ProtocolViolation => "ProtocolViolation".to_string(),
    }
}

/// The effects of one action of the machine.
pub open spec fn carried_out(action: ClientActionView) -> Seq<SessionEffectView> {
    match action {
        ClientActionView::Inject(cmd) => seq![SessionEffectView::Inject(cmd)],
        ClientActionView::Reply(msg) => seq![SessionEffectView::Reply(msg)],
        ClientActionView::Connected => seq![SessionEffectView::Report(ClientStatusView::Connected)],
        ClientActionView::Entered => seq![SessionEffectView::Report(ClientStatusView::Entered)],
        ClientActionView::Left => seq![SessionEffectView::Report(ClientStatusView::Left)],
        ClientActionView::Disconnect(reason) => seq![
            SessionEffectView::Report(ClientStatusView::Disconnected(reason_text(reason))),
            SessionEffectView::Finish,
        ],
    }
}

/// The effects of some actions, one after the other, up to a disconnect.
pub open spec fn all_carried_out(actions: Seq<ClientActionView>) -> Seq<SessionEffectView>
    decreases actions.len(),
{
    if actions.len() == 0 {
        Seq::empty()
    } else if actions[0] is Disconnect {
        carried_out(actions[0])
    } else {
        carried_out(actions[0]) + all_carried_out(actions.drop_first())
    }
}

/// The effects of what the connection gave, in order. Clipboard data is applied before the machine
/// sees the message.
pub open spec fn session_effects(state: ClientState, got: Received) -> Seq<SessionEffectView> {
    match got {
        Received::Message(msg) => {
            let clip = match msg@ {
                MessageView::ClipboardData { data, .. } => seq![
                    SessionEffectView::SetClipboard(text::utf8_lossy(data)),
                ],
                _ => Seq::empty(),
            };
            clip + all_carried_out(state.reaction(msg@))
        },
        Received::Closed => seq![
            SessionEffectView::Report(ClientStatusView::Disconnected("server closed"@)),
            SessionEffectView::Finish,
        ],
        Received::Failed(reason) => seq![
            SessionEffectView::Report(ClientStatusView::Disconnected(reason@)),
            SessionEffectView::Fail,
        ],
    }
}

/// A client's session with a server.
pub struct ClientSession {
    machine: ClientMachine,
}

impl View for ClientSession {
    type V = ClientState;

    closed spec fn view(&self) -> ClientState {
        self.machine@
    }
}

impl ClientSession {
    pub fn new(name: &str, screen: ScreenSize) -> (s: Self)
        ensures
            s@ == (ClientState { name: name@, screen, acked: false, entered: false, last_seq: 0 }),
    {
        ClientSession { machine: ClientMachine::new(name, screen) }
    }

    /// Take what the connection gave, and say what must be done.
    pub fn on_received(&mut self, got: Received) -> (effects: Vec<SessionEffect>)
        ensures
            final(self)@ == match got {
                Received::Message(msg) => old(self)@.after(msg@),
                _ => old(self)@,
            },
            effect_views(effects@) == session_effects(old(self)@, got),
            // A text from the server's clipboard is put on the local one as it is.
            forall|text: Seq<char>, seq: u32|
                (got matches Received::Message(msg) && msg@
                    == #[trigger] controller::clipboard_message(seq, text)) ==> effects@.len() > 0
                    && effects@[0]@ == SessionEffectView::SetClipboard(text),
    {
        match got {
            Received::Closed => vec![
                SessionEffect::Report(ClientStatus::Disconnected("server closed".to_string())),
                SessionEffect::Finish,
            ],
            Received::Failed(reason) => vec![
                SessionEffect::Report(ClientStatus::Disconnected(reason)),
                SessionEffect::Fail,
            ],
            Received::Message(msg) => {
                let mut effects: Vec<SessionEffect> = Vec::new();
                if let Message::ClipboardData { data, .. } = &msg {
                    effects.push(
                        SessionEffect::SetClipboard(lossy_text(data.as_slice())),
                    );
                }
                let ghost clip = effect_views(effects@);
                let actions = self.machine.handle(msg);
                carry_out(actions, &mut effects);
                assert(clip.len() > 0 ==> effect_views(effects@)[0] == clip[0]);
                effects
            },
        }
    }
}

/// Appends the effects of some actions.
fn carry_out(actions: Vec<ClientAction>, effects: &mut Vec<SessionEffect>)
    ensures
        effect_views(final(effects)@) == effect_views(old(effects)@) + all_carried_out(
            client::action_views(actions@),
        ),
{
    let ghost all = client::action_views(actions@);
    let ghost start = effect_views(effects@);
    assert(all.skip(0) =~= all);
    for action in iter: actions
        invariant
            iter.seq() == actions@,
            all == client::action_views(actions@),
            start == effect_views(old(effects)@),
            start + all_carried_out(all) == effect_views(effects@) + all_carried_out(
                all.skip(iter.index() as int),
            ),
    {
        let ghost left = all.skip(iter.index() as int);
        let ghost before = effect_views(effects@);
        assert(left[0] == action@);
        assert(left.drop_first() =~= all.skip(iter.index() + 1));
        match action {
            ClientAction::Inject(cmd) => effects.push(SessionEffect::Inject(cmd)),
            ClientAction::Reply(msg) => effects.push(SessionEffect::Reply(msg)),
            ClientAction::Connected => effects.push(SessionEffect::Report(ClientStatus::Connected)),
            ClientAction::Entered => effects.push(SessionEffect::Report(ClientStatus::Entered)),
            ClientAction::Left => effects.push(SessionEffect::Report(ClientStatus::Left)),
            ClientAction::Disconnect(reason) => {
                effects.push(SessionEffect::Report(ClientStatus::Disconnected(describe(reason))));
                effects.push(SessionEffect::Finish);
                assert(effect_views(effects@) =~= before + carried_out(action@));
                return;
            },
        }
        assert(effect_views(effects@) =~= before + carried_out(action@));
        assert(before + (carried_out(action@) + all_carried_out(left.drop_first())) =~= (before
            + carried_out(action@)) + all_carried_out(left.drop_first()));
    }
    assert(all.skip(all.len() as int) =~= Seq::empty());
}

proof fn lemma_end_is_last(actions: Seq<ClientActionView>, i: int)
    requires
        0 <= i < all_carried_out(actions).len(),
        all_carried_out(actions)[i] is Finish,
    ensures
        i == all_carried_out(actions).len() - 1,
    decreases actions.len(),
{
    if actions.len() > 0 && !(actions[0] is Disconnect) {
        let n = carried_out(actions[0]).len() as int;
        assert(i >= n);
        lemma_end_is_last(actions.drop_first(), i - n);
    }
}

/// Nothing is done after the end of the session.
pub proof fn lemma_nothing_follows_the_end(state: ClientState, got: Received, i: int)
    requires
        0 <= i < session_effects(state, got).len(),
        session_effects(state, got)[i] is Finish || session_effects(state, got)[i] is Fail,
    ensures
        i == session_effects(state, got).len() - 1,
{
    match got {
        Received::Message(msg) => {
            let all = all_carried_out(state.reaction(msg@));
            let skipped = session_effects(state, got).len() - all.len();
            lemma_never_fails(state.reaction(msg@));
            lemma_end_is_last(state.reaction(msg@), i - skipped);
        },
        _ => {},
    }
}

proof fn lemma_never_fails(actions: Seq<ClientActionView>)
    ensures
        forall|i: int|
            0 <= i < all_carried_out(actions).len() ==> !((
            #[trigger] all_carried_out(actions)[i]) is Fail),
    decreases actions.len(),
{
    if actions.len() > 0 && !(actions[0] is Disconnect) {
        lemma_never_fails(actions.drop_first());
        let n = carried_out(actions[0]).len() as int;
        assert forall|i: int| 0 <= i < all_carried_out(actions).len() implies !((
        #[trigger] all_carried_out(actions)[i]) is Fail) by {
            if i >= n {
                assert(all_carried_out(actions)[i] == all_carried_out(actions.drop_first())[i - n]);
            }
        }
    }
}

/// What the machine does on a message is done, all of it and in order, one effect for each action:
/// commands are injected and answers sent as they are, and what happened to the connection and the
/// cursor is reported. A disconnect is reported and then ends the session in good order.
pub proof fn lemma_actions_become_effects(state: ClientState, got: Received, i: int)
    requires
        got is Message,
        !(got->Message_0@ is ClipboardData),
        0 <= i < state.reaction(got->Message_0@).len(),
    ensures
        ({
            let effects = session_effects(state, got);
            let did = state.reaction(got->Message_0@);
            &&& effects.len() == did.len() + if did.last() is Disconnect {
                1int
            } else {
                0int
            }
            &&& match did[i] {
                ClientActionView::Inject(cmd) => effects[i] == SessionEffectView::Inject(cmd),
                ClientActionView::Reply(msg) => effects[i] == SessionEffectView::Reply(msg),
                ClientActionView::Connected => effects[i] == SessionEffectView::Report(
                    ClientStatusView::Connected,
                ),
                ClientActionView::Entered => effects[i] == SessionEffectView::Report(
                    ClientStatusView::Entered,
                ),
                ClientActionView::Left => effects[i] == SessionEffectView::Report(
                    ClientStatusView::Left,
                ),
                ClientActionView::Disconnect(reason) => effects[i] == SessionEffectView::Report(
                    ClientStatusView::Disconnected(reason_text(reason)),
                ) && effects[i + 1] == SessionEffectView::Finish,
            }
        }),
{
    let did = state.reaction(got->Message_0@);
    reveal_with_fuel(all_carried_out, 3);
    if did.len() == 1 {
        assert(did.drop_first() =~= Seq::empty());
    } else {
        assert(did.drop_first().drop_first() =~= Seq::empty());
        assert(did.drop_first()[0] == did[1]);
    }
    assert(session_effects(state, got) =~= all_carried_out(did));
}

/// Clipboard data from the server is put on the local clipboard, whatever its numbers are, and that
/// is all. A message on which the machine does nothing has no effect.
pub proof fn lemma_clipboard_data_is_applied(state: ClientState, got: Received)
    requires
        got is Message,
    ensures
        got->Message_0@ matches MessageView::ClipboardData { data, .. } ==> session_effects(
            state,
            got,
        ).len() == 1 && session_effects(state, got)[0] == SessionEffectView::SetClipboard(
            text::utf8_lossy(data),
        ),
        !(got->Message_0@ is ClipboardData) && state.reaction(got->Message_0@).len() == 0
            ==> session_effects(state, got).len() == 0,
{
}

/// A connection that the server closes ends the session in good order, and one that fails ends it
/// with the failure. Both are reported first, the failure in its own words.
pub proof fn lemma_endings_are_reported(state: ClientState, reason: String)
    ensures
        ({
            let closed = session_effects(state, Received::Closed);
            let failed = session_effects(state, Received::Failed(reason));
            &&& closed.len() == 2
            &&& closed[0] == SessionEffectView::Report(
                ClientStatusView::Disconnected("server closed"@),
            )
            &&& closed[1] == SessionEffectView::Finish
            &&& failed.len() == 2
            &&& failed[0] == SessionEffectView::Report(ClientStatusView::Disconnected(reason@))
            &&& failed[1] == SessionEffectView::Fail
        }),
{
}

/// A reason is worded by its name, and an incompatible version with its two numbers, the major one
/// first.
pub proof fn lemma_reasons_are_worded(major: i16, minor: i16)
    ensures
        reason_text(DisconnectReason::ServerClosed) == "ServerClosed"@,
        reason_text(DisconnectReason::NameInUse) == "NameInUse"@,
        reason_text(DisconnectReason::UnknownToServer) == "UnknownToServer"@,
        reason_text(DisconnectReason::ProtocolViolation) == "ProtocolViolation"@,
        reason_text(DisconnectReason::IncompatibleVersion { major, minor })
            == "IncompatibleVersion { major: "@ + text::signed_decimal(major as int)
            + ", minor: "@ + text::signed_decimal(minor as int) + " }"@,
{
}

} // verus!
